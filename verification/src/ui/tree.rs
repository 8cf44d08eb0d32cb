//! From the tree of a pane layout to the widgets that show it.

use crate::keyed::{distinct_keys, has_key, keyed, lemma_keyed_empty, lemma_keyed_pushed};
use crate::ui::action::SplitDirection;
use crate::ui::pane::{copy_path, moved_ratios, PaneBranch, PaneTree};
use vstd::prelude::*;

verus! {

/// The panes of a tree, in order.
pub open spec fn leaves(tree: PaneTree) -> Seq<u64>
    decreases tree,
{
    match tree {
        PaneTree::Pane(id) => seq![id],
        PaneTree::Split { first, second, .. } => leaves(*first) + leaves(*second),
    }
}

/// The split that a path leads to, with its direction and its ratio.
pub open spec fn split_at(tree: PaneTree, path: Seq<PaneBranch>) -> Option<(SplitDirection, u16)>
    decreases tree,
{
    match tree {
        PaneTree::Pane(_) => None,
        PaneTree::Split { direction, first_ratio, first, second } => if path.len() == 0 {
            Some((direction, first_ratio))
        } else if path[0] == PaneBranch::First {
            split_at(*first, path.drop_first())
        } else {
            split_at(*second, path.drop_first())
        },
    }
}

/// A tree with another ratio at the split that a path leads to. A path that leads to no
/// split changes nothing.
pub open spec fn with_ratio(tree: PaneTree, path: Seq<PaneBranch>, ratio: u16) -> PaneTree
    decreases tree,
{
    match tree {
        PaneTree::Pane(_) => tree,
        PaneTree::Split { direction, first_ratio, first, second } => if path.len() == 0 {
            PaneTree::Split { direction, first_ratio: ratio, first, second }
        } else if path[0] == PaneBranch::First {
            PaneTree::Split {
                direction,
                first_ratio,
                first: Box::new(with_ratio(*first, path.drop_first(), ratio)),
                second,
            }
        } else {
            PaneTree::Split {
                direction,
                first_ratio,
                first,
                second: Box::new(with_ratio(*second, path.drop_first(), ratio)),
            }
        },
    }
}

/// A tree that took over the first ratios that were noted, one after the other.
pub open spec fn committed(
    tree: PaneTree,
    moves: Seq<(Seq<PaneBranch>, u16)>,
    count: int,
) -> PaneTree
    decreases count,
{
    if count <= 0 {
        tree
    } else {
        with_ratio(committed(tree, moves, count - 1), moves[count - 1].0, moves[count - 1].1)
    }
}

/// Give the split that the rest of a path leads to another ratio.
fn set_ratio(tree: PaneTree, path: &Vec<PaneBranch>, from: usize, ratio: u16) -> (changed: PaneTree)
    requires
        from <= path@.len(),
    ensures
        changed == with_ratio(tree, path@.skip(from as int), ratio),
    decreases tree,
{
    let ghost rest = path@.skip(from as int);
    match tree {
        PaneTree::Pane(id) => PaneTree::Pane(id),
        PaneTree::Split { direction, first_ratio, first, second } => {
            if from == path.len() {
                return PaneTree::Split { direction, first_ratio: ratio, first, second };
            }
            proof {
                assert(rest[0] == path@[from as int]);
                assert(rest.drop_first() =~= path@.skip(from + 1));
            }
            match path[from] {
                PaneBranch::First => PaneTree::Split {
                    direction,
                    first_ratio,
                    first: Box::new(set_ratio(*first, path, from + 1, ratio)),
                    second,
                },
                PaneBranch::Second => PaneTree::Split {
                    direction,
                    first_ratio,
                    first,
                    second: Box::new(set_ratio(*second, path, from + 1, ratio)),
                },
            }
        },
    }
}

/// Take the noted ratios over into the tree of a layout. A note whose split is gone is
/// passed over.
pub fn commit_ratios(tree: PaneTree, ratios: &Vec<(Vec<PaneBranch>, u16)>) -> (changed: PaneTree)
    ensures
        changed == committed(tree, moved_ratios(ratios@), ratios@.len() as int),
{
    let ghost given = tree;
    let ghost moves = moved_ratios(ratios@);
    let mut tree = tree;
    let mut index: usize = 0;
    while index < ratios.len()
        invariant
            index <= ratios@.len(),
            moves == moved_ratios(ratios@),
            tree == committed(given, moves, index as int),
        decreases ratios@.len() - index,
    {
        tree = set_ratio(tree, &ratios[index].0, 0, ratios[index].1);
        proof {
            let path = ratios@[index as int].0@;
            assert(path.skip(0) =~= path);
            assert(moves[index as int] == (path, ratios@[index as int].1));
        }
        index += 1;
    }
    tree
}

proof fn lemma_ratio_set(
    tree: PaneTree,
    path: Seq<PaneBranch>,
    ratio: u16,
    other: Seq<PaneBranch>,
)
    ensures
        leaves(with_ratio(tree, path, ratio)) == leaves(tree),
        split_at(with_ratio(tree, path, ratio), other) == (match split_at(tree, other) {
            Some((direction, own)) => Some(
                (
                    direction,
                    if other == path {
                        ratio
                    } else {
                        own
                    },
                ),
            ),
            None => None,
        }),
    decreases tree,
{
    if let PaneTree::Split { first, second, .. } = tree {
        lemma_ratio_set(*first, path.drop_first(), ratio, other.drop_first());
        lemma_ratio_set(*second, path.drop_first(), ratio, other.drop_first());
        if path.len() == 0 {
            if other.len() == 0 {
                assert(other =~= path);
            }
        } else if other.len() > 0 {
            if other[0] == path[0] && other.drop_first() == path.drop_first() {
                assert(other =~= seq![other[0]] + other.drop_first());
                assert(path =~= seq![path[0]] + path.drop_first());
            }
        }
    }
}

proof fn lemma_committed(
    tree: PaneTree,
    moves: Seq<(Seq<PaneBranch>, u16)>,
    count: int,
    path: Seq<PaneBranch>,
)
    requires
        0 <= count <= moves.len(),
        distinct_keys(moves),
    ensures
        leaves(committed(tree, moves, count)) == leaves(tree),
        split_at(committed(tree, moves, count), path) == (match split_at(tree, path) {
            Some((direction, own)) => Some(
                (
                    direction,
                    if keyed(moves.take(count)).dom().contains(path) {
                        keyed(moves.take(count))[path]
                    } else {
                        own
                    },
                ),
            ),
            None => None,
        }),
    decreases count,
{
    if count == 0 {
        assert(moves.take(0) =~= Seq::<(Seq<PaneBranch>, u16)>::empty());
        lemma_keyed_empty::<Seq<PaneBranch>, u16>();
    } else {
        let last = moves[count - 1];
        lemma_committed(tree, moves, count - 1, path);
        lemma_ratio_set(committed(tree, moves, count - 1), last.0, last.1, path);
        let before = moves.take(count - 1);
        assert(moves.take(count) =~= before.push(last));
        assert forall|i: int, j: int| 0 <= i < j < before.len() implies (#[trigger] before[i]).0 != (
        #[trigger] before[j]).0 by {
            assert(moves[i].0 != moves[j].0);
        }
        assert(!has_key(before, last.0)) by {
            if has_key(before, last.0) {
                let i = choose|i: int| 0 <= i < before.len() && (#[trigger] before[i]).0 == last.0;
                assert(moves[i].0 != moves[count - 1].0);
            }
        }
        lemma_keyed_pushed(before, last);
    }
}

/// A ratio that was noted for a split is the split's once the notes were taken over;
/// every other split keeps its own, and every pane its place. So a layout that takes the
/// notes over before its next change makes that change with the ratios that are shown.
pub proof fn law_noted_ratio_is_committed(
    tree: PaneTree,
    moves: Seq<(Seq<PaneBranch>, u16)>,
    path: Seq<PaneBranch>,
)
    requires
        distinct_keys(moves),
    ensures
        leaves(committed(tree, moves, moves.len() as int)) == leaves(tree),
        split_at(committed(tree, moves, moves.len() as int), path) == (match split_at(tree, path) {
            Some((direction, own)) => Some(
                (
                    direction,
                    if keyed(moves).dom().contains(path) {
                        keyed(moves)[path]
                    } else {
                        own
                    },
                ),
            ),
            None => None,
        }),
{
    lemma_committed(tree, moves, moves.len() as int, path);
    assert(moves.take(moves.len() as int) =~= moves);
}

/// The widgets of a tab: terminals, and dividers between two widgets.
#[derive(Debug)]
pub enum PaneWidget {
    Terminal(u64),
    Divider {
        direction: SplitDirection,
        path: Vec<PaneBranch>,
        ratio: u16,
        first: Box<PaneWidget>,
        second: Box<PaneWidget>,
    },
}

/// The widgets of a tab as a value.
pub ghost enum WidgetTree {
    Terminal(u64),
    Divider {
        direction: SplitDirection,
        path: Seq<PaneBranch>,
        ratio: u16,
        first: Box<WidgetTree>,
        second: Box<WidgetTree>,
    },
}

impl View for PaneWidget {
    type V = WidgetTree;

    open spec fn view(&self) -> WidgetTree
        decreases self,
    {
        match *self {
            PaneWidget::Terminal(id) => WidgetTree::Terminal(id),
            PaneWidget::Divider { direction, path, ratio, first, second } => WidgetTree::Divider {
                direction,
                path: path@,
                ratio,
                first: Box::new((*first).view()),
                second: Box::new((*second).view()),
            },
        }
    }
}

/// The widgets of a tree that hangs at `path`: a terminal for each pane, and for
/// each split a divider that knows its own path.
pub open spec fn widgets(tree: PaneTree, path: Seq<PaneBranch>) -> WidgetTree
    decreases tree,
{
    match tree {
        PaneTree::Pane(id) => WidgetTree::Terminal(id),
        PaneTree::Split { direction, first_ratio, first, second } => WidgetTree::Divider {
            direction,
            path,
            ratio: first_ratio,
            first: Box::new(widgets(*first, path.push(PaneBranch::First))),
            second: Box::new(widgets(*second, path.push(PaneBranch::Second))),
        },
    }
}

/// A copy of a path with one more branch.
fn branch_of(path: &Vec<PaneBranch>, branch: PaneBranch) -> (longer: Vec<PaneBranch>)
    ensures
        longer@ == path@.push(branch),
{
    let mut longer = copy_path(path);
    longer.push(branch);
    longer
}

/// The widgets of a tree that hangs at `path`.
pub fn build_tree(tree: &PaneTree, path: &Vec<PaneBranch>) -> (widget: PaneWidget)
    ensures
        widget@ == widgets(*tree, path@),
    decreases tree,
{
    match tree {
        PaneTree::Pane(id) => PaneWidget::Terminal(*id),
        PaneTree::Split { direction, first_ratio, first, second } => {
            let first_path = branch_of(path, PaneBranch::First);
            let second_path = branch_of(path, PaneBranch::Second);
            let first_child = build_tree(first, &first_path);
            let second_child = build_tree(second, &second_path);
            PaneWidget::Divider {
                direction: *direction,
                path: copy_path(path),
                ratio: *first_ratio,
                first: Box::new(first_child),
                second: Box::new(second_child),
            }
        },
    }
}

/// The widgets of a tab: those of the whole tree, or only the zoomed pane.
pub fn tab_widgets(tree: &PaneTree, zoomed: Option<u64>) -> (widget: PaneWidget)
    ensures
        widget@ == (match zoomed {
            Some(id) => WidgetTree::Terminal(id),
            None => widgets(*tree, Seq::<PaneBranch>::empty()),
        }),
{
    match zoomed {
        Some(id) => PaneWidget::Terminal(id),
        None => build_tree(tree, &Vec::new()),
    }
}

/// The terminals among the widgets, in order.
pub open spec fn terminals(widget: WidgetTree) -> Seq<u64>
    decreases widget,
{
    match widget {
        WidgetTree::Terminal(id) => seq![id],
        WidgetTree::Divider { first, second, .. } => terminals(*first) + terminals(*second),
    }
}

/// Every pane is shown exactly as often as it occurs in the tree, in its order.
pub proof fn law_every_pane_is_shown(tree: PaneTree, path: Seq<PaneBranch>)
    ensures
        terminals(widgets(tree, path)) == leaves(tree),
    decreases tree,
{
    if let PaneTree::Split { first, second, .. } = tree {
        law_every_pane_is_shown(*first, path.push(PaneBranch::First));
        law_every_pane_is_shown(*second, path.push(PaneBranch::Second));
    }
}

/// Whether a divider with this path, direction and ratio is among the widgets.
pub open spec fn has_divider(
    widget: WidgetTree,
    path: Seq<PaneBranch>,
    direction: SplitDirection,
    ratio: u16,
) -> bool
    decreases widget,
{
    match widget {
        WidgetTree::Terminal(_) => false,
        WidgetTree::Divider { direction: own_direction, path: own, ratio: own_ratio, first, second } => {
            ||| own == path && own_direction == direction && own_ratio == ratio
            ||| has_divider(*first, path, direction, ratio)
            ||| has_divider(*second, path, direction, ratio)
        },
    }
}

proof fn lemma_dividers_below(
    tree: PaneTree,
    base: Seq<PaneBranch>,
    path: Seq<PaneBranch>,
    direction: SplitDirection,
    ratio: u16,
)
    ensures
        has_divider(widgets(tree, base), path, direction, ratio) <==> (base.len() <= path.len()
            && path.take(base.len() as int) == base && split_at(tree, path.skip(base.len() as int))
            == Some((direction, ratio))),
    decreases tree,
{
    if let PaneTree::Split { direction: own_direction, first_ratio, first, second } = tree {
        let left = base.push(PaneBranch::First);
        let right = base.push(PaneBranch::Second);
        lemma_dividers_below(*first, left, path, direction, ratio);
        lemma_dividers_below(*second, right, path, direction, ratio);
        if base.len() < path.len() {
            let rest = path.skip(base.len() as int);
            assert(rest.drop_first() =~= path.skip(base.len() as int + 1));
            assert(rest[0] == path[base.len() as int]);
            assert(path.take(base.len() as int + 1) =~= path.take(base.len() as int).push(rest[0]));
            if path.take(base.len() as int + 1) == left {
                assert(left.drop_last() =~= base);
                assert(path.take(base.len() as int + 1).drop_last() =~= path.take(base.len() as int));
                assert(left.last() == PaneBranch::First);
                assert(path.take(base.len() as int + 1).last() == rest[0]);
            }
            if path.take(base.len() as int + 1) == right {
                assert(right.drop_last() =~= base);
                assert(path.take(base.len() as int + 1).drop_last() =~= path.take(base.len() as int));
                assert(path.take(base.len() as int + 1).last() == rest[0]);
            }
            if path.take(base.len() as int) == base {
                assert(path.take(base.len() as int + 1) =~= base.push(rest[0]));
            }
            assert(path != base);
        } else if base.len() == path.len() {
            assert(path.take(base.len() as int) =~= path);
            assert(path.skip(base.len() as int).len() == 0);
        } else {
            assert(path != base);
        }
    }
}

/// The path that a divider reports leads to exactly the split that it stands
/// for, and every split has its divider.
pub proof fn law_divider_paths_lead_to_their_splits(
    tree: PaneTree,
    path: Seq<PaneBranch>,
    direction: SplitDirection,
    ratio: u16,
)
    ensures
        has_divider(widgets(tree, Seq::<PaneBranch>::empty()), path, direction, ratio)
            <==> split_at(tree, path) == Some((direction, ratio)),
{
    lemma_dividers_below(tree, Seq::<PaneBranch>::empty(), path, direction, ratio);
    assert(path.take(0) =~= Seq::<PaneBranch>::empty());
    assert(path.skip(0) =~= path);
}

/// Whether two trees are alike, ratios included.
pub fn same_tree(left: &PaneTree, right: &PaneTree) -> (same: bool)
    ensures
        same == (*left == *right),
    decreases left,
{
    match (left, right) {
        (PaneTree::Pane(a), PaneTree::Pane(b)) => *a == *b,
        (
            PaneTree::Split { direction, first_ratio, first, second },
            PaneTree::Split {
                direction: other_direction,
                first_ratio: other_ratio,
                first: other_first,
                second: other_second,
            },
        ) => {
            *direction == *other_direction && *first_ratio == *other_ratio && same_tree(
                first,
                other_first,
            ) && same_tree(second, other_second)
        },
        _ => false,
    }
}

} // verus!
