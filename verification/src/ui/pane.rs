//! The panes of a tab: the resources that belong to each leaf of a pane layout,
//! and the dividers between the panes.

use crate::keyed::{
    distinct_keys, keyed, lemma_keyed_entry, lemma_keyed_index, lemma_keyed_inserted,
    lemma_keyed_removed, lemma_keyed_updated,
};
use crate::ui::action::SplitDirection;
use vstd::prelude::*;

verus! {

/// A ratio is stated in parts of ten thousand.
pub const RATIO_UNITS: u16 = 10_000;

/// The smallest share that a divider leaves to its first side.
pub const SMALLEST_RATIO: u16 = 500;

/// The largest share that a divider leaves to its first side.
pub const LARGEST_RATIO: u16 = 9_500;

/// One side of a split.
#[derive(Clone, Copy, Debug, PartialEq, Eq, Structural)]
pub enum PaneBranch {
    First,
    Second,
}

/// How a tab is divided among its panes.
#[derive(Debug)]
pub enum PaneTree {
    Pane(u64),
    Split {
        direction: SplitDirection,
        first_ratio: u16,
        first: Box<PaneTree>,
        second: Box<PaneTree>,
    },
}

/// What a layout refuses.
#[derive(Clone, Copy, Debug, PartialEq, Eq, Structural)]
pub enum PaneLayoutError {
    /// No pane has this identity.
    UnknownPane(u64),
    /// The only pane of a tab cannot be closed.
    LastPane,
    /// Any other refusal.
    Refused,
}

/// What a layout says of itself.
#[derive(Debug)]
pub struct LayoutSummary {
    /// Its panes, in the order of the tree.
    pub ids: Vec<u64>,
    /// The pane that has the input.
    pub active: u64,
    /// The pane that fills the tab, where one does.
    pub zoomed: Option<u64>,
}

impl LayoutSummary {
    /// No pane occurs twice, and the active and the zoomed pane occur.
    pub open spec fn valid(&self) -> bool {
        &&& self.ids@.no_duplicates()
        &&& self.ids@.contains(self.active)
        &&& match self.zoomed {
            Some(id) => self.ids@.contains(id),
            None => true,
        }
    }
}

impl LayoutSummary {
    /// A copy of the summary.
    pub fn copy(&self) -> (copy: Self)
        ensures
            copy.ids@ == self.ids@,
            copy.active == self.active,
            copy.zoomed == self.zoomed,
    {
        let ids = self.ids.clone();
        proof {
            assert(ids@ =~= self.ids@);
        }
        LayoutSummary { ids, active: self.active, zoomed: self.zoomed }
    }
}

/// Whether a list holds a pane.
fn holds(ids: &Vec<u64>, id: u64) -> (held: bool)
    ensures
        held == ids@.contains(id),
{
    let mut index: usize = 0;
    while index < ids.len()
        invariant
            index <= ids@.len(),
            forall|i: int| 0 <= i < index ==> ids@[i] != id,
        decreases ids@.len() - index,
    {
        if ids[index] == id {
            return true;
        }
        index += 1;
    }
    false
}

/// The map that a list of entries fills, a later entry replacing an earlier one.
pub open spec fn collected<T>(entries: Seq<(u64, T)>) -> Map<u64, T>
    decreases entries.len(),
{
    if entries.len() == 0 {
        Map::empty()
    } else {
        collected(entries.drop_last()).insert(entries.last().0, entries.last().1)
    }
}

/// An entry put in front counts only where no later one has its key.
proof fn lemma_collected_front<T>(front: (u64, T), rest: Seq<(u64, T)>)
    ensures
        collected(seq![front] + rest) == (if collected(rest).dom().contains(front.0) {
            collected(rest)
        } else {
            collected(rest).insert(front.0, front.1)
        }),
    decreases rest.len(),
{
    let whole = seq![front] + rest;
    if rest.len() == 0 {
        assert(rest =~= Seq::<(u64, T)>::empty());
        assert(whole.drop_last() =~= rest);
        assert(collected(rest) == Map::<u64, T>::empty());
        assert(collected(whole) =~= collected(rest).insert(front.0, front.1));
    } else {
        lemma_collected_front(front, rest.drop_last());
        assert(whole.drop_last() =~= seq![front] + rest.drop_last());
        assert(whole.last() == rest.last());
        if collected(rest).dom().contains(front.0) {
            assert(collected(whole) =~= collected(rest));
        } else {
            assert(collected(whole) =~= collected(rest).insert(front.0, front.1));
        }
    }
}

/// The entries stand in the order of their panes.
pub open spec fn ascending<T>(entries: Seq<(u64, T)>) -> bool {
    forall|i: int, j: int|
        0 <= i < j < entries.len() ==> (#[trigger] entries[i]).0 < (#[trigger] entries[j]).0
}

/// Each pane has exactly one entry.
pub open spec fn one_each<T>(ids: Seq<u64>, entries: Seq<(u64, T)>) -> bool {
    forall|id: u64|
        #![trigger ids.contains(id)]
        #![trigger keyed(entries).dom().contains(id)]
        keyed(entries).dom().contains(id) <==> ids.contains(id)
}

/// A ratio that a divider can have.
pub open spec fn divider_ratio(ratio: u16) -> bool {
    SMALLEST_RATIO <= ratio <= LARGEST_RATIO
}

/// The share of its first side when a divider stands at `position` of
/// `maximum`: rounded to the nearest part, and kept off both edges.
pub open spec fn ratio_at(position: int, maximum: int) -> int
    recommends
        maximum > 0,
{
    let rounded = (position * RATIO_UNITS + maximum / 2) / maximum;
    if position < 0 || rounded < SMALLEST_RATIO {
        SMALLEST_RATIO as int
    } else if rounded > LARGEST_RATIO {
        LARGEST_RATIO as int
    } else {
        rounded
    }
}

/// Where a divider with a ratio stands, of `maximum`. The product saturates at
/// the bounds of the position's type before it is divided, towards zero.
pub open spec fn position_at(ratio: int, maximum: int) -> int {
    let product = maximum * ratio;
    if product > i32::MAX {
        i32::MAX as int / RATIO_UNITS as int
    } else if product < i32::MIN {
        -(-(i32::MIN as int) / RATIO_UNITS as int)
    } else if product < 0 {
        -(-product / RATIO_UNITS as int)
    } else {
        product / RATIO_UNITS as int
    }
}

/// The divider ratios that were moved since the panes were last laid out, by the
/// path from the root to the split.
pub open spec fn moved_ratios(pending: Seq<(Vec<PaneBranch>, u16)>) -> Seq<(Seq<PaneBranch>, u16)> {
    pending.map_values(|update: (Vec<PaneBranch>, u16)| (update.0@, update.1))
}

/// No split occurs twice, and every ratio is one that a divider can have.
pub open spec fn valid_moves(moves: Seq<(Seq<PaneBranch>, u16)>) -> bool {
    &&& distinct_keys(moves)
    &&& forall|i: int| 0 <= i < moves.len() ==> divider_ratio((#[trigger] moves[i]).1)
}

/// The place of the note for a split, from `from` on.
pub open spec fn note_place(
    moves: Seq<(Seq<PaneBranch>, u16)>,
    path: Seq<PaneBranch>,
    from: int,
) -> Option<int>
    decreases moves.len() - from,
{
    if from < 0 || from >= moves.len() {
        None
    } else if moves[from].0 == path {
        Some(from)
    } else {
        note_place(moves, path, from + 1)
    }
}

/// The notes with another ratio for a split: in the place of its earlier note, or
/// behind the others.
pub open spec fn noted(
    moves: Seq<(Seq<PaneBranch>, u16)>,
    path: Seq<PaneBranch>,
    ratio: u16,
) -> Seq<(Seq<PaneBranch>, u16)> {
    match note_place(moves, path, 0) {
        Some(place) => moves.update(place, (path, ratio)),
        None => moves.push((path, ratio)),
    }
}

proof fn lemma_note_place(moves: Seq<(Seq<PaneBranch>, u16)>, path: Seq<PaneBranch>, from: int)
    requires
        0 <= from,
    ensures
        match note_place(moves, path, from) {
            Some(place) => from <= place < moves.len() && moves[place].0 == path,
            None => forall|i: int| from <= i < moves.len() ==> (#[trigger] moves[i]).0 != path,
        },
    decreases moves.len() - from,
{
    if from < moves.len() && moves[from].0 != path {
        lemma_note_place(moves, path, from + 1);
    }
}

/// A note gives its split that ratio and leaves the notes for all others alone.
pub proof fn law_a_note_is_about_one_split(
    moves: Seq<(Seq<PaneBranch>, u16)>,
    path: Seq<PaneBranch>,
    ratio: u16,
)
    requires
        distinct_keys(moves),
    ensures
        distinct_keys(noted(moves, path, ratio)),
        keyed(noted(moves, path, ratio)) == keyed(moves).insert(path, ratio),
{
    lemma_note_place(moves, path, 0);
    match note_place(moves, path, 0) {
        Some(place) => {
            lemma_keyed_updated(moves, place, ratio);
        },
        None => {
            if keyed(moves).dom().contains(path) {
                let at = lemma_keyed_index(moves, path);
                assert(moves[at].0 != path);
            }
            lemma_keyed_inserted(moves, moves.len() as int, path, ratio);
            assert(moves.push((path, ratio)) =~= moves.insert(moves.len() as int, (path, ratio)));
        },
    }
}

/// A copy of the noted ratios.
fn copy_ratios(pending: &Vec<(Vec<PaneBranch>, u16)>) -> (copy: Vec<(Vec<PaneBranch>, u16)>)
    ensures
        moved_ratios(copy@) == moved_ratios(pending@),
{
    let mut copy: Vec<(Vec<PaneBranch>, u16)> = Vec::new();
    let mut index: usize = 0;
    while index < pending.len()
        invariant
            index <= pending@.len(),
            copy@.len() == index,
            forall|i: int|
                0 <= i < index ==> (#[trigger] copy@[i]).0@ == pending@[i].0@ && copy@[i].1
                    == pending@[i].1,
        decreases pending@.len() - index,
    {
        copy.push((copy_path(&pending[index].0), pending[index].1));
        index += 1;
    }
    proof {
        assert(moved_ratios(copy@) =~= moved_ratios(pending@));
    }
    copy
}

pub(crate) fn copy_path(path: &Vec<PaneBranch>) -> (copy: Vec<PaneBranch>)
    ensures
        copy@ == path@,
{
    let mut copy: Vec<PaneBranch> = Vec::new();
    let mut index: usize = 0;
    while index < path.len()
        invariant
            index <= path@.len(),
            copy@ == path@.take(index as int),
        decreases path@.len() - index,
    {
        copy.push(path[index]);
        index += 1;
        proof {
            assert(path@.take(index as int) =~= path@.take(index - 1).push(path@[index - 1]));
        }
    }
    proof {
        assert(path@.take(path@.len() as int) =~= path@);
    }
    copy
}

/// Whether two paths lead to the same split.
fn same_path(left: &Vec<PaneBranch>, right: &Vec<PaneBranch>) -> (same: bool)
    ensures
        same == (left@ == right@),
{
    if left.len() != right.len() {
        return false;
    }
    let mut index: usize = 0;
    while index < left.len()
        invariant
            left@.len() == right@.len(),
            index <= left@.len(),
            forall|i: int| 0 <= i < index ==> left@[i] == right@[i],
        decreases left@.len() - index,
    {
        if left[index] != right[index] {
            return false;
        }
        index += 1;
    }
    proof {
        assert(left@ =~= right@);
    }
    true
}

/// A pane layout and the resources owned by each leaf: exactly one for each.
pub struct PaneSet<T> {
    layout: LayoutSummary,
    entries: Vec<(u64, T)>,
    pending: Vec<(Vec<PaneBranch>, u16)>,
    flushed: bool,
}

impl<T> View for PaneSet<T> {
    type V = Map<u64, T>;

    /// The resource of each pane.
    closed spec fn view(&self) -> Map<u64, T> {
        keyed(self.entries@)
    }
}

impl<T> PaneSet<T> {
    /// The panes in the order of the tree.
    pub closed spec fn order(&self) -> Seq<u64> {
        self.layout.ids@
    }

    /// The pane that has the input.
    pub closed spec fn active_pane(&self) -> u64 {
        self.layout.active
    }

    /// The pane that fills the tab.
    pub closed spec fn zoomed_pane(&self) -> Option<u64> {
        self.layout.zoomed
    }

    /// The resources in ascending order of their panes.
    pub closed spec fn listing(&self) -> Seq<(u64, T)> {
        self.entries@
    }

    /// The divider ratios that the layout has not taken over yet.
    pub closed spec fn moves(&self) -> Seq<(Seq<PaneBranch>, u16)> {
        moved_ratios(self.pending@)
    }

    /// Every ratio that was noted has been handed out for the layout to take over. A
    /// change of the layout counts only then, so it never comes before them.
    pub closed spec fn settled(&self) -> bool {
        self.flushed || self.pending@.len() == 0
    }

    /// The same ratios are noted, and have been handed out or not.
    pub open spec fn same_notes(&self, other: &Self) -> bool {
        &&& self.moves() == other.moves()
        &&& self.settled() == other.settled()
    }

    /// The same panes with the same resources in the same layout.
    pub open spec fn same_panes(&self, other: &Self) -> bool {
        &&& self@ == other@
        &&& self.listing() == other.listing()
        &&& self.order() == other.order()
        &&& self.active_pane() == other.active_pane()
        &&& self.zoomed_pane() == other.zoomed_pane()
    }

    /// The resources mirror the layout: each pane has exactly one.
    pub closed spec fn mirrors_layout(&self) -> bool {
        &&& self.layout.valid()
        &&& ascending(self.entries@)
        &&& one_each(self.layout.ids@, self.entries@)
        &&& valid_moves(self.moves())
    }

    /// What holds of every set of panes, stated over what it shows.
    pub proof fn lemma_mirrors(&self)
        requires
            self.mirrors_layout(),
        ensures
            self.order().no_duplicates(),
            self.order().contains(self.active_pane()),
            self@.dom().contains(self.active_pane()),
            forall|id: u64| #[trigger] self@.dom().contains(id) <==> self.order().contains(id),
            ascending(self.listing()),
            distinct_keys(self.listing()),
            self@ == keyed(self.listing()),
            valid_moves(self.moves()),
            self.moves().len() == 0 ==> self.settled(),
    {
    }

    /// A tab with one pane.
    pub fn new(id: u64, entry: T) -> (panes: Self)
        ensures
            panes.mirrors_layout(),
            panes@ == Map::<u64, T>::empty().insert(id, entry),
            panes.order() == seq![id],
            panes.active_pane() == id,
            panes.zoomed_pane() == None::<u64>,
            panes.listing() == seq![(id, entry)],
            panes.moves() == Seq::<(Seq<PaneBranch>, u16)>::empty(),
            panes.settled(),
    {
        let mut ids: Vec<u64> = Vec::new();
        ids.push(id);
        let mut entries: Vec<(u64, T)> = Vec::new();
        entries.push((id, entry));
        let panes = PaneSet {
            layout: LayoutSummary { ids, active: id, zoomed: None },
            entries,
            pending: Vec::new(),
            flushed: true,
        };
        proof {
            assert(panes.layout.ids@[0] == id);
            assert(panes.entries@ =~= seq![(id, entry)]);
            lemma_keyed_entry(panes.entries@, 0);
            assert(panes@ =~= Map::<u64, T>::empty().insert(id, entry));
            assert(panes.moves() =~= Seq::<(Seq<PaneBranch>, u16)>::empty());
            assert(panes.layout.ids@ =~= seq![id]);
        }
        panes
    }

    /// Restore the resources of a layout. It takes exactly one for each pane.
    pub fn from_layout(layout: LayoutSummary, given: Vec<(u64, T)>) -> (restored: Result<
        Self,
        PaneLayoutError,
    >)
        requires
            layout.valid(),
        ensures
            restored is Ok <==> (forall|id: u64| #[trigger]
                collected(given@).dom().contains(id) <==> layout.ids@.contains(id)),
            match restored {
                Ok(panes) => {
                    &&& panes.mirrors_layout()
                    &&& panes@ == collected(given@)
                    &&& panes.order() == layout.ids@
                    &&& panes.active_pane() == layout.active
                    &&& panes.zoomed_pane() == layout.zoomed
                    &&& panes.moves() == Seq::<(Seq<PaneBranch>, u16)>::empty()
                    &&& panes.settled()
                },
                Err(error) => error == PaneLayoutError::UnknownPane(layout.active),
            },
    {
        let ghost all = given@;
        let mut remaining = given;
        let mut entries: Vec<(u64, T)> = Vec::new();
        proof {
            assert(all.skip(all.len() as int) =~= Seq::<(u64, T)>::empty());
            assert(keyed(entries@) =~= collected(Seq::<(u64, T)>::empty()));
        }
        while remaining.len() > 0
            invariant
                remaining@ == all.take(remaining@.len() as int),
                remaining@.len() <= all.len(),
                ascending(entries@),
                keyed(entries@) == collected(all.skip(remaining@.len() as int)),
            decreases remaining@.len(),
        {
            let ghost before = remaining@.len() as int;
            let ghost rest = all.skip(before);
            let ghost held = entries@;
            let taken = remaining.pop();
            if let Some((id, entry)) = taken {
                proof {
                    assert(remaining@ =~= all.take(before - 1));
                    assert(all[before - 1] == (id, entry));
                    assert(all.skip(before - 1) =~= seq![(id, entry)] + rest);
                    lemma_collected_front((id, entry), rest);
                }
                let (index, found) = place_of(&entries, id);
                if !found {
                    entries.insert(index, (id, entry));
                    proof {
                        assert(!keyed(held).dom().contains(id)) by {
                            if keyed(held).dom().contains(id) {
                                let at = lemma_keyed_index(held, id);
                                assert(held[at].0 == id);
                            }
                        }
                        lemma_keyed_inserted(held, index as int, id, entry);
                    }
                } else {
                    proof {
                        lemma_keyed_entry(held, index as int);
                    }
                }
            }
        }
        proof {
            assert(all.skip(0) =~= all);
        }
        let mut index: usize = 0;
        while index < layout.ids.len()
            invariant
                index <= layout.ids@.len(),
                ascending(entries@),
                forall|i: int|
                    0 <= i < index ==> keyed(entries@).dom().contains(#[trigger] layout.ids@[i]),
                keyed(entries@) == collected(all),
                all == given@,
            decreases layout.ids@.len() - index,
        {
            let (at, found) = place_of(&entries, layout.ids[index]);
            if !found {
                proof {
                    let id = layout.ids@[index as int];
                    assert(layout.ids@.contains(id));
                    if collected(all).dom().contains(id) {
                        let held = lemma_keyed_index(entries@, id);
                        assert(entries@[held].0 == id);
                    }
                    assert(!(collected(all).dom().contains(id) <==> layout.ids@.contains(id)));
                }
                return Err(PaneLayoutError::UnknownPane(layout.active));
            }
            proof {
                lemma_keyed_entry(entries@, at as int);
            }
            index += 1;
        }
        let mut index: usize = 0;
        while index < entries.len()
            invariant
                index <= entries@.len(),
                ascending(entries@),
                forall|i: int|
                    0 <= i < index ==> layout.ids@.contains((#[trigger] entries@[i]).0),
                keyed(entries@) == collected(all),
                all == given@,
            decreases entries@.len() - index,
        {
            if !holds(&layout.ids, entries[index].0) {
                proof {
                    let id = entries@[index as int].0;
                    lemma_keyed_entry(entries@, index as int);
                    assert(!(collected(all).dom().contains(id) <==> layout.ids@.contains(id)));
                }
                return Err(PaneLayoutError::UnknownPane(layout.active));
            }
            index += 1;
        }
        proof {
            assert forall|id: u64|
                #[trigger] collected(all).dom().contains(id) <==> layout.ids@.contains(id) by {
                if collected(all).dom().contains(id) {
                    let at = lemma_keyed_index(entries@, id);
                    assert(layout.ids@.contains(entries@[at].0));
                }
            }
        }
        let panes = PaneSet { layout, entries, pending: Vec::new(), flushed: true };
        proof {
            assert(panes.moves() =~= Seq::<(Seq<PaneBranch>, u16)>::empty());
        }
        Ok(panes)
    }

    /// The pane that has the input.
    pub fn active_id(&self) -> (id: u64)
        ensures
            id == self.active_pane(),
    {
        self.layout.active
    }

    /// The panes in the order of the tree.
    pub fn pane_ids(&self) -> (ids: &Vec<u64>)
        ensures
            ids@ == self.order(),
    {
        &self.layout.ids
    }

    /// The number of panes.
    pub fn len(&self) -> (count: usize)
        ensures
            count == self.listing().len(),
    {
        self.entries.len()
    }

    /// The pane and its resource at a place of the ascending order.
    pub fn entry_at(&self, index: usize) -> (entry: &(u64, T))
        requires
            index < self.listing().len(),
        ensures
            *entry == self.listing()[index as int],
    {
        &self.entries[index]
    }

    /// The resource of a pane.
    pub fn get(&self, id: u64) -> (entry: Option<&T>)
        requires
            self.mirrors_layout(),
        ensures
            entry == (if self@.dom().contains(id) {
                Some(&self@[id])
            } else {
                None
            }),
    {
        let (index, found) = place_of(&self.entries, id);
        if found {
            proof {
                lemma_keyed_entry(self.entries@, index as int);
            }
            Some(&self.entries[index].1)
        } else {
            proof {
                if self@.dom().contains(id) {
                    let at = lemma_keyed_index(self.entries@, id);
                    assert(self.entries@[at].0 == id);
                }
            }
            None
        }
    }

    /// The resource of the active pane.
    pub fn active(&self) -> (entry: &T)
        requires
            self.mirrors_layout(),
        ensures
            *entry == self@[self.active_pane()],
    {
        let (index, found) = place_of(&self.entries, self.layout.active);
        proof {
            let at = lemma_keyed_index(self.entries@, self.layout.active);
            assert(self.entries@[at].0 == self.layout.active);
            lemma_keyed_entry(self.entries@, index as int);
        }
        &self.entries[index].1
    }

    /// Whether one pane fills the tab.
    pub fn is_zoomed(&self) -> (zoomed: bool)
        ensures
            zoomed == (self.zoomed_pane() is Some),
    {
        self.layout.zoomed.is_some()
    }

    /// The resource of a pane, to be changed.
    pub fn get_mut(&mut self, id: u64) -> (entry: Option<&mut T>)
        requires
            old(self).mirrors_layout(),
        ensures
            final(self).mirrors_layout(),
            final(self).order() == old(self).order(),
            final(self).active_pane() == old(self).active_pane(),
            final(self).zoomed_pane() == old(self).zoomed_pane(),
            final(self).same_notes(old(self)),
            match entry {
                Some(entry) => {
                    &&& old(self)@.dom().contains(id)
                    &&& *entry == old(self)@[id]
                    &&& final(self)@ == old(self)@.insert(id, *final(entry))
                },
                None => !old(self)@.dom().contains(id) && *final(self) == *old(self),
            },
    {
        let ghost held = self.entries@;
        let (index, found) = place_of(&self.entries, id);
        if !found {
            proof {
                if self@.dom().contains(id) {
                    let at = lemma_keyed_index(held, id);
                    assert(held[at].0 == id);
                }
            }
            return None;
        }
        proof {
            let at = lemma_keyed_index(held, id);
            assert(held[at].0 == id);
            lemma_keyed_entry(held, index as int);
            assert forall|value: T|
                ascending(#[trigger] held.update(index as int, (id, value))) && keyed(
                    held.update(index as int, (id, value)),
                ) == keyed(held).insert(id, value) by {
                lemma_keyed_updated(held, index as int, value);
                let changed = held.update(index as int, (id, value));
                assert forall|i: int, j: int| 0 <= i < j < changed.len() implies (#[trigger]
                changed[i]).0 < (#[trigger] changed[j]).0 by {
                    assert(held[i].0 < held[j].0);
                }
            }
        }
        Some(&mut self.entries[index].1)
    }

    /// Take over a split that the layout made: the new pane gets `entry`. Where
    /// the layout refused, nothing changes.
    pub fn split(
        &mut self,
        outcome: Result<(u64, LayoutSummary), PaneLayoutError>,
        entry: T,
    ) -> (split: Result<u64, PaneLayoutError>)
        requires
            old(self).mirrors_layout(),
            outcome matches Ok((id, layout)) ==> {
                &&& old(self).settled()
                &&& layout.valid()
                &&& !old(self).order().contains(id)
                &&& forall|other: u64| #[trigger]
                    layout.ids@.contains(other) <==> other == id || old(self).order().contains(
                        other,
                    )
            },
        ensures
            final(self).mirrors_layout(),
            final(self).same_notes(old(self)),
            match outcome {
                Ok((id, layout)) => {
                    &&& split == Ok::<u64, PaneLayoutError>(id)
                    &&& final(self)@ == old(self)@.insert(id, entry)
                    &&& final(self).order() == layout.ids@
                    &&& final(self).active_pane() == layout.active
                    &&& final(self).zoomed_pane() == layout.zoomed
                },
                Err(error) => {
                    &&& split == Err::<u64, PaneLayoutError>(error)
                    &&& *final(self) == *old(self)
                },
            },
    {
        match outcome {
            Ok((id, layout)) => {
                let ghost held = self.entries@;
                let (index, found) = place_of(&self.entries, id);
                proof {
                    if found {
                        lemma_keyed_entry(held, index as int);
                        assert(self@.dom().contains(id));
                    }
                    assert(!self@.dom().contains(id));
                }
                self.entries.insert(index, (id, entry));
                self.layout = layout;
                proof {
                    lemma_keyed_inserted(held, index as int, id, entry);
                }
                Ok(id)
            },
            Err(error) => Err(error),
        }
    }

    /// Take over that the layout closed a pane, and hand out exactly the
    /// resource of that pane. Where the layout refused, nothing changes.
    pub fn close(&mut self, id: u64, outcome: Result<LayoutSummary, PaneLayoutError>) -> (closed:
        Result<T, PaneLayoutError>)
        requires
            old(self).mirrors_layout(),
            outcome matches Ok(layout) ==> {
                &&& old(self).settled()
                &&& layout.valid()
                &&& old(self).order().contains(id)
                &&& forall|other: u64| #[trigger]
                    layout.ids@.contains(other) <==> other != id && old(self).order().contains(
                        other,
                    )
            },
        ensures
            final(self).mirrors_layout(),
            final(self).same_notes(old(self)),
            match outcome {
                Ok(layout) => {
                    &&& closed == Ok::<T, PaneLayoutError>(old(self)@[id])
                    &&& final(self)@ == old(self)@.remove(id)
                    &&& final(self).order() == layout.ids@
                    &&& final(self).active_pane() == layout.active
                    &&& final(self).zoomed_pane() == layout.zoomed
                },
                Err(error) => {
                    &&& closed == Err::<T, PaneLayoutError>(error)
                    &&& *final(self) == *old(self)
                },
            },
    {
        match outcome {
            Ok(layout) => {
                let ghost held = self.entries@;
                let (index, found) = place_of(&self.entries, id);
                proof {
                    assert(self@.dom().contains(id));
                    let at = lemma_keyed_index(held, id);
                    assert(held[at].0 == id);
                    lemma_keyed_entry(held, index as int);
                    lemma_keyed_removed(held, index as int);
                }
                let (_, entry) = self.entries.remove(index);
                self.layout = layout;
                Ok(entry)
            },
            Err(error) => Err(error),
        }
    }

    /// Take over another active pane, other ratios or another zoom of the same
    /// panes.
    pub fn rearrange(&mut self, layout: LayoutSummary)
        requires
            old(self).mirrors_layout(),
            old(self).settled(),
            layout.valid(),
            forall|id: u64| #[trigger]
                layout.ids@.contains(id) <==> old(self).order().contains(id),
        ensures
            final(self).mirrors_layout(),
            final(self)@ == old(self)@,
            final(self).listing() == old(self).listing(),
            final(self).moves() == old(self).moves(),
            final(self).settled(),
            final(self).order() == layout.ids@,
            final(self).active_pane() == layout.active,
            final(self).zoomed_pane() == layout.zoomed,
    {
        self.layout = layout;
    }

    /// Hand out the noted divider ratios, in the order in which the splits were first
    /// moved, for the layout to take over before its next change. The notes stay until
    /// the panes are laid out anew.
    pub fn flush_divider_ratios(&mut self) -> (ratios: Vec<(Vec<PaneBranch>, u16)>)
        requires
            old(self).mirrors_layout(),
        ensures
            final(self).mirrors_layout(),
            final(self).settled(),
            moved_ratios(ratios@) == old(self).moves(),
            final(self).same_panes(old(self)),
            final(self).moves() == old(self).moves(),
    {
        self.flushed = true;
        copy_ratios(&self.pending)
    }

    /// Whether every noted ratio has been handed out for the layout to take over.
    pub fn is_settled(&self) -> (settled: bool)
        ensures
            settled == self.settled(),
    {
        self.flushed || self.pending.len() == 0
    }

    /// The divider ratios that the layout takes over before its next change, in
    /// the order in which the splits were first moved.
    pub fn pending_ratios(&self) -> (pending: &Vec<(Vec<PaneBranch>, u16)>)
        ensures
            moved_ratios(pending@) == self.moves(),
    {
        &self.pending
    }

    /// The panes were laid out anew, with the ratios that the layout now holds.
    pub fn laid_out(&mut self)
        requires
            old(self).mirrors_layout(),
        ensures
            final(self).mirrors_layout(),
            final(self).same_panes(old(self)),
            final(self).moves() == Seq::<(Seq<PaneBranch>, u16)>::empty(),
            final(self).settled(),
    {
        self.pending = Vec::new();
        proof {
            assert(self.moves() =~= Seq::<(Seq<PaneBranch>, u16)>::empty());
        }
    }

    /// A divider was dragged. A divider without room is left alone; otherwise
    /// the ratio of its split is noted, in the place of an earlier note, and the layout
    /// has to take it over before its next change.
    pub fn divider_moved(&mut self, path: Vec<PaneBranch>, position: i32, maximum: i32)
        requires
            old(self).mirrors_layout(),
        ensures
            final(self).mirrors_layout(),
            final(self).same_panes(old(self)),
            maximum <= 0 ==> final(self).same_notes(old(self)),
            maximum > 0 ==> final(self).moves() == noted(
                old(self).moves(),
                path@,
                ratio_at(position as int, maximum as int) as u16,
            ) && !final(self).settled(),
    {
        if maximum <= 0 {
            return;
        }
        let ratio = divider_ratio_at(position, maximum);
        let ghost before = self.moves();
        proof {
            law_a_note_is_about_one_split(before, path@, ratio);
        }
        let mut index: usize = 0;
        while index < self.pending.len()
            invariant
                index <= self.pending@.len(),
                before == moved_ratios(self.pending@),
                *self == *old(self),
                self.mirrors_layout(),
                before == self.moves(),
                divider_ratio(ratio),
                ratio == ratio_at(position as int, maximum as int),
                maximum > 0,
                note_place(before, path@, 0) == note_place(before, path@, index as int),
                distinct_keys(noted(before, path@, ratio)),
            decreases self.pending@.len() - index,
        {
            if same_path(&self.pending[index].0, &path) {
                self.flushed = false;
                let (known, _) = self.pending.remove(index);
                self.pending.insert(index, (known, ratio));
                proof {
                    assert(before[index as int].0 == path@);
                    assert(self.moves() =~= before.update(index as int, (path@, ratio)));
                }
                return;
            }
            assert(before[index as int].0 == self.pending@[index as int].0@);
            index += 1;
        }
        self.flushed = false;
        self.pending.push((path, ratio));
        proof {
            assert(self.moves() =~= before.push((path@, ratio)));
        }
    }

    /// Where a divider stands when its split gets `maximum` of room: by the
    /// ratio that was last noted for it, otherwise by the layout's.
    pub fn divider_position(&self, path: &Vec<PaneBranch>, initial: u16, maximum: i32) -> (position:
        i32)
        requires
            self.mirrors_layout(),
            initial <= RATIO_UNITS,
        ensures
            position == position_at(
                if keyed(self.moves()).dom().contains(path@) {
                    keyed(self.moves())[path@] as int
                } else {
                    initial as int
                },
                maximum as int,
            ),
    {
        let ghost moves = self.moves();
        let mut index: usize = 0;
        while index < self.pending.len()
            invariant
                index <= self.pending@.len(),
                moves == moved_ratios(self.pending@),
                valid_moves(moves),
                forall|i: int| 0 <= i < index ==> (#[trigger] moves[i]).0 != path@,
            decreases self.pending@.len() - index,
        {
            if same_path(&self.pending[index].0, path) {
                proof {
                    assert(moves[index as int].0 == path@);
                    lemma_keyed_entry(moves, index as int);
                }
                return divider_position_at(self.pending[index].1, maximum);
            }
            assert(moves[index as int].0 == self.pending@[index as int].0@);
            index += 1;
        }
        proof {
            if keyed(moves).dom().contains(path@) {
                let at = lemma_keyed_index(moves, path@);
                assert(moves[at].0 != path@);
            }
        }
        divider_position_at(initial, maximum)
    }
}

/// Where a pane stands in an ascending list, or where it would be inserted.
fn place_of<T>(entries: &Vec<(u64, T)>, id: u64) -> (place: (usize, bool))
    requires
        ascending(entries@),
    ensures
        place.0 <= entries@.len(),
        place.1 ==> place.0 < entries@.len() && entries@[place.0 as int].0 == id,
        forall|i: int| 0 <= i < place.0 ==> (#[trigger] entries@[i]).0 < id,
        forall|i: int|
            place.0 <= i < entries@.len() && !(place.1 && i == place.0) ==> (#[trigger]
            entries@[i]).0 > id,
{
    let mut index: usize = 0;
    while index < entries.len() && entries[index].0 < id
        invariant
            index <= entries@.len(),
            forall|i: int| 0 <= i < index ==> (#[trigger] entries@[i]).0 < id,
        decreases entries@.len() - index,
    {
        index += 1;
    }
    let found = index < entries.len() && entries[index].0 == id;
    (index, found)
}

/// The ratio of a divider that stands at `position` of `maximum`.
pub fn divider_ratio_at(position: i32, maximum: i32) -> (ratio: u16)
    requires
        maximum > 0,
    ensures
        ratio == ratio_at(position as int, maximum as int),
        divider_ratio(ratio),
{
    if position < 0 {
        return SMALLEST_RATIO;
    }
    let rounded: u64 = (position as u64 * 10_000 + maximum as u64 / 2) / maximum as u64;
    if rounded < SMALLEST_RATIO as u64 {
        SMALLEST_RATIO
    } else if rounded > LARGEST_RATIO as u64 {
        LARGEST_RATIO
    } else {
        rounded as u16
    }
}

/// Where a divider with a ratio stands, of `maximum`.
pub fn divider_position_at(ratio: u16, maximum: i32) -> (position: i32)
    requires
        ratio <= RATIO_UNITS,
    ensures
        position == position_at(ratio as int, maximum as int),
{
    proof {
        assert(-0x8000_0000 * 10_000 <= maximum * ratio <= 0x8000_0000 * 10_000) by (nonlinear_arith)
            requires
                -0x8000_0000 <= maximum < 0x8000_0000,
                0 <= ratio <= 10_000,
        ;
    }
    let product: i64 = maximum as i64 * ratio as i64;
    if product > 0x7fff_ffff {
        214_748
    } else if product < -0x8000_0000 {
        -214_748
    } else if product < 0 {
        let magnitude: u64 = (-product) as u64;
        -((magnitude / 10_000) as i32)
    } else {
        let magnitude: u64 = product as u64;
        (magnitude / 10_000) as i32
    }
}

/// A divider never gives either side less than a twentieth, wherever it is
/// dragged.
pub proof fn law_divider_keeps_both_sides(position: int, maximum: int)
    requires
        maximum > 0,
    ensures
        SMALLEST_RATIO <= ratio_at(position, maximum) <= LARGEST_RATIO,
        RATIO_UNITS - ratio_at(position, maximum) >= SMALLEST_RATIO,
{
}

/// A divider's ratio is the part of ten thousand that is nearest to where it stands: it
/// is off by half a part at most, unless an edge held it. It is never below five
/// hundredths or above ninety-five, and dragging a divider further never makes its first
/// side smaller.
pub proof fn law_ratio_is_where_the_divider_stands(position: int, further: int, maximum: int)
    requires
        maximum > 0,
        position <= further,
    ensures
        500 <= ratio_at(position, maximum) <= 9500,
        ratio_at(position, maximum) <= ratio_at(further, maximum),
        500 < ratio_at(position, maximum) < 9500 ==> -maximum <= 2 * (position * 10_000 - ratio_at(
            position,
            maximum,
        ) * maximum) <= maximum,
        position * 20 < maximum - maximum / 2 ==> ratio_at(position, maximum) <= 501,
        position <= 0 ==> ratio_at(position, maximum) == 500,
        position >= maximum ==> ratio_at(position, maximum) == 9500,
{
    let sum = position * RATIO_UNITS + maximum / 2;
    let more = further * RATIO_UNITS + maximum / 2;
    let rounded = sum / maximum;
    let later = more / maximum;
    assert(rounded * maximum <= sum < rounded * maximum + maximum) by (nonlinear_arith)
        requires
            maximum > 0,
            rounded == sum / maximum,
    ;
    assert(rounded <= later) by (nonlinear_arith)
        requires
            maximum > 0,
            sum <= more,
            rounded == sum / maximum,
            later == more / maximum,
    ;
    if further < 0 {
        assert(position < 0);
    }
    if position <= 0 {
        assert(rounded <= 0) by (nonlinear_arith)
            requires
                maximum > 0,
                sum <= maximum / 2,
                rounded == sum / maximum,
        ;
    }
    if position >= maximum {
        assert(rounded >= 10_000) by (nonlinear_arith)
            requires
                maximum > 0,
                sum >= maximum * 10_000,
                rounded == sum / maximum,
        ;
    }
    if position * 20 < maximum - maximum / 2 {
        assert(rounded <= 501) by (nonlinear_arith)
            requires
                maximum > 0,
                position * 20 < maximum - maximum / 2,
                sum == position * 10_000 + maximum / 2,
                rounded == sum / maximum,
        ;
    }
}

/// A divider stands at its ratio of the room, counted down to a whole position; half the
/// ratio is half the way, and a divider with the whole ratio stands at the end.
pub proof fn law_divider_stands_at_its_ratio(ratio: int, maximum: int)
    requires
        0 <= ratio <= 10_000,
        0 <= maximum,
        maximum * 10_000 <= i32::MAX,
    ensures
        position_at(ratio, maximum) * 10_000 <= maximum * ratio < position_at(ratio, maximum)
            * 10_000 + 10_000,
        0 <= position_at(ratio, maximum) <= maximum,
        position_at(10_000, maximum) == maximum,
        position_at(0, maximum) == 0,
{
    assert(0 <= maximum * ratio <= maximum * 10_000) by (nonlinear_arith)
        requires
            0 <= ratio <= 10_000,
            0 <= maximum,
    ;
}

/// A later resource for a pane replaces an earlier one, and a pane has a resource exactly
/// if one was given for it.
pub proof fn law_later_resources_replace_earlier_ones<T>(
    entries: Seq<(u64, T)>,
    id: u64,
    entry: T,
    other: u64,
)
    ensures
        collected(entries.push((id, entry))).dom().contains(id),
        collected(entries.push((id, entry)))[id] == entry,
        other != id ==> (collected(entries.push((id, entry))).dom().contains(other) <==> collected(
            entries,
        ).dom().contains(other)),
        other != id && collected(entries).dom().contains(other) ==> collected(
            entries.push((id, entry)),
        )[other] == collected(entries)[other],
        collected(Seq::<(u64, T)>::empty()) == Map::<u64, T>::empty(),
{
    assert(entries.push((id, entry)).drop_last() =~= entries);
}

/// A ratio is one that a divider can have if it leaves each side at least a twentieth.
pub proof fn law_ratios_leave_a_twentieth(ratio: u16)
    ensures
        divider_ratio(ratio) <==> 20 * ratio >= 10_000 && 20 * (10_000 - ratio) >= 10_000,
{
}

/// A split is noted once: its note is found where it stands, and only if it is there.
pub proof fn law_notes_are_found(
    moves: Seq<(Seq<PaneBranch>, u16)>,
    path: Seq<PaneBranch>,
    from: int,
)
    requires
        0 <= from,
    ensures
        match note_place(moves, path, from) {
            Some(place) => from <= place < moves.len() && moves[place].0 == path && forall|i: int|
                from <= i < place ==> (#[trigger] moves[i]).0 != path,
            None => forall|i: int| from <= i < moves.len() ==> (#[trigger] moves[i]).0 != path,
        },
    decreases moves.len() - from,
{
    if from < moves.len() && moves[from].0 != path {
        law_notes_are_found(moves, path, from + 1);
    }
}

} // verus!
