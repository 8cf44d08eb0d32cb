//! Ordered sets of action scopes.

use vstd::prelude::*;

use crate::plugin::ident::ActionScope;
use crate::text::{
    is_text_before, lemma_text_before_irreflexive, lemma_text_before_total,
    lemma_text_before_transitive, text_before,
};

verus! {

/// Each text comes strictly before all later ones.
pub open spec fn ascending(texts: Seq<Seq<char>>) -> bool {
    forall|i: int, j: int|
        0 <= i < j < texts.len() ==> text_before(#[trigger] texts[i], #[trigger] texts[j])
}

/// The texts of a sequence of scopes.
pub open spec fn scope_texts(scopes: Seq<ActionScope>) -> Seq<Seq<char>> {
    scopes.map_values(|scope: ActionScope| scope@)
}

/// A set of action scopes, listed in the order of their texts.
#[derive(Debug, PartialEq, Eq)]
pub struct ScopeSet {
    items: Vec<ActionScope>,
}

impl View for ScopeSet {
    type V = Set<Seq<char>>;

    open spec fn view(&self) -> Set<Seq<char>> {
        self.listed().to_set()
    }
}

impl Clone for ScopeSet {
    fn clone(&self) -> (copy: Self)
        ensures
            copy.listed() == self.listed(),
    {
        let items = self.items.clone();
        proof {
            assert(scope_texts(items@) =~= scope_texts(self.items@));
        }
        ScopeSet { items }
    }
}

impl Default for ScopeSet {
    fn default() -> (set: Self)
        ensures
            set.wf(),
            set@ == Set::<Seq<char>>::empty(),
    {
        ScopeSet::new()
    }
}

impl ScopeSet {
    /// The members in order.
    pub closed spec fn listed(&self) -> Seq<Seq<char>> {
        scope_texts(self.items@)
    }

    /// The members are listed in strictly ascending order.
    pub open spec fn wf(&self) -> bool {
        ascending(self.listed())
    }

    /// The empty set.
    pub fn new() -> (set: ScopeSet)
        ensures
            set.wf(),
            set.listed() == Seq::<Seq<char>>::empty(),
            set@ == Set::<Seq<char>>::empty(),
    {
        let set = ScopeSet { items: Vec::new() };
        proof {
            assert(set.listed() =~= Seq::<Seq<char>>::empty());
            assert(set@ =~= Set::<Seq<char>>::empty());
        }
        set
    }

    pub fn is_empty(&self) -> (empty: bool)
        ensures
            empty == (self@ == Set::<Seq<char>>::empty()),
    {
        proof {
            if self.listed().len() == 0 {
                assert(self@ =~= Set::<Seq<char>>::empty());
            } else {
                assert(self@.contains(self.listed()[0]));
            }
        }
        self.items.len() == 0
    }

    pub fn len(&self) -> (count: usize)
        ensures
            count == self.listed().len(),
    {
        self.items.len()
    }

    /// The members in order.
    pub fn items(&self) -> (items: &Vec<ActionScope>)
        ensures
            scope_texts(items@) == self.listed(),
    {
        &self.items
    }

    pub fn contains(&self, scope: &ActionScope) -> (found: bool)
        ensures
            found == self@.contains(scope@),
    {
        let mut index: usize = 0;
        while index < self.items.len()
            invariant
                index <= self.items@.len(),
                forall|i: int| 0 <= i < index ==> self.listed()[i] != scope@,
            decreases self.items@.len() - index,
        {
            if self.items[index].same(scope) {
                proof {
                    assert(self.listed()[index as int] == scope@);
                }
                return true;
            }
            index += 1;
        }
        false
    }

    /// Adds a scope; whether it was not there before.
    pub fn insert(&mut self, scope: ActionScope) -> (added: bool)
        requires
            old(self).wf(),
        ensures
            final(self).wf(),
            added == !old(self)@.contains(scope@),
            final(self)@ == old(self)@.insert(scope@),
    {
        let ghost before = self.listed();
        let mut index: usize = 0;
        while index < self.items.len() && is_text_before(
            self.items[index].as_str(),
            scope.as_str(),
        )
            invariant
                index <= self.items@.len(),
                before == self.listed(),
                forall|i: int| 0 <= i < index ==> text_before(before[i], scope@),
            decreases self.items@.len() - index,
        {
            index += 1;
        }
        if index < self.items.len() && self.items[index].same(&scope) {
            proof {
                assert(before[index as int] == scope@);
                assert(self@.insert(scope@) =~= self@);
            }
            return false;
        }
        let ghost text = scope@;
        proof {
            assert forall|i: int| index <= i < before.len() implies text_before(
                text,
                #[trigger] before[i],
            ) by {
                lemma_text_before_total(text, before[index as int]);
                if i > index {
                    lemma_text_before_transitive(text, before[index as int], before[i]);
                }
            }
            if before.to_set().contains(text) {
                let i = choose|i: int| 0 <= i < before.len() && before[i] == text;
                lemma_text_before_irreflexive(text);
            }
        }
        self.items.insert(index, scope);
        proof {
            let after = self.listed();
            assert(after =~= before.insert(index as int, text));
            assert forall|i: int, j: int| 0 <= i < j < after.len() implies text_before(
                #[trigger] after[i],
                #[trigger] after[j],
            ) by {
                if i == index {
                    assert(after[j] == before[j - 1]);
                } else if j == index {
                    assert(after[i] == before[i]);
                } else {
                    let k = if i < index { i } else { i - 1 };
                    let l = if j < index { j } else { j - 1 };
                    assert(after[i] == before[k] && after[j] == before[l]);
                }
            }
            assert forall|member: Seq<char>| after.to_set().contains(member) implies before.to_set().insert(text).contains(member) by {
                let i = choose|i: int| 0 <= i < after.len() && after[i] == member;
                if i < index {
                    assert(before[i] == member);
                } else if i > index {
                    assert(before[i - 1] == member);
                }
            }
            assert forall|member: Seq<char>| before.to_set().insert(text).contains(member) implies after.to_set().contains(member) by {
                if member == text {
                    assert(after[index as int] == member);
                } else {
                    let i = choose|i: int| 0 <= i < before.len() && before[i] == member;
                    if i < index {
                        assert(after[i] == member);
                    } else {
                        assert(after[i + 1] == member);
                    }
                }
            }
            assert(after.to_set() =~= before.to_set().insert(text));
        }
        true
    }

    /// The members that `other` does not hold.
    pub fn difference(&self, other: &ScopeSet) -> (rest: ScopeSet)
        requires
            self.wf(),
        ensures
            rest.wf(),
            rest@ == self@.difference(other@),
    {
        let mut rest = ScopeSet::new();
        let mut index: usize = 0;
        let ghost mine = self.listed();
        proof {
            assert(mine.take(0).to_set().difference(other@) =~= Set::<Seq<char>>::empty());
        }
        while index < self.items.len()
            invariant
                index <= self.items@.len(),
                mine == self.listed(),
                rest.wf(),
                rest@ == mine.take(index as int).to_set().difference(other@),
            decreases self.items@.len() - index,
        {
            let ghost seen = mine.take(index as int);
            let ghost member = mine[index as int];
            proof {
                lemma_push_to_set(seen, member);
                assert(mine.take(index + 1) =~= seen.push(member));
            }
            if other.contains(&self.items[index]) {
                proof {
                    assert(seen.to_set().insert(member).difference(other@)
                        =~= seen.to_set().difference(other@));
                }
            } else {
                rest.insert(self.items[index].clone());
                proof {
                    assert(seen.to_set().insert(member).difference(other@)
                        =~= seen.to_set().difference(other@).insert(member));
                }
            }
            index += 1;
        }
        proof {
            assert(mine.take(mine.len() as int) =~= mine);
        }
        rest
    }
}

/// Appending a member adds it to the set of a sequence's members.
pub proof fn lemma_push_to_set<A>(items: Seq<A>, item: A)
    ensures
        items.push(item).to_set() == items.to_set().insert(item),
{
    let after = items.push(item);
    assert forall|member: A| items.to_set().insert(item).contains(
        member,
    ) implies after.to_set().contains(member) by {
        if member == item {
            assert(after[items.len() as int] == member);
        } else {
            let i = choose|i: int| 0 <= i < items.len() && items[i] == member;
            assert(after[i] == member);
        }
    }
    assert(after.to_set() =~= items.to_set().insert(item));
}

/// Two sets with the same members list them alike.
pub proof fn lemma_listing_is_determined(left: Seq<Seq<char>>, right: Seq<Seq<char>>)
    requires
        ascending(left),
        ascending(right),
        left.to_set() == right.to_set(),
    ensures
        left == right,
    decreases left.len(),
{
    if left.len() == 0 {
        if right.len() > 0 {
            assert(right.to_set().contains(right[0]));
        }
        assert(left =~= right);
    } else {
        assert(left.to_set().contains(left[0]));
        assert(right.len() > 0);
        assert(right.to_set().contains(right[0]));
        let i = choose|i: int| 0 <= i < right.len() && right[i] == left[0];
        let j = choose|j: int| 0 <= j < left.len() && left[j] == right[0];
        if i > 0 {
            assert(text_before(right[0], right[i]));
            if j > 0 {
                assert(text_before(left[0], left[j]));
                lemma_text_before_transitive(left[0], right[0], left[0]);
            }
            lemma_text_before_irreflexive(left[0]);
        }
        assert(left[0] == right[0]);
        let left_rest = left.drop_first();
        let right_rest = right.drop_first();
        assert forall|member: Seq<char>| left_rest.to_set().contains(
            member,
        ) implies right_rest.to_set().contains(member) by {
            let k = choose|k: int| 0 <= k < left_rest.len() && left_rest[k] == member;
            assert(left[k + 1] == member);
            assert(text_before(left[0], left[k + 1]));
            lemma_text_before_irreflexive(member);
            assert(left.to_set().contains(member));
            let l = choose|l: int| 0 <= l < right.len() && right[l] == member;
            assert(right_rest[l - 1] == member);
        }
        assert forall|member: Seq<char>| right_rest.to_set().contains(
            member,
        ) implies left_rest.to_set().contains(member) by {
            let k = choose|k: int| 0 <= k < right_rest.len() && right_rest[k] == member;
            assert(right[k + 1] == member);
            assert(text_before(right[0], right[k + 1]));
            lemma_text_before_irreflexive(member);
            assert(right.to_set().contains(member));
            let l = choose|l: int| 0 <= l < left.len() && left[l] == member;
            assert(left_rest[l - 1] == member);
        }
        assert(left_rest.to_set() =~= right_rest.to_set());
        lemma_listing_is_determined(left_rest, right_rest);
        assert(left =~= seq![left[0]] + left_rest);
        assert(right =~= seq![right[0]] + right_rest);
    }
}

} // verus!
