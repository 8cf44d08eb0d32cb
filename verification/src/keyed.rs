//! Lists of entries that stand for a map: no key occurs twice.

use vstd::prelude::*;

verus! {

/// No key occurs twice.
pub open spec fn distinct_keys<K, V>(entries: Seq<(K, V)>) -> bool {
    forall|i: int, j: int|
        0 <= i < j < entries.len() ==> (#[trigger] entries[i]).0 != (#[trigger] entries[j]).0
}

pub open spec fn has_key<K, V>(entries: Seq<(K, V)>, key: K) -> bool {
    exists|i: int| 0 <= i < entries.len() && (#[trigger] entries[i]).0 == key
}

/// The map that a list of entries stands for.
pub open spec fn keyed<K, V>(entries: Seq<(K, V)>) -> Map<K, V> {
    Map::new(
        |key: K| has_key(entries, key),
        |key: K|
            entries[choose|i: int| 0 <= i < entries.len() && (#[trigger] entries[i]).0 == key].1,
    )
}

pub proof fn lemma_keyed_empty<K, V>()
    ensures
        keyed(Seq::<(K, V)>::empty()) == Map::<K, V>::empty(),
        distinct_keys(Seq::<(K, V)>::empty()),
{
    assert(keyed(Seq::<(K, V)>::empty()) =~= Map::<K, V>::empty());
}

/// An entry stands for itself.
pub proof fn lemma_keyed_entry<K, V>(entries: Seq<(K, V)>, index: int)
    requires
        distinct_keys(entries),
        0 <= index < entries.len(),
    ensures
        keyed(entries).dom().contains(entries[index].0),
        keyed(entries)[entries[index].0] == entries[index].1,
{
    let key = entries[index].0;
    let i = choose|i: int| 0 <= i < entries.len() && (#[trigger] entries[i]).0 == key;
    assert(entries[i].0 == entries[index].0);
    if i < index {
        assert(entries[i].0 != entries[index].0);
    }
    if index < i {
        assert(entries[index].0 != entries[i].0);
    }
}

/// Every key of the map belongs to an entry.
pub proof fn lemma_keyed_index<K, V>(entries: Seq<(K, V)>, key: K) -> (index: int)
    requires
        distinct_keys(entries),
        keyed(entries).dom().contains(key),
    ensures
        0 <= index < entries.len(),
        entries[index].0 == key,
        entries[index].1 == keyed(entries)[key],
{
    let index = choose|i: int| 0 <= i < entries.len() && (#[trigger] entries[i]).0 == key;
    lemma_keyed_entry(entries, index);
    index
}

pub proof fn lemma_keyed_removed<K, V>(entries: Seq<(K, V)>, index: int)
    requires
        distinct_keys(entries),
        0 <= index < entries.len(),
    ensures
        distinct_keys(entries.remove(index)),
        keyed(entries.remove(index)) == keyed(entries).remove(entries[index].0),
{
    let removed = entries.remove(index);
    let gone = entries[index].0;
    assert forall|i: int, j: int| 0 <= i < j < removed.len() implies (#[trigger] removed[i]).0 != (
    #[trigger] removed[j]).0 by {
        let k = if i < index { i } else { i + 1 };
        let l = if j < index { j } else { j + 1 };
        assert(removed[i] == entries[k] && removed[j] == entries[l]);
    }
    assert forall|key: K| has_key(removed, key) <==> key != gone && has_key(entries, key) by {
        if has_key(removed, key) {
            let i = choose|i: int| 0 <= i < removed.len() && (#[trigger] removed[i]).0 == key;
            let k = if i < index { i } else { i + 1 };
            assert(removed[i] == entries[k]);
            if k < index {
                assert(entries[k].0 != entries[index].0);
            } else {
                assert(entries[index].0 != entries[k].0);
            }
        }
        if key != gone && has_key(entries, key) {
            let k = choose|k: int| 0 <= k < entries.len() && (#[trigger] entries[k]).0 == key;
            let i = if k < index { k } else { k - 1 };
            assert(removed[i] == entries[k]);
        }
    }
    assert forall|key: K| has_key(removed, key) implies keyed(removed)[key] == keyed(
        entries,
    )[key] by {
        let i = choose|i: int| 0 <= i < removed.len() && (#[trigger] removed[i]).0 == key;
        let k = if i < index { i } else { i + 1 };
        assert(removed[i] == entries[k]);
        lemma_keyed_entry(removed, i);
        lemma_keyed_entry(entries, k);
    }
    assert(keyed(removed) =~= keyed(entries).remove(gone));
}

/// An entry may get another value in its place.
pub proof fn lemma_keyed_updated<K, V>(entries: Seq<(K, V)>, index: int, value: V)
    requires
        distinct_keys(entries),
        0 <= index < entries.len(),
    ensures
        distinct_keys(entries.update(index, (entries[index].0, value))),
        keyed(entries.update(index, (entries[index].0, value))) == keyed(entries).insert(
            entries[index].0,
            value,
        ),
{
    let key = entries[index].0;
    let changed = entries.update(index, (key, value));
    assert forall|i: int, j: int| 0 <= i < j < changed.len() implies (#[trigger] changed[i]).0 != (
    #[trigger] changed[j]).0 by {
        assert(entries[i].0 != entries[j].0);
    }
    assert forall|other: K| has_key(changed, other) <==> has_key(entries, other) by {
        if has_key(changed, other) {
            let i = choose|i: int| 0 <= i < changed.len() && (#[trigger] changed[i]).0 == other;
            assert(entries[i].0 == other);
        }
        if has_key(entries, other) {
            let i = choose|i: int| 0 <= i < entries.len() && (#[trigger] entries[i]).0 == other;
            assert(changed[i].0 == other);
        }
    }
    assert(has_key(entries, key));
    assert forall|other: K| has_key(changed, other) implies keyed(changed)[other] == keyed(
        entries,
    ).insert(key, value)[other] by {
        let i = choose|i: int| 0 <= i < changed.len() && (#[trigger] changed[i]).0 == other;
        lemma_keyed_entry(changed, i);
        lemma_keyed_entry(entries, i);
        if i != index {
            if i < index {
                assert(entries[i].0 != entries[index].0);
            } else {
                assert(entries[index].0 != entries[i].0);
            }
        }
    }
    assert(keyed(changed) =~= keyed(entries).insert(key, value));
}

/// A new key may stand anywhere in the list.
pub proof fn lemma_keyed_inserted<K, V>(entries: Seq<(K, V)>, index: int, key: K, value: V)
    requires
        distinct_keys(entries),
        0 <= index <= entries.len(),
        !keyed(entries).dom().contains(key),
    ensures
        distinct_keys(entries.insert(index, (key, value))),
        keyed(entries.insert(index, (key, value))) == keyed(entries).insert(key, value),
{
    let grown = entries.insert(index, (key, value));
    assert forall|i: int, j: int| 0 <= i < j < grown.len() implies (#[trigger] grown[i]).0 != (
    #[trigger] grown[j]).0 by {
        let before_i = if i < index { i } else { i - 1 };
        let before_j = if j < index { j } else { j - 1 };
        if i != index {
            assert(grown[i] == entries[before_i]);
        }
        if j != index {
            assert(grown[j] == entries[before_j]);
        }
        if i == index {
            assert(entries[before_j].0 != key);
        } else if j == index {
            assert(entries[before_i].0 != key);
        } else {
            assert(entries[before_i].0 != entries[before_j].0);
        }
    }
    assert(keyed(grown) =~= keyed(entries).insert(key, value)) by {
        assert forall|other: K|
            keyed(grown).dom().contains(other) <==> keyed(entries).insert(
                key,
                value,
            ).dom().contains(other) by {
            if keyed(grown).dom().contains(other) {
                let at = lemma_keyed_index(grown, other);
                if at != index {
                    let before = if at < index { at } else { at - 1 };
                    assert(grown[at] == entries[before]);
                }
            }
            if other == key {
                assert(grown[index].0 == other);
            } else if keyed(entries).dom().contains(other) {
                let at = lemma_keyed_index(entries, other);
                let after = if at < index { at } else { at + 1 };
                assert(grown[after] == entries[at]);
            }
        }
        assert forall|other: K| keyed(grown).dom().contains(other) implies keyed(grown)[other]
            == keyed(entries).insert(key, value)[other] by {
            let at = lemma_keyed_index(grown, other);
            if at == index {
                assert(grown[at] == (key, value));
            } else {
                let before = if at < index { at } else { at - 1 };
                assert(grown[at] == entries[before]);
                lemma_keyed_entry(entries, before);
            }
        }
    }
}

pub proof fn lemma_keyed_pushed<K, V>(entries: Seq<(K, V)>, entry: (K, V))
    requires
        distinct_keys(entries),
        !has_key(entries, entry.0),
    ensures
        distinct_keys(entries.push(entry)),
        keyed(entries.push(entry)) == keyed(entries).insert(entry.0, entry.1),
{
    let pushed = entries.push(entry);
    assert forall|i: int, j: int| 0 <= i < j < pushed.len() implies (#[trigger] pushed[i]).0 != (
    #[trigger] pushed[j]).0 by {
        assert(pushed[i] == entries[i]);
        if j < entries.len() {
            assert(pushed[j] == entries[j]);
        }
    }
    assert forall|key: K| has_key(pushed, key) <==> key == entry.0 || has_key(entries, key) by {
        if has_key(pushed, key) {
            let i = choose|i: int| 0 <= i < pushed.len() && (#[trigger] pushed[i]).0 == key;
            if i < entries.len() {
                assert(entries[i] == pushed[i]);
            }
        }
        if has_key(entries, key) {
            let i = choose|i: int| 0 <= i < entries.len() && (#[trigger] entries[i]).0 == key;
            assert(pushed[i] == entries[i]);
        }
        assert(pushed[entries.len() as int] == entry);
    }
    assert forall|key: K| has_key(pushed, key) implies keyed(pushed)[key] == keyed(
        entries,
    ).insert(entry.0, entry.1)[key] by {
        let i = choose|i: int| 0 <= i < pushed.len() && (#[trigger] pushed[i]).0 == key;
        lemma_keyed_entry(pushed, i);
        if i < entries.len() {
            assert(entries[i] == pushed[i]);
            lemma_keyed_entry(entries, i);
        }
    }
    assert(keyed(pushed) =~= keyed(entries).insert(entry.0, entry.1));
}

} // verus!
