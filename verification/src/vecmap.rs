//! A small map that keeps its entries in the order they came.

use vstd::prelude::*;

verus! {

/// A key: something that can be told apart by its view.
pub trait Key: View + Sized {
    /// Whether two keys are the same.
    fn same(&self, other: &Self) -> (same: bool)
        ensures
            same == (self@ == other@),
    ;
}

/// A map from keys to values. No key occurs twice, and an entry stays where it
/// was put.
#[derive(Debug)]
pub struct VecMap<K, V> {
    entries: Vec<(K, V)>,
}

/// Where `key` stands among `entries`, if it does.
pub open spec fn position<K: Key, V>(entries: Seq<(K, V)>, key: K::V) -> int {
    choose|i: int| 0 <= i < entries.len() && #[trigger] entries[i].0@ == key
}

/// Whether `key` is among `entries`.
pub open spec fn has_key<K: Key, V>(entries: Seq<(K, V)>, key: K::V) -> bool {
    exists|i: int| 0 <= i < entries.len() && #[trigger] entries[i].0@ == key
}

/// The map that `entries` make up.
pub open spec fn map_of<K: Key, V>(entries: Seq<(K, V)>) -> Map<K::V, V> {
    Map::new(
        |key: K::V| has_key(entries, key),
        |key: K::V| entries[position(entries, key)].1,
    )
}

/// Whether no key occurs twice.
pub open spec fn keys_are_distinct<K: Key, V>(entries: Seq<(K, V)>) -> bool {
    forall|i: int, j: int|
        0 <= i < j < entries.len() ==> #[trigger] entries[i].0@ != #[trigger] entries[j].0@
}

/// The entries with `value` at `key`: in the key's place if it has one, else
/// behind all others.
pub open spec fn upsert<K: Key, V>(entries: Seq<(K, V)>, key: K, value: V) -> Seq<(K, V)> {
    if has_key(entries, key@) {
        entries.update(position(entries, key@), (key, value))
    } else {
        entries.push((key, value))
    }
}

/// The entries without the one at `key`, if there is one.
pub open spec fn without<K: Key, V>(entries: Seq<(K, V)>, key: K::V) -> Seq<(K, V)> {
    if has_key(entries, key) {
        entries.remove(position(entries, key))
    } else {
        entries
    }
}

/// A key stands in one place only.
proof fn lemma_position<K: Key, V>(entries: Seq<(K, V)>, i: int)
    requires
        keys_are_distinct(entries),
        0 <= i < entries.len(),
    ensures
        has_key(entries, entries[i].0@),
        position(entries, entries[i].0@) == i,
{
    let p = position(entries, entries[i].0@);
    assert(entries[i].0@ == entries[i].0@);
    assert(0 <= p < entries.len() && entries[p].0@ == entries[i].0@);
    if p < i {
        assert(entries[p].0@ != entries[i].0@);
    } else if i < p {
        assert(entries[i].0@ != entries[p].0@);
    }
}

/// Each entry is what the map holds at its key.
pub proof fn lemma_entry_is_in_map<K: Key, V>(entries: Seq<(K, V)>, i: int)
    requires
        keys_are_distinct(entries),
        0 <= i < entries.len(),
    ensures
        map_of(entries).dom().contains(entries[i].0@),
        map_of(entries)[entries[i].0@] == entries[i].1,
{
    lemma_position(entries, i);
}

/// The map holds a value at a key exactly when an entry says so.
pub proof fn law_map_holds_the_entries<K: Key, V>(entries: Seq<(K, V)>, key: K::V, value: V)
    requires
        keys_are_distinct(entries),
    ensures
        map_of(entries).dom().contains(key) && map_of(entries)[key] == value <==> exists|i: int|
            0 <= i < entries.len() && (#[trigger] entries[i]).0@ == key && entries[i].1 == value,
        map_of(entries).dom().contains(key) <==> exists|i: int|
            0 <= i < entries.len() && (#[trigger] entries[i]).0@ == key,
{
    if map_of(entries).dom().contains(key) {
        let p = position(entries, key);
        assert(0 <= p < entries.len() && entries[p].0@ == key);
        assert(entries[p].1 == map_of(entries)[key]);
    }
    if exists|i: int| 0 <= i < entries.len() && (#[trigger] entries[i]).0@ == key {
        let i = choose|i: int| 0 <= i < entries.len() && (#[trigger] entries[i]).0@ == key;
        lemma_entry_is_in_map(entries, i);
    }
    assert forall|i: int|
        0 <= i < entries.len() && (#[trigger] entries[i]).0@ == key && entries[i].1 == value
        implies map_of(entries)[key] == value by {
        lemma_entry_is_in_map(entries, i);
    }
}

/// An entry that is set again keeps its place, and one that is removed leaves
/// the others as they were.
pub proof fn law_entries_keep_their_places<K: Key, V>(
    entries: Seq<(K, V)>,
    i: int,
    key: K,
    value: V,
)
    requires
        keys_are_distinct(entries),
        0 <= i < entries.len(),
        entries[i].0@ == key@,
    ensures
        upsert(entries, key, value) == entries.take(i) + seq![(key, value)] + entries.skip(i + 1),
        without(entries, key@) == entries.take(i) + entries.skip(i + 1),
{
    lemma_position(entries, i);
    assert(upsert(entries, key, value) =~= entries.take(i) + seq![(key, value)] + entries.skip(
        i + 1,
    ));
    assert(without(entries, key@) =~= entries.take(i) + entries.skip(i + 1));
}

/// A new entry goes behind all others, and removing what is not there changes
/// nothing.
pub proof fn law_new_entries_come_last<K: Key, V>(entries: Seq<(K, V)>, key: K, value: V)
    requires
        forall|i: int| 0 <= i < entries.len() ==> (#[trigger] entries[i]).0@ != key@,
    ensures
        upsert(entries, key, value) == entries + seq![(key, value)],
        without(entries, key@) == entries,
{
    assert(upsert(entries, key, value) =~= entries + seq![(key, value)]);
}

impl<K: Key, V> View for VecMap<K, V> {
    type V = Map<K::V, V>;

    open spec fn view(&self) -> Map<K::V, V> {
        map_of(self.entries_seq())
    }
}

impl<K: Key, V> VecMap<K, V> {
    /// The entries in order.
    pub closed spec fn entries_seq(&self) -> Seq<(K, V)> {
        self.entries@
    }

    /// What every map made here satisfies: no key occurs twice.
    pub open spec fn wf(&self) -> bool {
        keys_are_distinct(self.entries_seq())
    }

    /// An empty map.
    pub fn new() -> (map: VecMap<K, V>)
        ensures
            map.wf(),
            map.entries_seq() == Seq::<(K, V)>::empty(),
            map@ == Map::<K::V, V>::empty(),
    {
        let map = VecMap { entries: Vec::new() };
        assert(map@ =~= Map::<K::V, V>::empty());
        map
    }

    /// How many entries there are.
    pub fn len(&self) -> (len: usize)
        ensures
            len == self.entries_seq().len(),
    {
        self.entries.len()
    }

    /// The entry at position `i`.
    pub fn entry(&self, i: usize) -> (entry: &(K, V))
        requires
            i < self.entries_seq().len(),
        ensures
            *entry == self.entries_seq()[i as int],
    {
        &self.entries[i]
    }

    /// Where `key` stands, or the number of entries.
    fn find(&self, key: &K) -> (index: usize)
        ensures
            index <= self.entries_seq().len(),
            index < self.entries_seq().len() ==> self.entries_seq()[index as int].0@ == key@,
            index == self.entries_seq().len() ==> !has_key(self.entries_seq(), key@),
    {
        let mut i: usize = 0;
        while i < self.entries.len()
            invariant
                i <= self.entries@.len(),
                forall|j: int| 0 <= j < i ==> #[trigger] self.entries@[j].0@ != key@,
            decreases self.entries@.len() - i,
        {
            if self.entries[i].0.same(key) {
                return i;
            }
            i += 1;
        }
        i
    }

    /// Whether there is an entry for `key`.
    pub fn contains_key(&self, key: &K) -> (contains: bool)
        requires
            self.wf(),
        ensures
            contains == self@.dom().contains(key@),
    {
        let index = self.find(key);
        let contains = index < self.entries.len();
        proof {
            if contains {
                lemma_entry_is_in_map(self.entries_seq(), index as int);
            }
        }
        contains
    }

    /// The value at `key`, if there is one.
    pub fn get(&self, key: &K) -> (value: Option<&V>)
        requires
            self.wf(),
        ensures
            match value {
                Some(value) => self@.dom().contains(key@) && *value == self@[key@],
                None => !self@.dom().contains(key@),
            },
    {
        let index = self.find(key);
        if index < self.entries.len() {
            proof {
                lemma_entry_is_in_map(self.entries_seq(), index as int);
            }
            Some(&self.entries[index].1)
        } else {
            None
        }
    }

    /// Sets the value at `key`. A key that is there already keeps its place.
    pub fn insert(&mut self, key: K, value: V)
        requires
            old(self).wf(),
        ensures
            final(self).wf(),
            final(self)@ == old(self)@.insert(key@, value),
            final(self).entries_seq() == upsert(old(self).entries_seq(), key, value),
    {
        let ghost before = self.entries@;
        let ghost key_view = key@;
        let index = self.find(&key);
        if index < self.entries.len() {
            self.entries[index] = (key, value);
        } else {
            self.entries.push((key, value));
        }
        proof {
            let after = self.entries@;
            assert(after[index as int].0@ == key_view);
            assert forall|i: int, j: int| 0 <= i < j < after.len() implies #[trigger] after[i].0@
                != #[trigger] after[j].0@ by {
                if i != index {
                    assert(after[i] == before[i]);
                }
                if j != index {
                    assert(after[j] == before[j]);
                }
                if i == index && index < before.len() {
                    assert(before[i].0@ == key_view);
                }
                if j == index && index < before.len() {
                    assert(before[j].0@ == key_view);
                }
            }
            assert forall|k: K::V| has_key(after, k) <==> has_key(before, k) || k
                == key_view by {
                if has_key(after, k) {
                    let i = position(after, k);
                    assert(0 <= i < after.len() && after[i].0@ == k);
                    if i != index {
                        assert(before[i].0@ == k);
                    }
                }
                if has_key(before, k) {
                    let i = position(before, k);
                    assert(0 <= i < before.len() && before[i].0@ == k);
                    assert(after[i].0@ == k);
                }
            }
            assert forall|k: K::V| has_key(after, k) implies map_of(after)[k] == map_of(
                before,
            ).insert(key_view, value)[k] by {
                let i = position(after, k);
                assert(0 <= i < after.len() && after[i].0@ == k);
                lemma_entry_is_in_map(after, i);
                if i == index {
                } else {
                    assert(after[i] == before[i]);
                    lemma_entry_is_in_map(before, i);
                    if k == key_view {
                        if i < index {
                            assert(after[i].0@ != after[index as int].0@);
                        } else {
                            assert(after[index as int].0@ != after[i].0@);
                        }
                    }
                }
            }
            if index < before.len() {
                lemma_position(before, index as int);
            }
            assert(map_of(after) =~= map_of(before).insert(key_view, value));
        }
    }

    /// Puts a new entry in front of the one at position `index`.
    pub fn insert_at(&mut self, index: usize, key: K, value: V)
        requires
            old(self).wf(),
            index <= old(self).entries_seq().len(),
            !old(self)@.dom().contains(key@),
        ensures
            final(self).wf(),
            final(self)@ == old(self)@.insert(key@, value),
            final(self).entries_seq() == old(self).entries_seq().insert(index as int, (key, value)),
    {
        let ghost before = self.entries@;
        let ghost key_view = key@;
        self.entries.insert(index, (key, value));
        proof {
            let after = self.entries@;
            assert(!has_key(before, key_view));
            assert(after[index as int].0@ == key_view);
            assert forall|i: int| 0 <= i < before.len() implies #[trigger] before[i] == after[if i
                < index {
                i
            } else {
                i + 1
            }] by {}
            assert forall|i: int, j: int| 0 <= i < j < after.len() implies #[trigger] after[i].0@
                != #[trigger] after[j].0@ by {
                let bi = if i < index {
                    i
                } else {
                    i - 1
                };
                let bj = if j < index {
                    j
                } else {
                    j - 1
                };
                if i == index {
                    assert(before[bj].0@ != key_view);
                } else if j == index {
                    assert(before[bi].0@ != key_view);
                } else {
                    assert(before[bi].0@ != before[bj].0@);
                }
            }
            assert forall|k: K::V| has_key(after, k) <==> has_key(before, k) || k
                == key_view by {
                if has_key(after, k) {
                    let i = position(after, k);
                    assert(0 <= i < after.len() && after[i].0@ == k);
                    if i < index {
                        assert(before[i].0@ == k);
                    } else if i > index {
                        assert(before[i - 1].0@ == k);
                    }
                }
                if has_key(before, k) {
                    let i = position(before, k);
                    assert(0 <= i < before.len() && before[i].0@ == k);
                    if i < index {
                        assert(after[i].0@ == k);
                    } else {
                        assert(after[i + 1].0@ == k);
                    }
                }
            }
            assert forall|k: K::V| has_key(after, k) implies map_of(after)[k] == map_of(
                before,
            ).insert(key_view, value)[k] by {
                let i = position(after, k);
                assert(0 <= i < after.len() && after[i].0@ == k);
                lemma_entry_is_in_map(after, i);
                if i < index {
                    lemma_entry_is_in_map(before, i);
                } else if i > index {
                    lemma_entry_is_in_map(before, i - 1);
                }
            }
            assert(map_of(after) =~= map_of(before).insert(key_view, value));
        }
    }

    /// Removes the entry for `key`, if there is one.
    pub fn remove(&mut self, key: &K) -> (value: Option<V>)
        requires
            old(self).wf(),
        ensures
            final(self).wf(),
            final(self)@ == old(self)@.remove(key@),
            match value {
                Some(value) => old(self)@.dom().contains(key@) && value == old(self)@[key@],
                None => !old(self)@.dom().contains(key@),
            },
            final(self).entries_seq() == without(old(self).entries_seq(), key@),
    {
        let ghost before = self.entries@;
        let index = self.find(key);
        if index == self.entries.len() {
            assert(self@ =~= old(self)@.remove(key@));
            return None;
        }
        let (_, value) = self.entries.remove(index);
        proof {
            let after = self.entries@;
            assert forall|i: int, j: int| 0 <= i < j < after.len() implies #[trigger] after[i].0@
                != #[trigger] after[j].0@ by {
                let bi = if i < index {
                    i
                } else {
                    i + 1
                };
                let bj = if j < index {
                    j
                } else {
                    j + 1
                };
                assert(after[i] == before[bi]);
                assert(after[j] == before[bj]);
                assert(before[bi].0@ != before[bj].0@);
            }
            assert forall|k: K::V| has_key(after, k) <==> has_key(before, k) && k != key@ by {
                if has_key(after, k) {
                    let i = position(after, k);
                    assert(0 <= i < after.len() && after[i].0@ == k);
                    let bi = if i < index {
                        i
                    } else {
                        i + 1
                    };
                    assert(after[i] == before[bi]);
                    if bi < index {
                        assert(before[bi].0@ != before[index as int].0@);
                    } else {
                        assert(before[index as int].0@ != before[bi].0@);
                    }
                }
                if has_key(before, k) && k != key@ {
                    let i = position(before, k);
                    assert(0 <= i < before.len() && before[i].0@ == k);
                    let ai = if i < index {
                        i
                    } else {
                        i - 1
                    };
                    assert(after[ai] == before[i]);
                    assert(after[ai].0@ == k);
                }
            }
            assert forall|k: K::V| has_key(after, k) implies map_of(after)[k] == map_of(
                before,
            )[k] by {
                let i = position(after, k);
                assert(0 <= i < after.len() && after[i].0@ == k);
                let bi = if i < index {
                    i
                } else {
                    i + 1
                };
                assert(after[i] == before[bi]);
                lemma_entry_is_in_map(after, i);
                lemma_entry_is_in_map(before, bi);
            }
            lemma_position(before, index as int);
            assert(map_of(after) =~= map_of(before).remove(key@));
        }
        Some(value)
    }
}

impl<K: Key + Copy, V: Copy> Clone for VecMap<K, V> {
    fn clone(&self) -> (copy: VecMap<K, V>)
        ensures
            copy.entries_seq() == self.entries_seq(),
            copy@ == self@,
    {
        let mut entries: Vec<(K, V)> = Vec::new();
        let mut i: usize = 0;
        while i < self.entries.len()
            invariant
                i <= self.entries@.len(),
                entries@ == self.entries@.take(i as int),
            decreases self.entries@.len() - i,
        {
            entries.push(self.entries[i]);
            i += 1;
            assert(entries@ =~= self.entries@.take(i as int));
        }
        assert(entries@ =~= self.entries@);
        VecMap { entries }
    }
}

} // verus!
