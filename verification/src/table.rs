//! A small key-value table with unique keys, the store behind each mapping
//! of the ledger.

use vstd::prelude::*;

verus! {

/// A key whose equality can be decided at run time.
pub trait Key: Copy + Sized {
    /// Whether the two keys are the same value.
    fn same(&self, other: &Self) -> (b: bool)
        ensures
            b == (*self == *other),
    ;
}

/// The keys of a sequence of entries, in order.
pub open spec fn keys_of<K, T>(entries: Seq<(K, T)>) -> Seq<K> {
    entries.map_values(|e: (K, T)| e.0)
}

/// The map that a sequence of entries with unique keys stands for.
pub open spec fn map_of<K, T>(entries: Seq<(K, T)>) -> Map<K, T> {
    Map::new(
        |k: K| keys_of(entries).contains(k),
        |k: K| entries[keys_of(entries).index_of(k)].1,
    )
}

/// In a sequence with unique keys, the entry at `i` is what the map holds
/// under that entry's key.
proof fn lemma_entry_in_map<K, T>(entries: Seq<(K, T)>, i: int)
    requires
        keys_of(entries).no_duplicates(),
        0 <= i < entries.len(),
    ensures
        map_of(entries).dom().contains(entries[i].0),
        map_of(entries)[entries[i].0] == entries[i].1,
{
    let keys = keys_of(entries);
    assert(keys[i] == entries[i].0);
    assert(keys.contains(entries[i].0));
    let j = keys.index_of(entries[i].0);
    assert(keys[j] == keys[i]);
}

/// A key of the map occurs at some position of the sequence.
proof fn lemma_key_has_entry<K, T>(entries: Seq<(K, T)>, k: K) -> (i: int)
    requires
        map_of(entries).dom().contains(k),
    ensures
        0 <= i < entries.len(),
        entries[i].0 == k,
{
    let keys = keys_of(entries);
    let i = keys.index_of(k);
    assert(keys[i] == k);
    i
}

fn find<K: Key, T: Copy>(entries: &Vec<(K, T)>, key: &K) -> (found: Option<usize>)
    ensures
        match found {
            Some(i) => i < entries@.len() && entries@[i as int].0 == *key,
            None => !map_of(entries@).dom().contains(*key),
        },
{
    let mut i: usize = 0;
    while i < entries.len()
        invariant
            i <= entries@.len(),
            forall|j: int| 0 <= j < i ==> entries@[j].0 != *key,
        decreases entries@.len() - i,
    {
        if entries[i].0.same(key) {
            return Some(i);
        }
        i += 1;
    }
    proof {
        if map_of(entries@).dom().contains(*key) {
            let j = lemma_key_has_entry(entries@, *key);
        }
    }
    None
}

/// A finite map from keys to values, held as a vector of entries in which
/// no key occurs twice.
pub struct Table<K: Key, T: Copy> {
    entries: Vec<(K, T)>,
}

impl<K: Key, T: Copy> View for Table<K, T> {
    type V = Map<K, T>;

    /// The map that the table holds.
    closed spec fn view(&self) -> Map<K, T> {
        map_of(self.entries@)
    }
}

impl<K: Key, T: Copy> Table<K, T> {
    #[verifier::type_invariant]
    spec fn well_formed(self) -> bool {
        keys_of(self.entries@).no_duplicates()
    }

    /// The empty table.
    pub fn new() -> (table: Self)
        ensures
            table@ == Map::<K, T>::empty(),
    {
        let table = Table { entries: Vec::new() };
        assert(table@ =~= Map::<K, T>::empty());
        table
    }

    /// A table holds finitely many keys, and no more than `usize` counts.
    pub proof fn lemma_bounded(&self)
        ensures
            self@.dom().finite(),
            self@.dom().len() <= usize::MAX,
    {
        let keys = keys_of(self.entries@);
        assert(self@.dom() =~= keys.to_set());
        vstd::seq_lib::seq_to_set_is_finite(keys);
        keys.lemma_cardinality_of_set();
        assert(self.entries@.len() == self.entries.len());
    }

    /// The number of keys.
    pub fn len(&self) -> (n: usize)
        ensures
            self@.dom().finite(),
            n == self@.dom().len(),
    {
        proof {
            use_type_invariant(self);
            let keys = keys_of(self.entries@);
            assert(self@.dom() =~= keys.to_set());
            vstd::seq_lib::seq_to_set_is_finite(keys);
            keys.unique_seq_to_set();
        }
        self.entries.len()
    }

    /// The value stored under `key`, if any.
    pub fn get(&self, key: &K) -> (value: Option<T>)
        ensures
            value == (if self@.dom().contains(*key) {
                Some(self@[*key])
            } else {
                None
            }),
    {
        proof {
            use_type_invariant(self);
        }
        match find(&self.entries, key) {
            Some(i) => {
                proof {
                    lemma_entry_in_map(self.entries@, i as int);
                }
                Some(self.entries[i].1)
            },
            None => None,
        }
    }

    /// Stores `value` under `key`, replacing what was there.
    pub fn set(&mut self, key: K, value: T)
        ensures
            final(self)@ == old(self)@.insert(key, value),
    {
        proof {
            use_type_invariant(&*self);
        }
        let mut entries: Vec<(K, T)> = Vec::new();
        core::mem::swap(&mut self.entries, &mut entries);
        let ghost before = entries@;
        let ghost pos: int;
        match find(&entries, &key) {
            Some(i) => {
                entries.set(i, (key, value));
                proof {
                    pos = i as int;
                }
            },
            None => {
                entries.push((key, value));
                proof {
                    pos = before.len() as int;
                }
            },
        }
        proof {
            let after = entries@;
            assert(after[pos] == (key, value));
            assert forall|j: int| 0 <= j < after.len() && j != pos implies j < before.len()
                && #[trigger] after[j] == before[j] by {}
            assert forall|j: int| 0 <= j < before.len() && j != pos implies before[j].0 != key by {
                assert(keys_of(before)[j] == before[j].0);
                if pos < before.len() {
                    assert(keys_of(before)[pos] == key);
                } else {
                    assert(keys_of(before).contains(before[j].0));
                }
            }
            assert forall|a: int, b: int|
                0 <= a < after.len() && 0 <= b < after.len() && a != b implies keys_of(after)[a]
                != keys_of(after)[b] by {
                if a != pos && b != pos {
                    assert(keys_of(before)[a] == after[a].0);
                    assert(keys_of(before)[b] == after[b].0);
                }
            }
            assert forall|k: K| #[trigger]
                map_of(after).dom().contains(k) == map_of(before).insert(
                    key,
                    value,
                ).dom().contains(k) by {
                if map_of(after).dom().contains(k) && k != key {
                    let j = lemma_key_has_entry(after, k);
                    assert(keys_of(before)[j] == k);
                }
                if map_of(before).dom().contains(k) && k != key {
                    let j = lemma_key_has_entry(before, k);
                    assert(keys_of(after)[j] == k);
                }
                assert(keys_of(after)[pos] == key);
            }
            assert forall|k: K| map_of(after).dom().contains(k) implies #[trigger] map_of(
                after,
            )[k] == map_of(before).insert(key, value)[k] by {
                let j = lemma_key_has_entry(after, k);
                lemma_entry_in_map(after, j);
                if k != key {
                    lemma_entry_in_map(before, j);
                }
            }
            assert(map_of(after) =~= map_of(before).insert(key, value));
        }
        self.entries = entries;
    }

    /// Removes `key` and its value, if present.
    pub fn remove(&mut self, key: &K)
        ensures
            final(self)@ == old(self)@.remove(*key),
    {
        proof {
            use_type_invariant(&*self);
        }
        let mut entries: Vec<(K, T)> = Vec::new();
        core::mem::swap(&mut self.entries, &mut entries);
        let ghost before = entries@;
        match find(&entries, key) {
            Some(i) => {
                entries.swap_remove(i);
                proof {
                    let after = entries@;
                    let last = before.len() - 1;
                    assert forall|a: int| 0 <= a < after.len() implies #[trigger] after[a]
                        == before[if a == i as int { last } else { a }] by {}
                    assert forall|a: int, b: int|
                        0 <= a < after.len() && 0 <= b < after.len() && a != b implies keys_of(
                        after,
                    )[a] != keys_of(after)[b] by {
                        let a0 = if a == i as int { last } else { a };
                        let b0 = if b == i as int { last } else { b };
                        assert(keys_of(before)[a0] == after[a].0);
                        assert(keys_of(before)[b0] == after[b].0);
                    }
                    assert forall|k: K| #[trigger]
                        map_of(after).dom().contains(k) == map_of(before).remove(
                            *key,
                        ).dom().contains(k) by {
                        if map_of(after).dom().contains(k) {
                            let j = lemma_key_has_entry(after, k);
                            let j0 = if j == i as int { last } else { j };
                            assert(keys_of(before)[j0] == k);
                            assert(keys_of(before)[i as int] == *key);
                        }
                        if map_of(before).dom().contains(k) && k != *key {
                            let j0 = lemma_key_has_entry(before, k);
                            let j = if j0 == last { i as int } else { j0 };
                            assert(keys_of(after)[j] == k);
                        }
                    }
                    assert forall|k: K| map_of(after).dom().contains(k) implies #[trigger] map_of(
                        after,
                    )[k] == map_of(before).remove(*key)[k] by {
                        let j = lemma_key_has_entry(after, k);
                        lemma_entry_in_map(after, j);
                        let j0 = if j == i as int { last } else { j };
                        lemma_entry_in_map(before, j0);
                    }
                    assert(map_of(after) =~= map_of(before).remove(*key));
                }
            },
            None => {
                assert(map_of(before) =~= map_of(before).remove(*key));
            },
        }
        self.entries = entries;
    }
}

} // verus!
