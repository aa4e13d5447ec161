//! A finite map kept as a vector of key/value entries with distinct keys.
//! It stands for the contracts' persistent storage.

use vstd::prelude::*;
use crate::host::KeyEq;

verus! {

/// Entries with distinct keys; the map it stands for is its view.
pub struct Store<K, V> {
    entries: Vec<(K, V)>,
}

/// Whether the keys of `entries` are pairwise distinct.
pub open spec fn distinct_keys<K, V>(entries: Seq<(K, V)>) -> bool {
    forall|i: int, j: int|
        0 <= i < entries.len() && 0 <= j < entries.len() && i != j ==> #[trigger] entries[i].0
            != #[trigger] entries[j].0
}

/// Whether some entry has key `k`.
pub open spec fn has_key<K, V>(entries: Seq<(K, V)>, k: K) -> bool {
    exists|i: int| 0 <= i < entries.len() && #[trigger] entries[i].0 == k
}

/// The position of the entry with key `k`.
pub open spec fn position_of<K, V>(entries: Seq<(K, V)>, k: K) -> int {
    choose|i: int| 0 <= i < entries.len() && #[trigger] entries[i].0 == k
}

/// The map that a sequence of entries with distinct keys stands for.
pub open spec fn map_of<K, V>(entries: Seq<(K, V)>) -> Map<K, V> {
    Map::new(|k: K| has_key(entries, k), |k: K| entries[position_of(entries, k)].1)
}

/// In a sequence with distinct keys, the entry at `i` is the one found for its key.
pub proof fn lemma_position_unique<K, V>(entries: Seq<(K, V)>, i: int)
    requires
        distinct_keys(entries),
        0 <= i < entries.len(),
    ensures
        has_key(entries, entries[i].0),
        position_of(entries, entries[i].0) == i,
        map_of(entries).contains_key(entries[i].0),
        map_of(entries)[entries[i].0] == entries[i].1,
{
    let k = entries[i].0;
    assert(has_key(entries, k));
    let p = position_of(entries, k);
    assert(0 <= p < entries.len() && entries[p].0 == k);
}

impl<K, V> View for Store<K, V> {
    type V = Map<K, V>;

    closed spec fn view(&self) -> Map<K, V> {
        map_of(self.entries@)
    }
}

impl<K: KeyEq, V> Store<K, V> {
    /// The store's well-formedness: no key occurs twice.
    pub closed spec fn wf(&self) -> bool {
        distinct_keys(self.entries@)
    }

    /// An empty store.
    pub fn new() -> (r: Self)
        ensures
            r.wf(),
            r@ == Map::<K, V>::empty(),
    {
        let r = Store { entries: Vec::new() };
        assert(map_of(r.entries@) =~= Map::<K, V>::empty());
        r
    }

    /// The position of the entry with key `k`, if there is one.
    fn find(&self, k: &K) -> (r: Option<usize>)
        requires
            self.wf(),
        ensures
            match r {
                Some(i) => i < self.entries@.len() && self.entries@[i as int].0 == *k,
                None => !has_key(self.entries@, *k),
            },
    {
        let mut i: usize = 0;
        while i < self.entries.len()
            invariant
                0 <= i <= self.entries@.len(),
                forall|j: int| 0 <= j < i ==> self.entries@[j].0 != *k,
            decreases self.entries@.len() - i,
        {
            if self.entries[i].0.key_eq(k) {
                return Some(i);
            }
            i = i + 1;
        }
        None
    }

    /// Whether the store holds a value for `k`.
    pub fn contains_key(&self, k: &K) -> (r: bool)
        requires
            self.wf(),
        ensures
            r == self@.contains_key(*k),
    {
        match self.find(k) {
            Some(i) => {
                proof {
                    lemma_position_unique(self.entries@, i as int);
                }
                true
            },
            None => false,
        }
    }

    /// The value stored for `k`, if any.
    pub fn get(&self, k: &K) -> (r: Option<&V>)
        requires
            self.wf(),
        ensures
            match r {
                Some(v) => self@.contains_key(*k) && *v == self@[*k],
                None => !self@.contains_key(*k),
            },
    {
        match self.find(k) {
            Some(i) => {
                proof {
                    lemma_position_unique(self.entries@, i as int);
                }
                Some(&self.entries[i].1)
            },
            None => None,
        }
    }

    /// Stores `v` for `k`, replacing any value stored for `k` before.
    pub fn insert(&mut self, k: K, v: V)
        requires
            old(self).wf(),
        ensures
            final(self).wf(),
            final(self)@ == old(self)@.insert(k, v),
    {
        let ghost old_entries = self.entries@;
        match self.find(&k) {
            Some(i) => {
                self.entries.set(i, (k, v));
                proof {
                    let new_entries = self.entries@;
                    assert(new_entries == old_entries.update(i as int, (k, v)));
                    assert(distinct_keys(new_entries));
                    assert forall|key: K| #[trigger] has_key(new_entries, key) == has_key(
                        old_entries,
                        key,
                    ) by {
                        if has_key(old_entries, key) {
                            let p = position_of(old_entries, key);
                            assert(new_entries[p].0 == key);
                        }
                        if has_key(new_entries, key) {
                            let p = position_of(new_entries, key);
                            assert(old_entries[p].0 == key);
                        }
                    }
                    assert(map_of(new_entries) =~= map_of(old_entries).insert(k, v)) by {
                        assert forall|key: K| #[trigger]
                            map_of(new_entries).contains_key(key) implies map_of(new_entries)[key]
                            == map_of(old_entries).insert(k, v)[key] by {
                            let p = position_of(new_entries, key);
                            lemma_position_unique(new_entries, p);
                            if key != k {
                                lemma_position_unique(old_entries, p);
                            }
                        }
                    }
                }
            },
            None => {
                self.entries.push((k, v));
                proof {
                    let new_entries = self.entries@;
                    assert(new_entries == old_entries.push((k, v)));
                    assert(distinct_keys(new_entries)) by {
                        assert forall|a: int, b: int|
                            0 <= a < new_entries.len() && 0 <= b < new_entries.len() && a
                                != b implies #[trigger] new_entries[a].0 != #[trigger] new_entries[b].0 by {
                            if a == old_entries.len() as int {
                                assert(old_entries[b].0 == new_entries[b].0);
                            } else if b == old_entries.len() as int {
                                assert(old_entries[a].0 == new_entries[a].0);
                            }
                        }
                    }
                    assert(map_of(new_entries) =~= map_of(old_entries).insert(k, v)) by {
                        assert forall|key: K| #[trigger]
                            map_of(new_entries).contains_key(key) == map_of(old_entries).insert(
                                k,
                                v,
                            ).contains_key(key) by {
                            if has_key(old_entries, key) {
                                let p = position_of(old_entries, key);
                                assert(new_entries[p].0 == key);
                            }
                            if has_key(new_entries, key) && key != k {
                                let p = position_of(new_entries, key);
                                assert(p != old_entries.len() as int);
                                assert(old_entries[p].0 == key);
                            }
                            if key == k {
                                assert(new_entries[old_entries.len() as int].0 == k);
                            }
                        }
                        assert forall|key: K| #[trigger]
                            map_of(new_entries).contains_key(key) implies map_of(new_entries)[key]
                            == map_of(old_entries).insert(k, v)[key] by {
                            let p = position_of(new_entries, key);
                            lemma_position_unique(new_entries, p);
                            if key != k {
                                assert(p != old_entries.len() as int);
                                lemma_position_unique(old_entries, p);
                            } else {
                                lemma_position_unique(new_entries, old_entries.len() as int);
                            }
                        }
                    }
                }
            },
        }
    }
}

} // verus!

verus! {

/// Copies a vector of `Copy` values.
pub fn copied<T: Copy>(v: &Vec<T>) -> (r: Vec<T>)
    ensures
        r@ == v@,
{
    let mut r: Vec<T> = Vec::new();
    let mut i: usize = 0;
    while i < v.len()
        invariant
            0 <= i <= v@.len(),
            r@ == v@.subrange(0, i as int),
        decreases v@.len() - i,
    {
        r.push(v[i]);
        i = i + 1;
        assert(r@ =~= v@.subrange(0, i as int));
    }
    assert(r@ =~= v@);
    r
}

} // verus!
