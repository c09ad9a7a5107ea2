//! A map kept as a list of entries, with distinct keys.

use vstd::prelude::*;
use vstd::string::*;

verus! {

/// A key that can be compared by its view.
pub trait MapKey: View + Sized {
    /// Whether two keys are the same.
    fn same_key(&self, other: &Self) -> (same: bool)
        ensures
            same == (self@ == other@),
    ;
}

impl MapKey for String {
    fn same_key(&self, other: &Self) -> (same: bool) {
        *self == *other
    }
}

/// A map kept as a list of entries. No two entries have the same key.
#[derive(Debug)]
pub struct AssocMap<K: MapKey, V> {
    entries: Vec<(K, V)>,
}

/// Whether no two entries have the same key.
spec fn distinct_keys<K: MapKey, V>(entries: Seq<(K, V)>) -> bool {
    forall|i: int, j: int|
        0 <= i < entries.len() && 0 <= j < entries.len() && i != j ==> (#[trigger] entries[i]).0@
            != (#[trigger] entries[j]).0@
}

/// Whether the entry at `i` has the key `key`.
spec fn entry_has_key<K: MapKey, V>(entries: Seq<(K, V)>, i: int, key: K::V) -> bool {
    0 <= i < entries.len() && entries[i].0@ == key
}

/// The map that a list of entries with distinct keys stands for.
spec fn entry_map<K: MapKey, V>(entries: Seq<(K, V)>) -> Map<K::V, V> {
    Map::new(
        |key: K::V| exists|i: int| entry_has_key(entries, i, key),
        |key: K::V| entries[choose|i: int| entry_has_key(entries, i, key)].1,
    )
}

proof fn lemma_entry_in_map<K: MapKey, V>(entries: Seq<(K, V)>, i: int)
    requires
        distinct_keys(entries),
        0 <= i < entries.len(),
    ensures
        entry_map(entries).contains_key(entries[i].0@),
        entry_map(entries)[entries[i].0@] == entries[i].1,
{
    let key = entries[i].0@;
    assert(entry_has_key(entries, i, key));
    let j = choose|j: int| entry_has_key(entries, j, key);
    assert(entry_has_key(entries, j, key));
    assert(i == j);
}

proof fn lemma_key_of_map<K: MapKey, V>(entries: Seq<(K, V)>, key: K::V) -> (i: int)
    requires
        entry_map(entries).contains_key(key),
    ensures
        0 <= i < entries.len(),
        entries[i].0@ == key,
{
    choose|i: int| entry_has_key(entries, i, key)
}

proof fn lemma_push<K: MapKey, V>(entries: Seq<(K, V)>, key: K, value: V)
    requires
        distinct_keys(entries),
        !entry_map(entries).contains_key(key@),
    ensures
        distinct_keys(entries.push((key, value))),
        entry_map(entries.push((key, value))) == entry_map(entries).insert(key@, value),
{
    let after = entries.push((key, value));
    assert forall|i: int| 0 <= i < entries.len() implies (#[trigger] entries[i]).0@ != key@ by {
        lemma_entry_in_map(entries, i);
    }
    assert(distinct_keys(after));
    lemma_entry_in_map(after, entries.len() as int);
    assert forall|k: K::V| #[trigger]
        entry_map(after).contains_key(k) == entry_map(entries).insert(key@, value).contains_key(
            k,
        ) by {
        if entry_map(after).contains_key(k) {
            let i = lemma_key_of_map(after, k);
            if i < entries.len() {
                lemma_entry_in_map(entries, i);
            }
        }
        if entry_map(entries).contains_key(k) {
            let i = lemma_key_of_map(entries, k);
            assert(after[i] == entries[i]);
            lemma_entry_in_map(after, i);
        }
    }
    assert forall|k: K::V| #[trigger] entry_map(after).contains_key(k) implies entry_map(after)[k]
        == entry_map(entries).insert(key@, value)[k] by {
        let i = lemma_key_of_map(after, k);
        lemma_entry_in_map(after, i);
        if i < entries.len() {
            lemma_entry_in_map(entries, i);
        }
    }
    assert(entry_map(after) =~= entry_map(entries).insert(key@, value));
}

proof fn lemma_remove<K: MapKey, V>(entries: Seq<(K, V)>, at: int)
    requires
        distinct_keys(entries),
        0 <= at < entries.len(),
    ensures
        distinct_keys(entries.remove(at)),
        entry_map(entries.remove(at)) == entry_map(entries).remove(entries[at].0@),
{
    let after = entries.remove(at);
    let key = entries[at].0@;
    assert forall|i: int| 0 <= i < after.len() implies #[trigger] after[i] == entries[if i < at {
        i
    } else {
        i + 1
    }] by {}
    assert(distinct_keys(after));
    assert forall|k: K::V| #[trigger]
        entry_map(after).contains_key(k) == entry_map(entries).remove(key).contains_key(k) by {
        if entry_map(after).contains_key(k) {
            let i = lemma_key_of_map(after, k);
            let j = if i < at {
                i
            } else {
                i + 1
            };
            assert(after[i] == entries[j]);
            lemma_entry_in_map(entries, j);
        }
        if entry_map(entries).contains_key(k) && k != key {
            let i = lemma_key_of_map(entries, k);
            let j = if i < at {
                i
            } else {
                i - 1
            };
            assert(after[j] == entries[i]);
            lemma_entry_in_map(after, j);
        }
    }
    assert forall|k: K::V| #[trigger] entry_map(after).contains_key(k) implies entry_map(after)[k]
        == entry_map(entries).remove(key)[k] by {
        let i = lemma_key_of_map(after, k);
        let j = if i < at {
            i
        } else {
            i + 1
        };
        assert(after[i] == entries[j]);
        lemma_entry_in_map(after, i);
        lemma_entry_in_map(entries, j);
    }
    assert(entry_map(after) =~= entry_map(entries).remove(key));
}

impl<K: MapKey, V> View for AssocMap<K, V> {
    type V = Map<K::V, V>;

    closed spec fn view(&self) -> Map<K::V, V> {
        entry_map(self.entries@)
    }
}

impl<K: MapKey, V> AssocMap<K, V> {
    #[verifier::type_invariant]
    closed spec fn has_distinct_keys(self) -> bool {
        distinct_keys(self.entries@)
    }

    /// The number of entries.
    pub closed spec fn size(&self) -> nat {
        self.entries@.len()
    }

    /// The key of the entry at `i`.
    pub closed spec fn key_at(&self, i: int) -> K::V {
        self.entries@[i].0@
    }

    /// The empty map.
    pub fn new() -> (map: Self)
        ensures
            map@ == Map::<K::V, V>::empty(),
    {
        let map = AssocMap { entries: Vec::new() };
        assert(map@ =~= Map::<K::V, V>::empty());
        map
    }

    fn position(&self, key: &K) -> (found: Option<usize>)
        ensures
            match found {
                Some(i) => i < self.entries@.len() && self.entries@[i as int].0@ == key@
                    && self@.contains_key(key@) && self@[key@] == self.entries@[i as int].1,
                None => !self@.contains_key(key@),
            },
    {
        proof {
            use_type_invariant(self);
        }
        let mut i: usize = 0;
        while i < self.entries.len()
            invariant
                i <= self.entries@.len(),
                distinct_keys(self.entries@),
                forall|j: int| 0 <= j < i ==> (#[trigger] self.entries@[j]).0@ != key@,
            decreases self.entries@.len() - i,
        {
            if self.entries[i].0.same_key(key) {
                proof {
                    lemma_entry_in_map(self.entries@, i as int);
                }
                return Some(i);
            }
            i = i + 1;
        }
        proof {
            if self@.contains_key(key@) {
                let j = lemma_key_of_map(self.entries@, key@);
            }
        }
        None
    }

    /// The value stored under `key`.
    pub fn get(&self, key: &K) -> (value: Option<&V>)
        ensures
            match value {
                Some(v) => self@.contains_key(key@) && *v == self@[key@],
                None => !self@.contains_key(key@),
            },
    {
        match self.position(key) {
            Some(i) => Some(&self.entries[i].1),
            None => None,
        }
    }

    /// Takes `key` out, and returns what was stored under it.
    pub fn remove(&mut self, key: &K) -> (taken: Option<V>)
        ensures
            final(self)@ == old(self)@.remove(key@),
            match taken {
                Some(v) => old(self)@.contains_key(key@) && v == old(self)@[key@],
                None => !old(self)@.contains_key(key@),
            },
    {
        proof {
            use_type_invariant(&*self);
        }
        match self.position(key) {
            Some(i) => {
                let ghost before = self.entries@;
                proof {
                    lemma_remove(before, i as int);
                }
                let mut entries: Vec<(K, V)> = Vec::new();
                std::mem::swap(&mut entries, &mut self.entries);
                let taken = entries.remove(i);
                self.entries = entries;
                Some(taken.1)
            },
            None => {
                assert(self@ =~= self@.remove(key@));
                None
            },
        }
    }

    /// Stores `value` under `key`, in place of what was stored there.
    pub fn insert(&mut self, key: K, value: V)
        ensures
            final(self)@ == old(self)@.insert(key@, value),
    {
        let ghost start = self@;
        let _ = self.remove(&key);
        proof {
            use_type_invariant(&*self);
            lemma_push(self.entries@, key, value);
        }
        let mut entries: Vec<(K, V)> = Vec::new();
        std::mem::swap(&mut entries, &mut self.entries);
        entries.push((key, value));
        self.entries = entries;
        assert(self@ =~= start.insert(key@, value));
    }

    /// The number of entries. Each key of the map is the key of exactly one of them.
    pub fn len(&self) -> (n: usize)
        ensures
            n == self.size(),
            forall|i: int, j: int|
                0 <= i < n && 0 <= j < n && i != j ==> #[trigger] self.key_at(i)
                    != #[trigger] self.key_at(j),
            forall|i: int| 0 <= i < n ==> self@.contains_key(#[trigger] self.key_at(i)),
            forall|key: K::V| #[trigger]
                self@.contains_key(key) ==> exists|i: int|
                    0 <= i < n && #[trigger] self.key_at(i) == key,
    {
        proof {
            use_type_invariant(self);
            assert forall|i: int| 0 <= i < self.size() implies self@.contains_key(
                #[trigger] self.key_at(i),
            ) by {
                lemma_entry_in_map(self.entries@, i);
            }
            assert forall|key: K::V| #[trigger] self@.contains_key(key) implies exists|i: int|
                0 <= i < self.size() && #[trigger] self.key_at(i) == key by {
                let i = lemma_key_of_map(self.entries@, key);
                assert(self.key_at(i) == key);
            }
        }
        self.entries.len()
    }

    /// The entry at `i`.
    pub fn entry(&self, i: usize) -> (entry: (&K, &V))
        requires
            i < self.size(),
        ensures
            entry.0@ == self.key_at(i as int),
            self@.contains_key(entry.0@),
            self@[entry.0@] == *entry.1,
    {
        proof {
            use_type_invariant(self);
            lemma_entry_in_map(self.entries@, i as int);
        }
        (&self.entries[i].0, &self.entries[i].1)
    }

    /// The entries: each key of the map once, with what is stored under it.
    pub fn into_entries(self) -> (entries: Vec<(K, V)>)
        ensures
            entries@.len() == self.size(),
            forall|i: int|
                0 <= i < entries@.len() ==> {
                    &&& (#[trigger] entries@[i]).0@ == self.key_at(i)
                    &&& self@.contains_key(entries@[i].0@)
                    &&& self@[entries@[i].0@] == entries@[i].1
                },
            forall|i: int, j: int|
                0 <= i < entries@.len() && 0 <= j < entries@.len() && i != j
                    ==> (#[trigger] entries@[i]).0@ != (#[trigger] entries@[j]).0@,
            forall|key: K::V| #[trigger]
                self@.contains_key(key) ==> exists|i: int|
                    0 <= i < entries@.len() && (#[trigger] entries@[i]).0@ == key,
    {
        proof {
            use_type_invariant(&self);
            assert forall|i: int| 0 <= i < self.entries@.len() implies {
                &&& self@.contains_key((#[trigger] self.entries@[i]).0@)
                &&& self@[self.entries@[i].0@] == self.entries@[i].1
            } by {
                lemma_entry_in_map(self.entries@, i);
            }
            assert forall|key: K::V| #[trigger] self@.contains_key(key) implies exists|i: int|
                0 <= i < self.entries@.len() && (#[trigger] self.entries@[i]).0@ == key by {
                let i = lemma_key_of_map(self.entries@, key);
                assert(self.entries@[i].0@ == key);
            }
        }
        self.entries
    }
}

} // verus!
