//! An insert-only map from string keys to values.
//!
//! Entries are only ever appended — never removed or replaced — so the index
//! a key gets on first insertion stays valid for the map's whole lifetime,
//! and repeated lookups of one key always land on the same entry. The
//! per-region and per-method limiter maps rely on exactly this.

use vstd::prelude::*;

use crate::text::str_eq;

verus! {

/// The first index whose entry carries `key`, or the number of entries.
pub open spec fn find_key<V>(entries: Seq<(String, V)>, key: Seq<char>) -> int
    decreases entries.len(),
{
    if entries.len() == 0 {
        0
    } else if entries[0].0@ == key {
        0
    } else {
        1 + find_key(entries.drop_first(), key)
    }
}

/// `find_key` points at the first entry with `key`, or past the end.
pub proof fn lemma_find_key<V>(entries: Seq<(String, V)>, key: Seq<char>)
    ensures
        0 <= find_key(entries, key) <= entries.len(),
        find_key(entries, key) < entries.len() ==> entries[find_key(entries, key)].0@ == key,
        forall|k: int| 0 <= k < find_key(entries, key) ==> (#[trigger] entries[k]).0@ != key,
    decreases entries.len(),
{
    if entries.len() > 0 && entries[0].0@ != key {
        lemma_find_key(entries.drop_first(), key);
        assert forall|k: int| 0 <= k < find_key(entries, key) implies (#[trigger] entries[k]).0@
            != key by {
            if k >= 1 {
                assert(entries.drop_first()[k - 1] == entries[k]);
                assert(entries.drop_first()[k - 1].0@ != key);
            }
        }
    }
}

/// An index whose entry carries `key`, with no earlier entry carrying it,
/// is where `find_key` points.
pub proof fn lemma_find_key_unique<V>(entries: Seq<(String, V)>, key: Seq<char>, i: int)
    requires
        0 <= i < entries.len(),
        entries[i].0@ == key,
        forall|k: int| 0 <= k < i ==> (#[trigger] entries[k]).0@ != key,
    ensures
        find_key(entries, key) == i,
{
    lemma_find_key(entries, key);
    let f = find_key(entries, key);
    if f < i {
        assert(entries[f].0@ != key);
    }
    if f > i {
        assert(entries[i].0@ != key);
    }
}

/// An insert-only map: a growing list of key–value entries with unique keys.
pub struct InsertOnlyMap<V> {
    /// The entries, oldest first; an entry, once added, never moves.
    pub entries: Vec<(String, V)>,
}

impl<V> InsertOnlyMap<V> {
    /// Keys are unique.
    pub open spec fn wf(self) -> bool {
        forall|i: int, j: int|
            0 <= i < j < self.entries@.len() ==> (#[trigger] self.entries@[i]).0@ != (
            #[trigger] self.entries@[j]).0@
    }

    /// Whether some entry carries `key`.
    pub open spec fn spec_contains(self, key: Seq<char>) -> bool {
        find_key(self.entries@, key) < self.entries@.len()
    }

    /// An empty map.
    pub fn new() -> (m: InsertOnlyMap<V>)
        ensures
            m.wf(),
            m.entries@ == Seq::<(String, V)>::empty(),
    {
        InsertOnlyMap { entries: Vec::new() }
    }

    /// How many entries the map holds.
    pub fn len(&self) -> (n: usize)
        ensures
            n == self.entries@.len(),
    {
        self.entries.len()
    }

    /// The index of `key`'s entry, if it has one. Deterministic: the same
    /// key always yields the same index.
    pub fn index_of(&self, key: &str) -> (r: Option<usize>)
        ensures
            (r is Some) == self.spec_contains(key@),
            r matches Some(i) ==> i == find_key(self.entries@, key@),
    {
        let n = self.entries.len();
        let mut i: usize = 0;
        while i < n
            invariant
                n == self.entries@.len(),
                0 <= i <= n,
                forall|k: int| 0 <= k < i ==> (#[trigger] self.entries@[k]).0@ != key@,
            decreases n - i,
        {
            if str_eq(self.entries[i].0.as_str(), key) {
                proof {
                    lemma_find_key_unique(self.entries@, key@, i as int);
                }
                return Some(i);
            }
            i = i + 1;
        }
        proof {
            lemma_find_key(self.entries@, key@);
        }
        None
    }

    /// Looks up `key`, inserting `value` under it first when it is absent,
    /// and returns the index of the entry. Existing entries are never
    /// touched: the map only grows, by at most this one entry, at the end.
    pub fn get_or_insert(&mut self, key: &str, value: V) -> (idx: usize)
        requires
            old(self).wf(),
        ensures
            final(self).wf(),
            // Monotonicity: every existing entry survives unchanged.
            final(self).entries@.subrange(0, old(self).entries@.len() as int)
                == old(self).entries@,
            // A present key resolves to its existing entry.
            old(self).spec_contains(key@) ==> final(self).entries@ == old(self).entries@ && idx
                == find_key(old(self).entries@, key@),
            // An absent key gets exactly one new entry at the end.
            !old(self).spec_contains(key@) ==> final(self).entries@.len()
                == old(self).entries@.len() + 1 && idx == old(self).entries@.len()
                && final(self).entries@[idx as int].0@ == key@
                && final(self).entries@[idx as int].1 == value,
            // Either way the entry at `idx` carries `key`, and a repeated
            // lookup lands on the same index.
            idx < final(self).entries@.len(),
            final(self).entries@[idx as int].0@ == key@,
            idx == find_key(final(self).entries@, key@),
    {
        let ghost entries0 = self.entries@;
        match self.index_of(key) {
            Some(i) => {
                proof {
                    assert(self.entries@.subrange(0, self.entries@.len() as int) =~= self.entries@);
                    lemma_find_key(old(self).entries@, key@);
                }
                i
            },
            None => {
                let idx = self.entries.len();
                self.entries.push((key.to_owned(), value));
                proof {
                    lemma_find_key(entries0, key@);
                    assert(self.entries@.subrange(0, entries0.len() as int) =~= entries0);
                    assert forall|k: int| 0 <= k < idx implies (#[trigger] self.entries@[k]).0@
                        != key@ by {
                        assert(self.entries@[k] == entries0[k]);
                    }
                    lemma_find_key_unique(self.entries@, key@, idx as int);
                }
                idx
            },
        }
    }

    /// The value at an index.
    pub fn get(&self, idx: usize) -> (v: &V)
        requires
            idx < self.entries@.len(),
        ensures
            *v == self.entries@[idx as int].1,
    {
        &self.entries[idx].1
    }

    /// Mutable access to the value at an index; the key stays put.
    pub fn get_mut(&mut self, idx: usize) -> (v: &mut V)
        requires
            old(self).wf(),
            idx < old(self).entries@.len(),
        ensures
            *v == old(self).entries@[idx as int].1,
            final(self).entries@.len() == old(self).entries@.len(),
            final(self).entries@[idx as int].0 == old(self).entries@[idx as int].0,
            final(self).entries@[idx as int].1 == *final(v),
            forall|k: int|
                0 <= k < old(self).entries@.len() && k != idx ==> final(self).entries@[k]
                    == old(self).entries@[k],
            final(self).wf(),
    {
        let entry = &mut self.entries[idx];
        &mut entry.1
    }
}

/// Map monotonicity across growth: when a map has only grown (its old
/// entries are a prefix of the new ones), a key that already resolved to an
/// entry still resolves to the same one.
pub proof fn lemma_lookup_stable<V>(
    old_entries: Seq<(String, V)>,
    new_entries: Seq<(String, V)>,
    key: Seq<char>,
)
    requires
        old_entries.len() <= new_entries.len(),
        new_entries.subrange(0, old_entries.len() as int) == old_entries,
        find_key(old_entries, key) < old_entries.len(),
    ensures
        find_key(new_entries, key) == find_key(old_entries, key),
{
    lemma_find_key(old_entries, key);
    let i = find_key(old_entries, key);
    assert forall|k: int| 0 <= k < i implies (#[trigger] new_entries[k]).0@ != key by {
        assert(new_entries[k] == new_entries.subrange(0, old_entries.len() as int)[k]);
        assert(old_entries[k].0@ != key);
    }
    assert(new_entries[i] == new_entries.subrange(0, old_entries.len() as int)[i]);
    lemma_find_key_unique(new_entries, key, i);
}

} // verus!
