//! The in-memory backend: a mapping from key to byte vector, held as an
//! association list with pairwise-distinct keys.

use vstd::prelude::*;
use crate::cache::{copy_bytes, CacheBackend, KeyError};

verus! {

/// The map denoted by an association list, later entries overriding
/// earlier ones (in a well-formed list no two keys are equal, so the
/// order never matters there).
pub open spec fn entries_map(s: Seq<(String, Vec<u8>)>) -> Map<Seq<char>, Seq<u8>>
    decreases s.len(),
{
    if s.len() == 0 {
        Map::empty()
    } else {
        entries_map(s.drop_last()).insert(s.last().0@, s.last().1@)
    }
}

/// An in-memory key-to-bytes store.  Contents vanish with the value;
/// useful for tests and for warming a cache that is consumed in-process.
pub struct Volatile {
    entries: Vec<(String, Vec<u8>)>,
}

impl Volatile {
    /// No two entries share a key.
    #[verifier::type_invariant]
    spec fn wf(self) -> bool {
        forall|i: int, j: int|
            0 <= i < j < self.entries@.len() ==> self.entries@[i].0@ != self.entries@[j].0@
    }

    /// An empty store.
    pub fn new() -> (r: Volatile)
        ensures
            r.view() == Map::<Seq<char>, Seq<u8>>::empty(),
    {
        Volatile { entries: Vec::new() }
    }
}

proof fn lemma_entries_map_contains(s: Seq<(String, Vec<u8>)>, k: Seq<char>)
    ensures
        entries_map(s).contains_key(k) <==> exists|i: int| 0 <= i < s.len() && s[i].0@ == k,
    decreases s.len(),
{
    if s.len() > 0 {
        lemma_entries_map_contains(s.drop_last(), k);
        if entries_map(s).contains_key(k) && s.last().0@ != k {
            let i = choose|i: int| 0 <= i < s.drop_last().len() && s.drop_last()[i].0@ == k;
            assert(s[i].0@ == k);
        }
        if s.last().0@ == k {
            assert(s[s.len() - 1].0@ == k);
        }
        if exists|i: int| 0 <= i < s.len() && s[i].0@ == k {
            let i = choose|i: int| 0 <= i < s.len() && s[i].0@ == k;
            if i < s.len() - 1 {
                assert(s.drop_last()[i].0@ == k);
            }
        }
    }
}

/// In a list with pairwise-distinct keys, the entry at `i` gives the
/// value stored under its key.
proof fn lemma_entries_map_value(s: Seq<(String, Vec<u8>)>, i: int)
    requires
        forall|p: int, q: int| 0 <= p < q < s.len() ==> s[p].0@ != s[q].0@,
        0 <= i < s.len(),
    ensures
        entries_map(s).contains_key(s[i].0@),
        entries_map(s)[s[i].0@] == s[i].1@,
    decreases s.len(),
{
    lemma_entries_map_contains(s, s[i].0@);
    if i < s.len() - 1 {
        assert(s.last().0@ != s[i].0@);
        assert(s.drop_last()[i] == s[i]);
        lemma_entries_map_value(s.drop_last(), i);
    }
}

/// Replacing the entry at `i` by one with the same key updates the
/// denoted map at that key, provided keys are pairwise distinct.
proof fn lemma_entries_map_update(s: Seq<(String, Vec<u8>)>, i: int, e: (String, Vec<u8>))
    requires
        forall|p: int, q: int| 0 <= p < q < s.len() ==> s[p].0@ != s[q].0@,
        0 <= i < s.len(),
        e.0@ == s[i].0@,
    ensures
        entries_map(s.update(i, e)) == entries_map(s).insert(e.0@, e.1@),
    decreases s.len(),
{
    let su = s.update(i, e);
    if i == s.len() - 1 {
        assert(su.drop_last() =~= s.drop_last());
        assert(entries_map(su) =~= entries_map(s).insert(e.0@, e.1@));
    } else {
        assert(su.drop_last() =~= s.drop_last().update(i, e));
        lemma_entries_map_update(s.drop_last(), i, e);
        assert(s.last().0@ != s[i].0@);
        assert(entries_map(su) =~= entries_map(s).insert(e.0@, e.1@));
    }
}

impl CacheBackend for Volatile {
    closed spec fn view(&self) -> Map<Seq<char>, Seq<u8>> {
        entries_map(self.entries@)
    }

    fn get(&self, key: &String) -> (r: Result<Vec<u8>, KeyError>)
        ensures
            r matches Err(e) ==> e is KeyNotFound,
    {
        proof {
            use_type_invariant(&*self);
            lemma_entries_map_contains(self.entries@, key@);
        }
        let n: usize = self.entries.len();
        let mut i: usize = 0;
        while i < n
            invariant
                n == self.entries@.len(),
                i <= n,
                forall|p: int| 0 <= p < i ==> self.entries@[p].0@ != key@,
            decreases n - i,
        {
            if self.entries[i].0 == *key {
                proof {
                    use_type_invariant(&*self);
                    lemma_entries_map_value(self.entries@, i as int);
                }
                return Ok(copy_bytes(&self.entries[i].1));
            }
            i = i + 1;
        }
        Err(KeyError::KeyNotFound)
    }

    fn put(&mut self, key: &String, payload: &Vec<u8>) -> (r: Result<(), KeyError>)
        ensures
            r is Ok,
    {
        proof {
            use_type_invariant(&*self);
        }
        let ghost s0 = self.entries@;
        let mut entries: Vec<(String, Vec<u8>)> = Vec::new();
        core::mem::swap(&mut entries, &mut self.entries);
        let n: usize = entries.len();
        let mut i: usize = 0;
        while i < n
            invariant
                n == entries@.len(),
                entries@ == s0,
                old(self).entries@ == s0,
                i <= n,
                forall|p: int, q: int| 0 <= p < q < s0.len() ==> s0[p].0@ != s0[q].0@,
                forall|p: int| 0 <= p < i ==> s0[p].0@ != key@,
            decreases n - i,
        {
            if entries[i].0 == *key {
                let entry = (key.clone(), copy_bytes(payload));
                proof {
                    lemma_entries_map_update(s0, i as int, entry);
                }
                entries.set(i, entry);
                proof {
                    let su = entries@;
                    assert forall|p: int, q: int|
                        0 <= p < q < su.len() implies su[p].0@ != su[q].0@ by {
                        assert(su[p].0@ == s0[p].0@);
                        assert(su[q].0@ == s0[q].0@);
                    }
                }
                self.entries = entries;
                return Ok(());
            }
            i = i + 1;
        }
        entries.push((key.clone(), copy_bytes(payload)));
        proof {
            assert(entries@.drop_last() =~= s0);
            let su = entries@;
            assert forall|p: int, q: int|
                0 <= p < q < su.len() implies su[p].0@ != su[q].0@ by {
                if q < su.len() - 1 {
                    assert(s0[p].0@ != s0[q].0@);
                } else {
                    assert(s0[p].0@ != key@);
                }
            }
        }
        self.entries = entries;
        Ok(())
    }
}

} // verus!
