//! A small CID-keyed association table.
//!
//! The index and the write cache of an archive handle are maps from CID to
//! a value. This table keeps its entries in a vector with pairwise distinct
//! keys; lookups scan for the first (and only) match.

use vstd::prelude::*;

verus! {

use crate::cids::Cid;

/// First-match lookup of `k` among `entries`.
pub open spec fn assoc_lookup<V>(entries: Seq<(Cid, V)>, k: Seq<u8>) -> Option<V>
    decreases entries.len(),
{
    if entries.len() == 0 {
        None
    } else if entries[0].0@ == k {
        Some(entries[0].1)
    } else {
        assoc_lookup(entries.skip(1), k)
    }
}

/// A map from CID to `V`, with each key present at most once.
#[derive(Debug)]
pub struct CidVecMap<V> {
    entries: Vec<(Cid, V)>,
}

impl<V> CidVecMap<V> {
    /// Keys are pairwise distinct.
    pub closed spec fn wf(self) -> bool {
        forall|i: int, j: int|
            0 <= i < j < self.entries@.len() ==> self.entries@[i].0@ != self.entries@[j].0@
    }

    /// The value stored under key `k`, if any.
    pub closed spec fn spec_get(self, k: Seq<u8>) -> Option<V> {
        assoc_lookup(self.entries@, k)
    }

    /// Whether key `k` is present.
    pub open spec fn spec_contains(self, k: Seq<u8>) -> bool {
        self.spec_get(k) is Some
    }

    /// The number of entries.
    pub closed spec fn spec_len(self) -> nat {
        self.entries@.len()
    }

    /// An empty map.
    pub fn new() -> (r: CidVecMap<V>)
        ensures
            r.wf(),
            r.spec_len() == 0,
            forall|k: Seq<u8>| r.spec_get(k) is None,
    {
        CidVecMap { entries: Vec::new() }
    }

    pub fn len(&self) -> (r: usize)
        ensures
            r == self.spec_len(),
    {
        self.entries.len()
    }

    /// A reference to the value under `k`, if any.
    pub fn get<'a>(&'a self, k: &Cid) -> (r: Option<&'a V>)
        ensures
            match r {
                Some(v) => self.spec_get(k@) == Some(*v),
                None => self.spec_get(k@) is None,
            },
    {
        let n = self.entries.len();
        proof {
            assert(self.entries@.skip(0) =~= self.entries@);
        }
        for i in 0..n
            invariant
                n == self.entries@.len(),
                assoc_lookup(self.entries@, k@) == assoc_lookup(self.entries@.skip(i as int), k@),
        {
            proof {
                assert(self.entries@.skip(i as int).skip(1) =~= self.entries@.skip(i as int + 1));
            }
            if self.entries[i].0 == *k {
                assert(self.entries@.skip(i as int)[0] == self.entries@[i as int]);
                return Some(&self.entries[i].1);
            }
        }
        None
    }

    pub fn contains_key(&self, k: &Cid) -> (r: bool)
        ensures
            r == self.spec_contains(k@),
    {
        self.get(k).is_some()
    }

    /// Adds an entry under a key that is not yet present.
    pub fn insert(&mut self, k: Cid, v: V)
        requires
            old(self).wf(),
            !old(self).spec_contains(k@),
        ensures
            final(self).wf(),
            final(self).spec_len() == old(self).spec_len() + 1,
            final(self).spec_get(k@) == Some(v),
            forall|k2: Seq<u8>| k2 != k@ ==> final(self).spec_get(k2) == old(self).spec_get(k2),
    {
        let ghost old_entries = self.entries@;
        let ghost kv = k@;
        let ghost e = (k, v);
        self.entries.push((k, v));
        proof {
            assert forall|k2: Seq<u8>|
                assoc_lookup(self.entries@, k2) == match assoc_lookup(old_entries, k2) {
                    Some(w) => Some(w),
                    None => if kv == k2 {
                        Some(v)
                    } else {
                        None
                    },
                } by {
                lemma_assoc_lookup_push(old_entries, e, k2);
            }
            assert forall|i: int, j: int| 0 <= i < j < self.entries@.len() implies
                self.entries@[i].0@ != self.entries@[j].0@ by {
                if j == self.entries@.len() - 1 {
                    lemma_assoc_lookup_present(old_entries, i);
                }
            }
        }
    }

    /// Removes the entry under `k`, returning its value.
    pub fn remove(&mut self, k: &Cid) -> (r: Option<V>)
        requires
            old(self).wf(),
        ensures
            final(self).wf(),
            r == old(self).spec_get(k@),
            final(self).spec_get(k@) is None,
            forall|k2: Seq<u8>| k2 != k@ ==> final(self).spec_get(k2) == old(self).spec_get(k2),
            final(self).spec_len() == if r is Some {
                old(self).spec_len() - 1
            } else {
                old(self).spec_len() as int
            },
    {
        let ghost old_entries = self.entries@;
        let n = self.entries.len();
        proof {
            assert(old_entries.skip(0) =~= old_entries);
        }
        for i in 0..n
            invariant
                old_entries == old(self).entries@,
                self.entries@ == old_entries,
                n == old_entries.len(),
                self.wf(),
                assoc_lookup(old_entries, k@) == assoc_lookup(old_entries.skip(i as int), k@),
                forall|m: int| 0 <= m < i ==> old_entries[m].0@ != k@,
        {
            proof {
                assert(old_entries.skip(i as int).skip(1) =~= old_entries.skip(i as int + 1));
            }
            if self.entries[i].0 == *k {
                assert(old_entries.skip(i as int)[0] == old_entries[i as int]);
                assert(assoc_lookup(old_entries.skip(i as int), k@)
                    == Some(old_entries[i as int].1));
                let (_, v) = self.entries.remove(i);
                proof {
                    assert(self.entries@ =~= old_entries.remove(i as int));
                    lemma_assoc_lookup_remove(old_entries, i as int, k@);
                    assert forall|k2: Seq<u8>| k2 != k@ implies
                        assoc_lookup(self.entries@, k2) == assoc_lookup(old_entries, k2) by {
                        lemma_assoc_lookup_remove(old_entries, i as int, k2);
                    }
                }
                return Some(v);
            }
        }
        proof {
            assert(old_entries.skip(n as int) =~= Seq::<(Cid, V)>::empty());
            assert(assoc_lookup(Seq::<(Cid, V)>::empty(), k@) is None);
        }
        None
    }

    /// The key sequence, in entry order.
    pub closed spec fn spec_keys(self) -> Seq<Seq<u8>> {
        self.entries@.map(|i: int, e: (Cid, V)| e.0@)
    }

    /// A key is stored exactly when it occurs in the key sequence.
    pub proof fn lemma_contains_keys(self, k: Seq<u8>)
        ensures
            self.spec_contains(k) <==> self.spec_keys().contains(k),
    {
        if self.spec_contains(k) {
            lemma_assoc_lookup_found(self.entries@, k);
            let i = choose|i: int|
                0 <= i < self.entries@.len() && self.entries@[i].0@ == k;
            assert(self.spec_keys()[i] == k);
        }
        if self.spec_keys().contains(k) {
            let i = choose|i: int| 0 <= i < self.spec_keys().len() && self.spec_keys()[i] == k;
            lemma_assoc_lookup_present(self.entries@, i);
        }
    }

    /// The keys, in entry order.
    pub fn keys(&self) -> (r: Vec<Cid>)
        ensures
            r@.len() == self.spec_len(),
            r@.len() == self.spec_keys().len(),
            forall|i: int| 0 <= i < r@.len() ==> r@[i]@ == self.spec_keys()[i],
    {
        let mut r: Vec<Cid> = Vec::new();
        let n = self.entries.len();
        for i in 0..n
            invariant
                n == self.entries@.len(),
                r@.len() == i,
                forall|m: int| 0 <= m < i ==> r@[m]@ == self.entries@[m].0@,
        {
            r.push(self.entries[i].0.dup());
        }
        r
    }
}

/// A key that sits at position `i` is found by lookup.
proof fn lemma_assoc_lookup_present<V>(entries: Seq<(Cid, V)>, i: int)
    requires
        0 <= i < entries.len(),
    ensures
        assoc_lookup(entries, entries[i].0@) is Some,
    decreases entries.len(),
{
    if entries[0].0@ != entries[i].0@ {
        lemma_assoc_lookup_present(entries.skip(1), i - 1);
    }
}

/// Appending an entry only affects lookups of its key, and of that key only
/// when it was absent.
proof fn lemma_assoc_lookup_push<V>(entries: Seq<(Cid, V)>, e: (Cid, V), k2: Seq<u8>)
    ensures
        assoc_lookup(entries.push(e), k2) == match assoc_lookup(entries, k2) {
            Some(v) => Some(v),
            None => if e.0@ == k2 {
                Some(e.1)
            } else {
                None
            },
        },
    decreases entries.len(),
{
    if entries.len() == 0 {
        assert(entries.push(e)[0] == e);
        assert(entries.push(e).skip(1) =~= Seq::<(Cid, V)>::empty());
        assert(assoc_lookup(Seq::<(Cid, V)>::empty(), k2) is None);
        assert(assoc_lookup(entries, k2) is None);
    } else {
        assert(entries.push(e)[0] == entries[0]);
        assert(entries.push(e).skip(1) =~= entries.skip(1).push(e));
        lemma_assoc_lookup_push(entries.skip(1), e, k2);
    }
}

/// Removing the entry at `i` erases its key and leaves other keys unchanged,
/// provided keys are pairwise distinct.
proof fn lemma_assoc_lookup_remove<V>(entries: Seq<(Cid, V)>, i: int, k2: Seq<u8>)
    requires
        0 <= i < entries.len(),
        forall|a: int, b: int| 0 <= a < b < entries.len() ==> entries[a].0@ != entries[b].0@,
    ensures
        assoc_lookup(entries.remove(i), k2) == if entries[i].0@ == k2 {
            None::<V>
        } else {
            assoc_lookup(entries, k2)
        },
    decreases entries.len(),
{
    if i == 0 {
        assert(entries.remove(0) =~= entries.skip(1));
        if entries[0].0@ == k2 {
            lemma_assoc_lookup_absent(entries.skip(1), k2);
        }
    } else {
        assert(entries.remove(i).skip(1) =~= entries.skip(1).remove(i - 1));
        assert(entries.remove(i)[0] == entries[0]);
        lemma_assoc_lookup_remove(entries.skip(1), i - 1, k2);
    }
}

/// A found key occurs at some position.
proof fn lemma_assoc_lookup_found<V>(entries: Seq<(Cid, V)>, k: Seq<u8>)
    requires
        assoc_lookup(entries, k) is Some,
    ensures
        exists|i: int| 0 <= i < entries.len() && entries[i].0@ == k,
    decreases entries.len(),
{
    if entries.len() > 0 && entries[0].0@ != k {
        lemma_assoc_lookup_found(entries.skip(1), k);
        let i = choose|i: int| 0 <= i < entries.skip(1).len() && entries.skip(1)[i].0@ == k;
        assert(entries[i + 1].0@ == k);
    }
}

/// A key different from every stored key is not found.
proof fn lemma_assoc_lookup_absent<V>(entries: Seq<(Cid, V)>, k: Seq<u8>)
    requires
        forall|a: int| 0 <= a < entries.len() ==> entries[a].0@ != k,
    ensures
        assoc_lookup(entries, k) is None,
    decreases entries.len(),
{
    if entries.len() > 0 {
        lemma_assoc_lookup_absent(entries.skip(1), k);
    }
}

} // verus!
