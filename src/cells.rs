//! The set of live cells, held as their keys.
use std::collections::BTreeSet;
use vstd::prelude::*;
use vstd::std_specs::cmp::OrdSpec;
use vstd::std_specs::iter::IteratorSpec;

verus! {

broadcast use vstd::laws_cmp::group_laws_cmp;

/// The keys of the live cells; a key that is absent is a dead cell.
pub struct LiveCellSet {
    keys: BTreeSet<u64>,
}

impl View for LiveCellSet {
    type V = Set<u64>;

    closed spec fn view(&self) -> Set<u64> {
        self.keys@
    }
}

/// Whether `s` lists distinct keys in ascending order.
pub open spec fn ascending(s: Seq<u64>) -> bool {
    forall|i: int, j: int| 0 <= i < j < s.len() ==> s[i] < s[j]
}

impl LiveCellSet {
    /// An empty set: every cell dead.
    pub fn new() -> (r: LiveCellSet)
        ensures
            r@ == Set::<u64>::empty(),
    {
        LiveCellSet { keys: BTreeSet::new() }
    }

    /// Whether `key` is live.
    pub fn contains(&self, key: u64) -> (r: bool)
        ensures
            r == self@.contains(key),
    {
        self.keys.contains(&key)
    }

    /// Makes `key` live; a key already live stays so.
    pub fn insert(&mut self, key: u64)
        ensures
            final(self)@ == old(self)@.insert(key),
    {
        self.keys.insert(key);
    }

    /// Makes `key` dead; a key already dead stays so.
    pub fn remove(&mut self, key: u64)
        ensures
            final(self)@ == old(self)@.remove(key),
    {
        self.keys.remove(&key);
    }

    /// Makes every cell dead.
    pub fn clear(&mut self)
        ensures
            final(self)@ == Set::<u64>::empty(),
    {
        self.keys.clear();
    }

    /// Substitutes the whole contents by those of `next`.
    pub fn replace(&mut self, next: LiveCellSet)
        ensures
            final(self)@ == next@,
    {
        self.keys = next.keys;
    }

    /// The number of live cells.
    pub fn len(&self) -> (r: usize)
        ensures
            r == self@.len(),
    {
        self.keys.len()
    }

    /// The live keys, each once, in ascending order.
    pub fn to_vec(&self) -> (r: Vec<u64>)
        ensures
            r@.to_set() == self@,
            r@.no_duplicates(),
            ascending(r@),
    {
        let mut r: Vec<u64> = Vec::new();
        proof {
            let s = vstd::std_specs::btree::spec_btree_keys_iter(&self.keys).remaining();
            assert(vstd::laws_cmp::obeys_cmp::<u64>());
            assert(vstd::laws_cmp::obeys_cmp::<&u64>());
            assert(vstd::std_specs::btree::increasing_seq(s));
            assert forall|i: int, j: int| 0 <= i < j < s.len() implies s.unref()[i] < s.unref()[j] by {
                assert(OrdSpec::cmp_spec(&s[i], &s[j]) is Less);
                assert((*s[i]).cmp_spec(&*s[j]) is Less);
            }
        }
        for k in it: self.keys.iter()
            invariant
                it.seq().unref().to_set() == self@,
                it.seq().unref().no_duplicates(),
                ascending(it.seq().unref()),
                r@ == it.seq().unref().take(it.index()),
                it.index() == it.seq().len() ==> r@ == it.seq().unref(),
        {
            proof {
                assert(it.seq().unref().take(it.seq().len() as int) =~= it.seq().unref());
                assert(it.seq().unref().take(it.index() + 1) =~= it.seq().unref().take(
                    it.index(),
                ).push(*k));
            }
            r.push(*k);
        }
        r
    }
}

/// Inserting a key twice leaves the same set as inserting it once.
pub proof fn lemma_insert_idempotent(s: Set<u64>, key: u64)
    ensures
        s.insert(key).insert(key) == s.insert(key),
{
    assert(s.insert(key).insert(key) =~= s.insert(key));
}

} // verus!
