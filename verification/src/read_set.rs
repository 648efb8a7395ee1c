//! The set of the ids of the logs that the player has read. It only grows.

use std::collections::HashSet;
use vstd::prelude::*;
use vstd::std_specs::iter::IteratorSpec;

verus! {

broadcast use vstd::std_specs::hash::group_hash_axioms;

/// A set of log ids.
pub struct ReadIdSet {
    ids: HashSet<u32>,
}

impl View for ReadIdSet {
    type V = Set<u32>;

    closed spec fn view(&self) -> Set<u32> {
        self.ids@
    }
}

impl ReadIdSet {
    /// The set holds finitely many ids.
    pub closed spec fn wf(&self) -> bool {
        self.ids@.finite()
    }

    /// The empty set.
    pub fn new() -> (r: ReadIdSet)
        ensures
            r.wf(),
            r@ == Set::<u32>::empty(),
    {
        ReadIdSet { ids: HashSet::new() }
    }

    /// Tells whether the id is in the set.
    pub fn contains(&self, id: u32) -> (r: bool)
        ensures
            r == self@.contains(id),
    {
        self.ids.contains(&id)
    }

    /// Adds the id to the set, and tells whether it was new.
    pub fn insert(&mut self, id: u32) -> (r: bool)
        requires
            old(self).wf(),
        ensures
            final(self).wf(),
            final(self)@ == old(self)@.insert(id),
            r == !old(self)@.contains(id),
    {
        self.ids.insert(id)
    }

    /// The number of ids in the set.
    pub fn len(&self) -> (r: usize)
        requires
            self.wf(),
        ensures
            r == self@.len(),
            self@.finite(),
    {
        self.ids.len()
    }

    /// The set of the ids that a list holds.
    pub fn from_ids(ids: &Vec<u32>) -> (r: ReadIdSet)
        ensures
            r.wf(),
            r@ == ids@.to_set(),
    {
        let mut r = ReadIdSet::new();
        let mut i: usize = 0;
        assert(ids@.subrange(0, 0).to_set() =~= Set::<u32>::empty());
        while i < ids.len()
            invariant
                i <= ids@.len(),
                r.wf(),
                r@ == ids@.subrange(0, i as int).to_set(),
            decreases ids@.len() - i,
        {
            proof {
                ids@.subrange(0, i as int).lemma_push_to_set_commute(ids@[i as int]);
                assert(ids@.subrange(0, i + 1) =~= ids@.subrange(0, i as int).push(ids@[i as int]));
            }
            r.insert(ids[i]);
            i += 1;
        }
        assert(ids@.subrange(0, i as int) == ids@);
        r
    }

    /// The ids of the set, each once, in no order that is told.
    pub fn to_vec(&self) -> (r: Vec<u32>)
        requires
            self.wf(),
        ensures
            r@.no_duplicates(),
            r@.to_set() == self@,
    {
        let mut v: Vec<u32> = Vec::new();
        let ghost all = self.ids.iter().remaining().unref();
        for id in iter: self.ids.iter()
            invariant
                iter.seq().unref() == all,
                all.no_duplicates(),
                all.to_set() == self@,
                v@ == all.subrange(0, iter.index() as int),
        {
            v.push(*id);
            assert(v@ =~= all.subrange(0, iter.index() + 1));
        }
        assert(v@ =~= all);
        v
    }
}

/// An id that is added stays: adding it again changes nothing, and what was
/// in the set before is in it afterwards.
pub proof fn lemma_insert_twice(s: Set<u32>, id: u32)
    ensures
        s.insert(id).insert(id) == s.insert(id),
        s.subset_of(s.insert(id)),
{
    assert(s.insert(id).insert(id) =~= s.insert(id));
}

} // verus!
