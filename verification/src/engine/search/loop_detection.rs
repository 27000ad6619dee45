//! Loop detection: the hashes of the positions on the current search path;
//! a repeated position is a cycle.
use vstd::prelude::*;
use std::collections::HashSet;

verus! {

broadcast use vstd::std_specs::hash::group_hash_axioms;

/// The set of position hashes on the current search path.
pub struct LoopDetector {
    seen: HashSet<u64>,
}

impl View for LoopDetector {
    type V = Set<u64>;

    closed spec fn view(&self) -> Set<u64> {
        self.seen@
    }
}

impl LoopDetector {
    /// An empty detector.
    pub fn new() -> (d: Self)
        ensures
            d@ == Set::<u64>::empty(),
    {
        LoopDetector { seen: HashSet::new() }
    }

    /// Add a position hash; returns true if it was already on the path
    /// (the position repeats).
    pub fn push(&mut self, hash: u64) -> (repeated: bool)
        ensures
            final(self)@ == old(self)@.insert(hash),
            repeated == old(self)@.contains(hash),
    {
        !self.seen.insert(hash)
    }

    /// Remove a position hash (when leaving a branch).
    pub fn pop(&mut self, hash: u64)
        ensures
            final(self)@ == old(self)@.remove(hash),
    {
        self.seen.remove(&hash);
    }

    /// Whether `hash` is on the path.
    pub fn contains(&self, hash: u64) -> (r: bool)
        ensures
            r == self@.contains(hash),
    {
        self.seen.contains(&hash)
    }
}

impl Default for LoopDetector {
    fn default() -> (d: Self)
        ensures
            d@ == Set::<u64>::empty(),
    {
        Self::new()
    }
}

/// A pushed hash is then found on the path, and popping it removes it.
pub proof fn lemma_push_pop(path: Set<u64>, hash: u64)
    ensures
        path.insert(hash).contains(hash),
        !path.insert(hash).remove(hash).contains(hash),
        !path.contains(hash) ==> path.insert(hash).remove(hash) == path,
{
    if !path.contains(hash) {
        assert(path.insert(hash).remove(hash) =~= path);
    }
}

} // verus!
