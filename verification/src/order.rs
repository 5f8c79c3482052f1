use crate::allocation::CacheArenaAllocation;
use std::cmp::Ordering;
use vstd::prelude::*;

verus! {

impl PartialOrd for CacheArenaAllocation {
    /// Handles are ordered by their index: by the order in which an arena
    /// produced them.
    fn partial_cmp(&self, other: &Self) -> (result: Option<Ordering>) {
        let mine = self.alloc_id();
        let theirs = other.alloc_id();
        if mine < theirs {
            Some(Ordering::Less)
        } else if mine == theirs {
            Some(Ordering::Equal)
        } else {
            Some(Ordering::Greater)
        }
    }
}

impl vstd::std_specs::cmp::PartialOrdSpecImpl for CacheArenaAllocation {
    open spec fn obeys_partial_cmp_spec() -> bool {
        true
    }

    open spec fn partial_cmp_spec(&self, other: &Self) -> Option<Ordering> {
        if self.id() < other.id() {
            Some(Ordering::Less)
        } else if self.id() == other.id() {
            Some(Ordering::Equal)
        } else {
            Some(Ordering::Greater)
        }
    }
}

} // verus!
