//! Hot counts: how often each location has been interpreted.
use std::collections::HashMap;
use vstd::prelude::*;

use crate::types::{HotCount, JitLocation};

verus! {

broadcast use vstd::std_specs::hash::group_hash_axioms;

/// The hot counts that all threads share.
#[derive(Debug)]
pub struct HotCounts {
    counts: HashMap<JitLocation, HotCount>,
}

impl View for HotCounts {
    type V = Map<JitLocation, HotCount>;

    closed spec fn view(&self) -> Map<JitLocation, HotCount> {
        self.counts@
    }
}

/// The count that `counts` gives to `loc`: a location without an entry has never been counted.
pub open spec fn count_of(counts: Map<JitLocation, HotCount>, loc: JitLocation) -> HotCount {
    if counts.contains_key(loc) {
        counts[loc]
    } else {
        0
    }
}

impl HotCounts {
    /// Hot counts in which every location stands at zero.
    pub fn new() -> (counts: Self)
        ensures
            counts@ == Map::<JitLocation, HotCount>::empty(),
    {
        HotCounts { counts: HashMap::new() }
    }
}

/// Get the hot count for the given location.
pub fn hot_count(counts: &HotCounts, loc: JitLocation) -> (count: HotCount)
    ensures
        count == count_of(counts@, loc),
        counts@.contains_key(loc) ==> count == counts@[loc],
        !counts@.contains_key(loc) ==> count == 0,
{
    match counts.counts.get(&loc) {
        Some(v) => *v,
        None => 0,
    }
}

/// Increment and return the hot count for the given location. A count that has reached the maximum
/// of its type cannot be incremented.
pub fn incr_hot_count(counts: &mut HotCounts, loc: JitLocation) -> (count: HotCount)
    requires
        count_of(old(counts)@, loc) < HotCount::MAX,
    ensures
        count == count_of(old(counts)@, loc) + 1,
        final(counts)@ == old(counts)@.insert(loc, count),
        old(counts)@.contains_key(loc) ==> count == old(counts)@[loc] + 1,
        !old(counts)@.contains_key(loc) ==> count == 1,
{
    let loc_count: &mut HotCount = counts.counts.entry(loc).or_insert(0);
    *loc_count += 1;
    *loc_count
}

} // verus!
