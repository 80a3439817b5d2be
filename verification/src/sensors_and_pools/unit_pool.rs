//! A pool that stores only one given test case, used for minification.

use vstd::prelude::*;

use crate::sensors_and_pools::stats::EmptyStats;
use crate::traits::{
    CompatibleWithObservations, CorpusDelta, Pool, PoolStorageIndex, SaveToStatsFolder, Stats,
    WEIGHT_SCALE,
};

verus! {

/// A pool that always hands back the single input it was built with and
/// rejects every observation.
pub struct UnitPool {
    pub input_index: PoolStorageIndex,
}

impl UnitPool {
    /// Builds the pool around one stored test case.
    pub fn new(input_index: PoolStorageIndex) -> (r: UnitPool)
        ensures
            r.input_index == input_index,
    {
        UnitPool { input_index }
    }
}

impl SaveToStatsFolder for UnitPool {
    fn save_to_stats_folder(&self) -> (r: Vec<(String, Vec<u8>)>) {
        Vec::new()
    }
}

impl Pool for UnitPool {
    type Stats = EmptyStats;

    fn stats(&self) -> (r: EmptyStats) {
        EmptyStats
    }

    fn get_random_index(&mut self) -> (r: Option<PoolStorageIndex>)
        ensures
            r == Some(old(self).input_index),
            *final(self) == *old(self),
    {
        Some(self.input_index)
    }

    open spec fn weight_spec(&self) -> u64 {
        WEIGHT_SCALE
    }

    fn weight(&self) -> (r: u64) {
        WEIGHT_SCALE
    }
}

impl<O> CompatibleWithObservations<O> for UnitPool {
    fn process(&mut self, input_id: PoolStorageIndex, observations: &O, complexity: u64) -> (r:
        Vec<CorpusDelta>)
        ensures
            r@.len() == 0,
            *final(self) == *old(self),
    {
        Vec::new()
    }
}

} // verus!
