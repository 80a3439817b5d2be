//! A pool that keeps the single test case maximising one observed value.

use vstd::prelude::*;

use crate::traits::{
    CSVField, CompatibleWithObservations, CorpusDelta, Pool, PoolStorageIndex, SaveToStatsFolder,
    Stats, ToCSV, WEIGHT_SCALE,
};

verus! {

broadcast use vstd::std_specs::vec::group_vec_axioms;

/// The stored best input.
pub struct BestInput {
    pub input_id: PoolStorageIndex,
    pub complexity: u64,
}

/// A pool that stores at most one input: the one with the highest observed
/// value, ties broken by lower complexity.
pub struct MaximiseObservationPool {
    pub name: String,
    pub current_best: Option<(u64, BestInput)>,
}

/// Statistics of [`MaximiseObservationPool`]: the best value seen.
#[derive(Clone)]
pub struct MaximiseObservationPoolStats {
    pub name: String,
    pub best: u64,
}

impl ToCSV for MaximiseObservationPoolStats {
    fn csv_headers(&self) -> (r: Vec<CSVField>) {
        let mut v: Vec<CSVField> = Vec::new();
        v.push(CSVField::String(self.name.clone()));
        v
    }

    fn to_csv_record(&self) -> (r: Vec<CSVField>) {
        let mut v: Vec<CSVField> = Vec::new();
        if self.best <= i64::MAX as u64 {
            v.push(CSVField::Integer(self.best as i64));
        } else {
            v.push(CSVField::Integer(i64::MAX));
        }
        v
    }
}

impl Stats for MaximiseObservationPoolStats {

}

impl MaximiseObservationPool {
    /// Builds an empty pool.
    pub fn new(name: &str) -> (r: MaximiseObservationPool)
        ensures
            r.current_best is None,
    {
        MaximiseObservationPool { name: name.to_owned(), current_best: None }
    }

    /// Whether an observation displaces the stored best input.
    pub open spec fn interesting(self, observation: u64, complexity: u64) -> bool {
        match self.current_best {
            Option::None => true,
            Option::Some(best) => observation > best.0 || (observation == best.0
                && best.1.complexity > complexity),
        }
    }

    /// Judges one observation: a higher value, or an equal value at lower
    /// complexity, displaces the stored input; anything else is discarded.
    pub fn process_observation(
        &mut self,
        input_id: PoolStorageIndex,
        observation: u64,
        complexity: u64,
    ) -> (r: Vec<CorpusDelta>)
        ensures
            old(self).interesting(observation, complexity) ==> {
                &&& final(self).current_best == Some(
                    (observation, BestInput { input_id, complexity }),
                )
                &&& r@.len() == 1
                &&& r@[0].add == true
                &&& (match old(self).current_best {
                    Option::Some(prev) => r@[0].remove@ == seq![prev.1.input_id],
                    Option::None => r@[0].remove@.len() == 0,
                })
            },
            !old(self).interesting(observation, complexity) ==> {
                &&& *final(self) == *old(self)
                &&& r@.len() == 0
            },
    {
        let is_interesting = match &self.current_best {
            None => true,
            Some(best) => observation > best.0 || (observation == best.0 && best.1.complexity
                > complexity),
        };
        if !is_interesting {
            return Vec::new();
        }
        let mut remove: Vec<PoolStorageIndex> = Vec::new();
        match &self.current_best {
            Some(best) => {
                remove.push(best.1.input_id);
                proof {
                    assert(remove@ =~= seq![(old(self).current_best->0).1.input_id]);
                }
            },
            None => {
            },
        }
        let delta = CorpusDelta { path: self.name.clone(), add: true, remove };
        self.current_best = Some((observation, BestInput { input_id, complexity }));
        let mut out: Vec<CorpusDelta> = Vec::new();
        out.push(delta);
        out
    }
}

impl SaveToStatsFolder for MaximiseObservationPool {
    fn save_to_stats_folder(&self) -> (r: Vec<(String, Vec<u8>)>) {
        Vec::new()
    }
}

impl Pool for MaximiseObservationPool {
    type Stats = MaximiseObservationPoolStats;

    fn stats(&self) -> (r: MaximiseObservationPoolStats) {
        let best: u64 = match &self.current_best {
            Some(b) => b.0,
            None => 0,
        };
        MaximiseObservationPoolStats { name: self.name.clone(), best }
    }

    fn get_random_index(&mut self) -> (r: Option<PoolStorageIndex>)
        ensures
            (r is Some) <==> (old(self).current_best is Some),
            r is Some ==> r->0 == (old(self).current_best->0).1.input_id,
            *final(self) == *old(self),
    {
        match &self.current_best {
            Some(best) => Some(best.1.input_id),
            None => None,
        }
    }

    open spec fn weight_spec(&self) -> u64 {
        WEIGHT_SCALE
    }

    fn weight(&self) -> (r: u64) {
        WEIGHT_SCALE
    }
}

impl CompatibleWithObservations<u64> for MaximiseObservationPool {
    fn process(&mut self, input_id: PoolStorageIndex, observations: &u64, complexity: u64) -> (r:
        Vec<CorpusDelta>)
        ensures
            old(self).interesting(*observations, complexity) ==> {
                &&& final(self).current_best == Some(
                    (*observations, BestInput { input_id, complexity }),
                )
                &&& r@.len() == 1
                &&& r@[0].add == true
                &&& (match old(self).current_best {
                    Option::Some(prev) => r@[0].remove@ == seq![prev.1.input_id],
                    Option::None => r@[0].remove@.len() == 0,
                })
            },
            !old(self).interesting(*observations, complexity) ==> {
                &&& *final(self) == *old(self)
                &&& r@.len() == 0
            },
    {
        self.process_observation(input_id, *observations, complexity)
    }
}

} // verus!
