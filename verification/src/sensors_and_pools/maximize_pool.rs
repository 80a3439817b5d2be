//! A pool that tracks, for every counter of a fixed space, the single best
//! input: the one with the highest observed counter value, ties broken by
//! lower complexity. An input's score is the number of counters it is
//! currently best for, and inputs are sampled with weight proportional to
//! their score divided by how often they were already chosen.

use vstd::prelude::*;

use crate::rng::{rng_new, rng_u64};
use crate::traits::{
    CSVField, CompatibleWithObservations, CorpusDelta, Pool, PoolStorageIndex, SaveToStatsFolder,
    Stats, ToCSV, WEIGHT_SCALE,
};

verus! {

broadcast use vstd::std_specs::vec::group_vec_axioms;

/// Statistics of the counter-maximizing pool: how many inputs it holds and
/// the sum of the recorded counter values.
#[derive(Clone)]
pub struct CounterMaximizingPoolStats {
    pub name: String,
    pub size: usize,
    pub total_counts: u64,
}

impl ToCSV for CounterMaximizingPoolStats {
    fn csv_headers(&self) -> (r: Vec<CSVField>) {
        let mut v: Vec<CSVField> = Vec::new();
        v.push(CSVField::String(self.name.clone()));
        v.push(CSVField::String(self.name.clone()));
        v
    }

    fn to_csv_record(&self) -> (r: Vec<CSVField>) {
        let mut v: Vec<CSVField> = Vec::new();
        if self.size <= i64::MAX as usize {
            v.push(CSVField::Integer(self.size as i64));
        } else {
            v.push(CSVField::Integer(i64::MAX));
        }
        if self.total_counts <= i64::MAX as u64 {
            v.push(CSVField::Integer(self.total_counts as i64));
        } else {
            v.push(CSVField::Integer(i64::MAX));
        }
        v
    }
}

impl Stats for CounterMaximizingPoolStats {

}

/// One stored input and its bookkeeping.
pub struct PoolInput {
    /// The counters this input is currently best for.
    pub best_for_counters: Vec<usize>,
    pub cplx: u64,
    pub idx: PoolStorageIndex,
    /// The number of counters it is best for, or zero for a dead end.
    pub score: u64,
    pub number_times_chosen: u64,
}

/// The counter-maximizing pool.
pub struct CounterMaximizingPool {
    pub name: String,
    pub size: usize,
    pub complexities: Vec<u64>,
    pub highest_counts: Vec<u64>,
    pub inputs: Vec<Option<PoolInput>>,
    pub best_input_for_counter: Vec<Option<usize>>,
    pub stats: CounterMaximizingPoolStats,
    pub rng: fastrand::Rng,
}

/// Some pair of the observation list names the counter.
pub open spec fn obs_has_counter(obs: Seq<(usize, u64)>, c: int) -> bool {
    exists|j: int| 0 <= j < obs.len() && (#[trigger] obs[j]).0 == c
}

/// Some pair of the first `upto` observations names the counter.
pub open spec fn obs_prefix_has_counter(obs: Seq<(usize, u64)>, upto: int, c: int) -> bool {
    exists|j: int| 0 <= j < upto && j < obs.len() && (#[trigger] obs[j]).0 == c
}

/// The index names an input that the change from `a` to `b` evicted.
pub open spec fn lists_an_evicted(
    a: Seq<Option<PoolInput>>,
    b: Seq<Option<PoolInput>>,
    x: PoolStorageIndex,
) -> bool {
    exists|k: int| evicted(a, b, k) && x == (#[trigger] a[k])->0.idx
}

/// The sampling weight of a slot: zero for an empty one.
pub open spec fn slot_weight(s: Option<PoolInput>) -> u64 {
    match s {
        Option::Some(inp) => CounterMaximizingPool::input_weight(inp),
        Option::None => 0,
    }
}

/// The saturating sum of the sampling weights of the first `n` slots.
pub open spec fn sat_wsum(inputs: Seq<Option<PoolInput>>, n: int) -> u64
    decreases n,
{
    if n <= 0 {
        0
    } else {
        let rest = sat_wsum(inputs, n - 1);
        let w = slot_weight(inputs[n - 1]);
        if rest + w <= u64::MAX {
            (rest + w) as u64
        } else {
            u64::MAX
        }
    }
}

/// The drawing of slot `k`: the input there was returned and its
/// times-chosen count went up by one, saturating; nothing else moved.
pub open spec fn chosen_from(
    a: Seq<Option<PoolInput>>,
    b: Seq<Option<PoolInput>>,
    k: int,
    idx: PoolStorageIndex,
) -> bool {
    &&& 0 <= k < a.len()
    &&& a[k] is Some
    &&& idx == a[k]->0.idx
    &&& CounterMaximizingPool::input_weight(a[k]->0) > 0
    &&& b == a.update(
        k,
        Some(
            PoolInput {
                best_for_counters: a[k]->0.best_for_counters,
                cplx: a[k]->0.cplx,
                idx: a[k]->0.idx,
                score: a[k]->0.score,
                number_times_chosen: if a[k]->0.number_times_chosen < u64::MAX {
                    (a[k]->0.number_times_chosen + 1) as u64
                } else {
                    a[k]->0.number_times_chosen
                },
            },
        ),
    )
}

/// The first slot holding an input stored under the given index, from `i`.
pub open spec fn first_live_with_idx(
    inputs: Seq<Option<PoolInput>>,
    idx: PoolStorageIndex,
    i: int,
) -> Option<int>
    decreases inputs.len() - i,
{
    if i < 0 || i >= inputs.len() {
        None
    } else if inputs[i] is Some && inputs[i]->0.idx == idx {
        Some(i)
    } else {
        first_live_with_idx(inputs, idx, i + 1)
    }
}

/// The observations among the first `n` that beat the pool's records.
pub open spec fn retained_observations(
    p: CounterMaximizingPool,
    obs: Seq<(usize, u64)>,
    cplx: u64,
    n: int,
) -> Seq<(usize, u64)>
    decreases n,
{
    if n <= 0 {
        Seq::empty()
    } else {
        let rest = retained_observations(p, obs, cplx, n - 1);
        if p.beats_record(obs[n - 1].0 as int, obs[n - 1].1, cplx) {
            rest.push(obs[n - 1])
        } else {
            rest
        }
    }
}

/// The slot `k` held an input before and none after.
pub open spec fn evicted(a: Seq<Option<PoolInput>>, b: Seq<Option<PoolInput>>, k: int) -> bool {
    0 <= k < a.len() && k < b.len() && a[k] is Some && b[k] is None
}

/// How many of the first `n` slots held an input before and none after.
pub open spec fn evicted_count(a: Seq<Option<PoolInput>>, b: Seq<Option<PoolInput>>, n: int) -> int
    decreases n,
{
    if n <= 0 {
        0
    } else {
        evicted_count(a, b, n - 1) + if evicted(a, b, n - 1) {
            1int
        } else {
            0int
        }
    }
}

/// While every slot keeps its liveness, nothing counts as evicted.
proof fn lemma_evicted_count_zero(a: Seq<Option<PoolInput>>, b: Seq<Option<PoolInput>>, n: int)
    requires
        forall|k: int| 0 <= k < n ==> ((#[trigger] b[k]) is Some <==> a[k] is Some),
    ensures
        evicted_count(a, b, n) == 0,
    decreases n,
{
    if n > 0 {
        lemma_evicted_count_zero(a, b, n - 1);
    }
}

/// Clearing one live slot raises the count by exactly one.
proof fn lemma_evicted_count_step(
    a: Seq<Option<PoolInput>>,
    b: Seq<Option<PoolInput>>,
    n: int,
    kk: int,
)
    requires
        0 <= kk < n,
        n <= a.len(),
        n <= b.len(),
        a[kk] is Some,
        b[kk] is Some,
    ensures
        evicted_count(a, b.update(kk, None), n) == evicted_count(a, b, n) + 1,
    decreases n,
{
    if kk == n - 1 {
        lemma_evicted_count_same(a, b, b.update(kk, None), n - 1);
    } else {
        lemma_evicted_count_step(a, b, n - 1, kk);
    }
}

/// Counting only looks at the first `n` slots.
proof fn lemma_evicted_count_same(
    a: Seq<Option<PoolInput>>,
    b1: Seq<Option<PoolInput>>,
    b2: Seq<Option<PoolInput>>,
    n: int,
)
    requires
        n <= b1.len(),
        n <= b2.len(),
        forall|k: int| 0 <= k < n ==> (#[trigger] b1[k]) == b2[k],
    ensures
        evicted_count(a, b1, n) == evicted_count(a, b2, n),
    decreases n,
{
    if n > 0 {
        lemma_evicted_count_same(a, b1, b2, n - 1);
    }
}

impl CounterMaximizingPool {
    /// The slot `k` holds a live input.
    pub open spec fn live(self, k: int) -> bool {
        0 <= k < self.inputs@.len() && self.inputs@[k] is Some
    }

    /// The pool's invariant. Every counter has at most one best input by
    /// construction; this says the two directions of the bookkeeping agree:
    /// a counter's best input lists that counter, every live input's listed
    /// counters point back at it, and every live input is best for at least
    /// one counter.
    pub open spec fn wf(self) -> bool {
        &&& self.complexities@.len() == self.size
        &&& self.highest_counts@.len() == self.size
        &&& self.best_input_for_counter@.len() == self.size
        &&& forall|c: int|
            0 <= c < self.size && self.best_input_for_counter@[c] is Some ==> {
                let k = (#[trigger] self.best_input_for_counter@[c])->0 as int;
                &&& self.live(k)
                &&& self.inputs@[k]->0.best_for_counters@.contains(c as usize)
            }
        &&& forall|k: int|
            #![trigger self.inputs@[k]]
            self.live(k) ==> {
                let inp = self.inputs@[k]->0;
                &&& inp.best_for_counters@.len() >= 1
                &&& inp.best_for_counters@.no_duplicates()
                &&& inp.score == inp.best_for_counters@.len() || inp.score == 0
                &&& inp.number_times_chosen >= 1
                &&& forall|j: int|
                    0 <= j < inp.best_for_counters@.len() ==> {
                        let c = #[trigger] inp.best_for_counters@[j] as int;
                        &&& 0 <= c < self.size
                        &&& self.best_input_for_counter@[c] == Some(k as usize)
                    }
            }
    }

    /// Builds an empty pool over a counter space of the given size.
    pub fn new(name: &str, size: usize) -> (r: CounterMaximizingPool)
        ensures
            r.wf(),
            r.size == size,
            r.name@ == name@,
            r.inputs@.len() == 0,
            forall|c: int| 0 <= c < size ==> (#[trigger] r.highest_counts@[c]) == 0,
            forall|c: int| 0 <= c < size ==> (#[trigger] r.complexities@[c]) == 0,
            forall|c: int| 0 <= c < size ==> (#[trigger] r.best_input_for_counter@[c]) is None,
            r.stats.size == 0,
            r.stats.total_counts == 0,
            r.stats.name@ == name@,
    {
        let mut complexities: Vec<u64> = Vec::new();
        let mut highest_counts: Vec<u64> = Vec::new();
        let mut best_input_for_counter: Vec<Option<usize>> = Vec::new();
        let mut i: usize = 0;
        while i < size
            invariant
                0 <= i <= size,
                complexities@.len() == i,
                highest_counts@.len() == i,
                best_input_for_counter@.len() == i,
                forall|c: int| 0 <= c < i ==> (#[trigger] highest_counts@[c]) == 0,
                forall|c: int| 0 <= c < i ==> (#[trigger] complexities@[c]) == 0,
                forall|c: int| 0 <= c < i ==> (#[trigger] best_input_for_counter@[c]) is None,
            decreases size - i,
        {
            complexities.push(0);
            highest_counts.push(0);
            best_input_for_counter.push(None);
            i = i + 1;
        }
        CounterMaximizingPool {
            name: name.to_owned(),
            size,
            complexities,
            highest_counts,
            inputs: Vec::new(),
            best_input_for_counter,
            stats: CounterMaximizingPoolStats { name: name.to_owned(), size: 0, total_counts: 0 },
            rng: rng_new(),
        }
    }

    /// The sampling weight of one live input: its score, scaled, divided by
    /// how often it was chosen.
    pub open spec fn input_weight(inp: PoolInput) -> u64 {
        let cap: int = u64::MAX as int / WEIGHT_SCALE as int;
        let scaled: int = if inp.score <= cap {
            inp.score * WEIGHT_SCALE
        } else {
            cap * WEIGHT_SCALE
        };
        let n: int = if inp.number_times_chosen >= 1 {
            inp.number_times_chosen as int
        } else {
            1
        };
        (scaled / n) as u64
    }

    /// Judges one observation against the pool's records: it is retained
    /// when it strictly beats the record, or ties it at strictly lower
    /// complexity.
    pub open spec fn beats_record(self, counter: int, intensity: u64, cplx: u64) -> bool {
        self.highest_counts@[counter] < intensity || (self.highest_counts@[counter] == intensity
            && self.complexities@[counter] > cplx)
    }

    /// Observes one (counter, intensity) pair, appending it to the state
    /// when it would displace the current record.
    pub fn observe(&self, counter: usize, intensity: u64, input_complexity: u64, state: &mut Vec<
        (usize, u64),
    >)
        requires
            self.wf(),
            counter < self.size,
        ensures
            self.beats_record(counter as int, intensity, input_complexity)
                ==> final(state)@ == old(state)@.push((counter, intensity)),
            !self.beats_record(counter as int, intensity, input_complexity) ==> final(state)@
                == old(state)@,
    {
        let record = self.highest_counts[counter];
        if record < intensity {
            state.push((counter, intensity));
        } else if record == intensity {
            if self.complexities[counter] > input_complexity {
                state.push((counter, intensity));
            }
        }
    }

    /// Adds an input that beats the records of every counter in
    /// `observation_state`: the new input becomes best for each of those
    /// counters, the displaced inputs lose them, and an input left best for
    /// nothing is removed and reported in the delta.
    #[verifier::rlimit(100)]
    #[verifier::spinoff_prover]
    pub fn add(
        &mut self,
        input_idx: PoolStorageIndex,
        complexity: u64,
        observation_state: &Vec<(usize, u64)>,
    ) -> (r: Vec<CorpusDelta>)
        requires
            old(self).wf(),
            observation_state@.len() >= 1,
            forall|i: int|
                0 <= i < observation_state@.len() ==> (#[trigger] observation_state@[i]).0
                    < old(self).size,
            forall|i: int, j: int|
                0 <= i < j < observation_state@.len() ==> (#[trigger] observation_state@[i]).0 != (
                #[trigger] observation_state@[j]).0,
        ensures
            final(self).wf(),
            final(self).size == old(self).size,
            final(self).inputs@.len() == old(self).inputs@.len() + 1,
            final(self).inputs@.last() is Some,
            (final(self).inputs@.last()->0).idx == input_idx,
            (final(self).inputs@.last()->0).cplx == complexity,
            (final(self).inputs@.last()->0).score == observation_state@.len(),
            forall|i: int|
                0 <= i < observation_state@.len() ==> {
                    let c = (#[trigger] observation_state@[i]).0 as int;
                    &&& final(self).highest_counts@[c] == observation_state@[i].1
                    &&& final(self).complexities@[c] == complexity
                    &&& final(self).best_input_for_counter@[c] == Some(
                        old(self).inputs@.len() as usize,
                    )
                },
            // counters outside the observation list keep their records
            forall|c: int|
                0 <= c < old(self).size && !obs_has_counter(observation_state@, c) ==> {
                    &&& (#[trigger] final(self).highest_counts@[c]) == old(
                        self,
                    ).highest_counts@[c]
                    &&& final(self).complexities@[c] == old(self).complexities@[c]
                    &&& final(self).best_input_for_counter@[c] == old(
                        self,
                    ).best_input_for_counter@[c]
                },
            // previously stored inputs lose exactly the observed counters;
            // one left best for nothing is removed
            forall|k: int|
                #![trigger final(self).inputs@[k]]
                0 <= k < old(self).inputs@.len() ==> {
                    &&& (old(self).inputs@[k] is None ==> final(self).inputs@[k] is None)
                    &&& (old(self).inputs@[k] is Some && final(self).inputs@[k] is Some ==> {
                        let before = old(self).inputs@[k]->0;
                        let after = final(self).inputs@[k]->0;
                        &&& after.idx == before.idx
                        &&& after.cplx == before.cplx
                        &&& after.number_times_chosen == before.number_times_chosen
                        &&& (forall|c: usize|
                            #[trigger] after.best_for_counters@.contains(c) <==> (
                            before.best_for_counters@.contains(c) && !obs_has_counter(
                                observation_state@,
                                c as int,
                            )))
                        &&& (after == before || after.score == after.best_for_counters@.len())
                    })
                    &&& (old(self).inputs@[k] is Some ==> ((final(self).inputs@[k] is None)
                        <==> (forall|j: int|
                        0 <= j < old(self).inputs@[k]->0.best_for_counters@.len()
                            ==> obs_has_counter(
                            observation_state@,
                            (#[trigger] old(self).inputs@[k]->0.best_for_counters@[j]) as int,
                        ))))
                },
            // the delta lists exactly the evicted inputs
            r@.len() == 1,
            r@[0].add == true,
            r@[0].path@ == old(self).name@,
            r@[0].remove@.len() == evicted_count(
                old(self).inputs@,
                final(self).inputs@,
                old(self).inputs@.len() as int,
            ),
            forall|t: int|
                0 <= t < r@[0].remove@.len() ==> lists_an_evicted(
                    old(self).inputs@,
                    final(self).inputs@,
                    #[trigger] r@[0].remove@[t],
                ),
            forall|k: int|
                #[trigger] evicted(old(self).inputs@, final(self).inputs@, k) ==> r@[
                    0
                ].remove@.contains(old(self).inputs@[k]->0.idx),
    {
        let ghost obs = observation_state@;
        let new_key = self.inputs.len();
        let mut bfc: Vec<usize> = Vec::new();
        let n_obs = observation_state.len();
        let mut i: usize = 0;
        while i < n_obs
            invariant
                n_obs == obs.len(),
                obs == observation_state@,
                0 <= i <= n_obs,
                bfc@.len() == i,
                forall|j: int| 0 <= j < i ==> (#[trigger] bfc@[j]) == obs[j].0,
            decreases n_obs - i,
        {
            bfc.push(observation_state[i].0);
            i = i + 1;
        }
        let input = PoolInput {
            best_for_counters: bfc,
            cplx: complexity,
            idx: input_idx,
            score: n_obs as u64,
            number_times_chosen: 1,
        };
        self.inputs.push(Some(input));
        let ghost state1 = *self;
        let mut removed_keys: Vec<usize> = Vec::new();
        let mut i: usize = 0;
        while i < n_obs
            invariant
                n_obs == obs.len(),
                obs == observation_state@,
                0 <= i <= n_obs,
                old(self).wf(),
                self.size == old(self).size,
                self.name == old(self).name,
                self.complexities@.len() == self.size,
                self.highest_counts@.len() == self.size,
                self.best_input_for_counter@.len() == self.size,
                self.inputs@.len() == old(self).inputs@.len() + 1,
                new_key == old(self).inputs@.len(),
                forall|j: int|
                    0 <= j < obs.len() ==> (#[trigger] obs[j]).0 < self.size,
                forall|j1: int, j2: int|
                    0 <= j1 < j2 < obs.len() ==> (#[trigger] obs[j1]).0 != (#[trigger] obs[j2]).0,
                // the new input's slot
                self.live(new_key as int),
                self.inputs@[new_key as int]->0.best_for_counters@.len() == obs.len(),
                forall|j: int|
                    0 <= j < obs.len() ==> (#[trigger] self.inputs@[new_key as int]
                        ->0.best_for_counters@[j]) == obs[j].0,
                self.inputs@[new_key as int]->0.idx == input_idx,
                self.inputs@[new_key as int]->0.cplx == complexity,
                self.inputs@[new_key as int]->0.score == obs.len(),
                self.inputs@[new_key as int]->0.number_times_chosen == 1,
                // processed counters point at the new input
                forall|j: int|
                    0 <= j < i ==> {
                        let c = (#[trigger] obs[j]).0 as int;
                        &&& self.highest_counts@[c] == obs[j].1
                        &&& self.complexities@[c] == complexity
                        &&& self.best_input_for_counter@[c] == Some(new_key)
                    },
                // unprocessed counters are untouched
                forall|j: int|
                    i <= j < obs.len() ==> {
                        let c = (#[trigger] obs[j]).0 as int;
                        &&& self.highest_counts@[c] == old(self).highest_counts@[c]
                        &&& self.complexities@[c] == old(self).complexities@[c]
                        &&& self.best_input_for_counter@[c]
                            == old(self).best_input_for_counter@[c]
                    },
                // counters outside the observation list are untouched
                forall|c: int|
                    0 <= c < self.size && !obs_has_counter(obs, c) ==> {
                        &&& (#[trigger] self.highest_counts@[c]) == old(self).highest_counts@[c]
                        &&& self.complexities@[c] == old(self).complexities@[c]
                        &&& self.best_input_for_counter@[c]
                            == old(self).best_input_for_counter@[c]
                    },
                // the backbone of the invariant, weakened for the new input
                forall|c: int|
                    0 <= c < self.size && self.best_input_for_counter@[c] is Some ==> {
                        let k = (#[trigger] self.best_input_for_counter@[c])->0 as int;
                        &&& self.live(k)
                        &&& self.inputs@[k]->0.best_for_counters@.contains(c as usize)
                    },
                forall|k: int|
                    #![trigger self.inputs@[k]]
                    self.live(k) && k != new_key ==> {
                        let inp = self.inputs@[k]->0;
                        &&& inp.best_for_counters@.no_duplicates()
                        &&& inp.score == inp.best_for_counters@.len() || inp.score == 0
                        &&& inp.number_times_chosen >= 1
                        &&& forall|j: int|
                            0 <= j < inp.best_for_counters@.len() ==> {
                                let c = #[trigger] inp.best_for_counters@[j] as int;
                                &&& 0 <= c < self.size
                                &&& self.best_input_for_counter@[c] == Some(k as usize)
                            }
                    },
                // emptied inputs are collected for removal
                forall|k: int|
                    #![trigger self.inputs@[k]]
                    self.live(k) && k != new_key && self.inputs@[k]->0.best_for_counters@.len()
                        == 0 ==> removed_keys@.contains(k as usize),
                forall|j: int|
                    0 <= j < removed_keys@.len() ==> {
                        let k = (#[trigger] removed_keys@[j]) as int;
                        &&& self.live(k)
                        &&& k != new_key
                        &&& self.inputs@[k]->0.best_for_counters@.len() == 0
                    },
                removed_keys@.no_duplicates(),
                // the processing phase only trims counter lists
                forall|k: int|
                    #![trigger self.inputs@[k]]
                    0 <= k < new_key ==> (self.inputs@[k] is Some <==> old(self).inputs@[k]
                        is Some),
                forall|k: int|
                    #![trigger self.inputs@[k]]
                    0 <= k < new_key && self.live(k) ==> {
                        let before = old(self).inputs@[k]->0;
                        let after = self.inputs@[k]->0;
                        &&& after.idx == before.idx
                        &&& after.cplx == before.cplx
                        &&& after.number_times_chosen == before.number_times_chosen
                        &&& (forall|c: usize|
                            #[trigger] after.best_for_counters@.contains(c) <==> (
                            before.best_for_counters@.contains(c) && !obs_prefix_has_counter(
                                obs,
                                i as int,
                                c as int,
                            )))
                        &&& (after == before || after.score == after.best_for_counters@.len())
                    },
            decreases n_obs - i,
        {
            let ghost pre = *self;
            let ghost rk0 = removed_keys@;
            let counter = observation_state[i].0;
            let intensity = observation_state[i].1;
            proof {
                assert(counter == obs[i as int].0);
                assert((counter as int) < self.size);
            }
            let cel = &mut self.complexities[counter];
            *cel = complexity;
            let hel = &mut self.highest_counts[counter];
            *hel = intensity;
            let prev = self.best_input_for_counter[counter];
            let ghost prev_was = prev;
            match prev {
                Some(prev_key) => {
                    proof {
                        // the counter was unprocessed, so its best is the
                        // previous one, whose key is below the new slot
                        assert(self.best_input_for_counter@[counter as int] == old(
                            self,
                        ).best_input_for_counter@[counter as int]);
                        assert(old(self).live(prev_key as int));
                        assert((prev_key as int) < new_key);
                        assert(self.live(prev_key as int));
                        assert(self.inputs@[prev_key as int]->0.best_for_counters@.contains(
                            counter,
                        ));
                        assert(self.inputs@[prev_key as int]->0.best_for_counters@.no_duplicates());
                    }
                    let emptied = Self::drop_counter_from(&mut self.inputs, prev_key, counter);
                    if emptied {
                        let mut already = false;
                        let nrk = removed_keys.len();
                        let mut q: usize = 0;
                        while q < nrk
                            invariant
                                nrk == removed_keys@.len(),
                                0 <= q <= nrk,
                                already == exists|t: int|
                                    0 <= t < q && (#[trigger] removed_keys@[t]) == prev_key,
                            decreases nrk - q,
                        {
                            if removed_keys[q] == prev_key {
                                already = true;
                            }
                            q = q + 1;
                        }
                        if !already {
                            removed_keys.push(prev_key);
                        }
                        proof {
                            assert(removed_keys@.contains(prev_key)) by {
                                if !already {
                                    assert(removed_keys@.last() == prev_key);
                                }
                            }
                        }
                    }
                    proof {
                        assert(self.inputs@[prev_key as int]->0.best_for_counters@.len() == 0
                            ==> removed_keys@.contains(prev_key));
                        assert(prev_was is Some && prev_was->0 == prev_key);
                    }
                },
                None => {
                },
            }
            let bel = &mut self.best_input_for_counter[counter];
            *bel = Some(new_key);
            proof {
                let cc = counter as int;
                // frames: only the processed counter's records moved, and
                // only the displaced input's slot changed
                assert(self.complexities@ =~= pre.complexities@.update(cc, complexity));
                assert(self.highest_counts@ =~= pre.highest_counts@.update(cc, intensity));
                assert(self.best_input_for_counter@ =~= pre.best_input_for_counter@.update(
                    cc,
                    Some(new_key),
                ));
                assert(forall|j1: int, j2: int|
                    0 <= j1 < obs.len() && 0 <= j2 < obs.len() && j1 != j2 ==> (#[trigger] obs[j1]).0
                        != (#[trigger] obs[j2]).0);
                assert(obs_has_counter(obs, cc)) by {
                    assert(obs[i as int].0 == counter);
                }
                // the new input's slot is untouched
                assert(self.inputs@[new_key as int] == pre.inputs@[new_key as int]) by {
                    if prev_was is Some {
                        assert((prev_was->0 as int) < new_key);
                    }
                }
                assert(self.inputs@[new_key as int]->0.best_for_counters@[i as int] == counter);
                assert(self.inputs@[new_key as int]->0.best_for_counters@.contains(counter));
                // backbone, case by case
                assert forall|c: int|
                    0 <= c < self.size && self.best_input_for_counter@[c] is Some implies {
                        let k = (#[trigger] self.best_input_for_counter@[c])->0 as int;
                        &&& self.live(k)
                        &&& self.inputs@[k]->0.best_for_counters@.contains(c as usize)
                    } by {
                    let k = (self.best_input_for_counter@[c])->0 as int;
                    if c == cc {
                        assert(k == new_key);
                    } else {
                        assert(self.best_input_for_counter@[c] == pre.best_input_for_counter@[c]);
                        assert(pre.live(k));
                        if prev_was is Some && k == prev_was->0 {
                            assert(pre.inputs@[k]->0.best_for_counters@.contains(c as usize));
                            assert(c as usize != counter);
                            assert(self.inputs@[k]->0.best_for_counters@.contains(c as usize));
                        } else {
                            assert(self.inputs@[k] == pre.inputs@[k]);
                        }
                    }
                }
                // the per-input clauses for the old inputs
                assert forall|k: int|
                    #![trigger self.inputs@[k]]
                    self.live(k) && k != new_key implies {
                        let inp = self.inputs@[k]->0;
                        &&& inp.best_for_counters@.no_duplicates()
                        &&& inp.score == inp.best_for_counters@.len() || inp.score == 0
                        &&& inp.number_times_chosen >= 1
                        &&& forall|j: int|
                            0 <= j < inp.best_for_counters@.len() ==> {
                                let c = #[trigger] inp.best_for_counters@[j] as int;
                                &&& 0 <= c < self.size
                                &&& self.best_input_for_counter@[c] == Some(k as usize)
                            }
                    } by {
                    assert(pre.live(k));
                    let inp = self.inputs@[k]->0;
                    assert forall|j: int| 0 <= j < inp.best_for_counters@.len() implies {
                        let c = #[trigger] inp.best_for_counters@[j] as int;
                        &&& 0 <= c < self.size
                        &&& self.best_input_for_counter@[c] == Some(k as usize)
                    } by {
                        let c = inp.best_for_counters@[j] as int;
                        assert(inp.best_for_counters@.contains(inp.best_for_counters@[j]));
                        if prev_was is Some && k == prev_was->0 {
                            assert(pre.inputs@[k]->0.best_for_counters@.contains(c as usize));
                            assert(c as usize != counter);
                            assert(pre.best_input_for_counter@[c] == Some(k as usize));
                        } else {
                            assert(self.inputs@[k] == pre.inputs@[k]);
                            assert(pre.inputs@[k]->0.best_for_counters@.contains(c as usize));
                            assert(pre.best_input_for_counter@[c] == Some(k as usize));
                            assert(c != cc) by {
                                if c == cc {
                                    assert(pre.best_input_for_counter@[cc] == Some(k as usize));
                                    if prev_was is Some {
                                        assert(prev_was->0 == k as usize);
                                    }
                                }
                            }
                        }
                    }
                }
                // the removal collection stays consistent: the only input
                // whose counters shrank is the displaced one
                assert(rk0.len() <= removed_keys@.len());
                assert(forall|t: int| 0 <= t < rk0.len() ==> removed_keys@[t] == rk0[t]);
                assert forall|k: int|
                    #![trigger self.inputs@[k]]
                    self.live(k) && k != new_key && self.inputs@[k]->0.best_for_counters@.len()
                        == 0 implies removed_keys@.contains(k as usize) by {
                    if prev_was is Some && k == prev_was->0 as int {
                    } else {
                        assert(self.inputs@[k] == pre.inputs@[k]);
                        assert(pre.live(k));
                        assert(rk0.contains(k as usize));
                        let t = choose|t: int| 0 <= t < rk0.len() && rk0[t] == (k as usize);
                        assert(removed_keys@[t] == (k as usize));
                    }
                }
                assert forall|j: int| 0 <= j < removed_keys@.len() implies {
                    let k = (#[trigger] removed_keys@[j]) as int;
                    &&& self.live(k)
                    &&& k != new_key
                    &&& self.inputs@[k]->0.best_for_counters@.len() == 0
                } by {
                    let k = (removed_keys@[j]) as int;
                    if j < rk0.len() {
                        assert(rk0[j] == removed_keys@[j]);
                        assert(pre.live(k));
                        assert(pre.inputs@[k]->0.best_for_counters@.len() == 0);
                        assert(k != new_key);
                        if prev_was is Some && k == prev_was->0 as int {
                            // impossible: the displaced input listed the
                            // counter, so it was not empty before
                            assert(pre.inputs@[k]->0.best_for_counters@.contains(counter));
                            assert(false);
                        }
                        assert(self.inputs@[k] == pre.inputs@[k]);
                    }
                }
                // the vs-original bookkeeping of the old slots
                assert forall|k: int|
                    #![trigger self.inputs@[k]]
                    0 <= k < new_key && self.live(k) implies {
                    let before = old(self).inputs@[k]->0;
                    let after = self.inputs@[k]->0;
                    &&& after.idx == before.idx
                    &&& after.cplx == before.cplx
                    &&& after.number_times_chosen == before.number_times_chosen
                    &&& (forall|c: usize|
                        #[trigger] after.best_for_counters@.contains(c) <==> (
                        before.best_for_counters@.contains(c) && !obs_prefix_has_counter(
                            obs,
                            i + 1,
                            c as int,
                        )))
                    &&& (after == before || after.score == after.best_for_counters@.len())
                } by {
                    assert(pre.live(k));
                    let before = old(self).inputs@[k]->0;
                    let mid = pre.inputs@[k]->0;
                    let after = self.inputs@[k]->0;
                    if prev_was is Some && k == prev_was->0 as int {
                        assert forall|c: usize| #[trigger]
                            after.best_for_counters@.contains(c) <==> (
                        before.best_for_counters@.contains(c) && !obs_prefix_has_counter(
                            obs,
                            i + 1,
                            c as int,
                        )) by {
                            assert(obs[i as int].0 == counter);
                            assert(obs_prefix_has_counter(obs, i + 1, counter as int));
                            if c != counter {
                                assert(obs_prefix_has_counter(obs, i + 1, c as int)
                                    == obs_prefix_has_counter(obs, i as int, c as int)) by {
                                    if obs_prefix_has_counter(obs, i + 1, c as int) {
                                        let j = choose|j: int|
                                            0 <= j < i + 1 && j < obs.len() && (#[trigger] obs[j]).0
                                                == c;
                                        if j < i {
                                            assert(obs_prefix_has_counter(obs, i as int, c as int));
                                        }
                                    }
                                }
                            }
                        }
                    } else {
                        assert(after == mid);
                        assert forall|c: usize| #[trigger]
                            after.best_for_counters@.contains(c) <==> (
                        before.best_for_counters@.contains(c) && !obs_prefix_has_counter(
                            obs,
                            i + 1,
                            c as int,
                        )) by {
                            if c == counter {
                                // the processed counter belonged to its
                                // previous best, which this slot is not
                                assert(obs_prefix_has_counter(obs, i + 1, counter as int)) by {
                                    assert(obs[i as int].0 == counter);
                                }
                                if mid.best_for_counters@.contains(counter) {
                                    assert(before.best_for_counters@.contains(counter));
                                    assert(!obs_prefix_has_counter(obs, i as int, counter as int));
                                    assert(pre.best_input_for_counter@[counter as int] == old(
                                        self,
                                    ).best_input_for_counter@[counter as int]);
                                    assert(old(self).wf());
                                    assert(old(self).best_input_for_counter@[counter as int]
                                        == Some(k as usize)) by {
                                        let j = choose|j: int|
                                            0 <= j < before.best_for_counters@.len() && (
                                            #[trigger] before.best_for_counters@[j]) == counter;
                                        assert(old(self).inputs@[k]
                                            ->0.best_for_counters@[j] == counter);
                                    }
                                    assert(prev_was is Some && prev_was->0 == k as usize);
                                    assert(false);
                                }
                            } else {
                                assert(obs_prefix_has_counter(obs, i + 1, c as int)
                                    == obs_prefix_has_counter(obs, i as int, c as int)) by {
                                    if obs_prefix_has_counter(obs, i + 1, c as int) {
                                        let j = choose|j: int|
                                            0 <= j < i + 1 && j < obs.len() && (#[trigger] obs[j]).0
                                                == c;
                                        if j < i {
                                            assert(obs_prefix_has_counter(obs, i as int, c as int));
                                        }
                                    }
                                }
                            }
                        }
                    }
                }
            }
            i = i + 1;
        }
        proof {
            assert(self.inputs@[new_key as int]->0.best_for_counters@.no_duplicates()) by {
                let bv = self.inputs@[new_key as int]->0.best_for_counters@;
                assert(forall|j1: int, j2: int|
                    0 <= j1 < j2 < bv.len() ==> bv[j1] != bv[j2]);
            }
        }
        proof {
            // a counter processed by the whole pass is an observed counter
            assert forall|c: int| #[trigger]
                obs_prefix_has_counter(obs, n_obs as int, c) == obs_has_counter(obs, c) by {
                if obs_has_counter(obs, c) {
                    let j = choose|j: int| 0 <= j < obs.len() && (#[trigger] obs[j]).0 == c;
                    assert(obs_prefix_has_counter(obs, n_obs as int, c));
                }
            }
            lemma_evicted_count_zero(old(self).inputs@, self.inputs@, new_key as int);
        }
        let ghost mid = *self;
        // remove the inputs that are no longer best for anything
        let mut removed_idxs: Vec<PoolStorageIndex> = Vec::new();
        let nrk = removed_keys.len();
        let mut q: usize = 0;
        while q < nrk
            invariant
                nrk == removed_keys@.len(),
                0 <= q <= nrk,
                removed_idxs@.len() == q,
                removed_keys@.no_duplicates(),
                // vs the state after processing and vs the original
                mid.inputs@.len() == self.inputs@.len(),
                forall|k: int|
                    #![trigger self.inputs@[k]]
                    0 <= k < self.inputs@.len() ==> (self.inputs@[k] == mid.inputs@[k] || (
                    self.inputs@[k] is None && removed_keys@.take(q as int).contains(k as usize))),
                forall|t: int|
                    0 <= t < q ==> self.inputs@[(#[trigger] removed_keys@[t]) as int] is None,
                evicted_count(old(self).inputs@, self.inputs@, new_key as int) == q,
                forall|t: int|
                    0 <= t < q ==> (#[trigger] removed_idxs@[t]) == old(self).inputs@[removed_keys@[
                        t
                    ] as int]->0.idx,
                old(self).wf(),
                forall|k: int|
                    #![trigger mid.inputs@[k]]
                    0 <= k < new_key ==> (mid.inputs@[k] is Some <==> old(self).inputs@[k]
                        is Some),
                mid.inputs@.len() == old(self).inputs@.len() + 1,
                // the processing phase's outcome for the old slots
                forall|k: int|
                    #![trigger mid.inputs@[k]]
                    0 <= k < new_key && mid.inputs@[k] is Some ==> {
                        let before = old(self).inputs@[k]->0;
                        let after = mid.inputs@[k]->0;
                        &&& after.idx == before.idx
                        &&& after.cplx == before.cplx
                        &&& after.number_times_chosen == before.number_times_chosen
                        &&& (forall|c: usize|
                            #[trigger] after.best_for_counters@.contains(c) <==> (
                            before.best_for_counters@.contains(c) && !obs_has_counter(
                                obs,
                                c as int,
                            )))
                        &&& (after == before || after.score == after.best_for_counters@.len())
                    },
                // what the collection list says about the processed state
                forall|t: int|
                    0 <= t < removed_keys@.len() ==> {
                        let k = (#[trigger] removed_keys@[t]) as int;
                        &&& 0 <= k < new_key
                        &&& mid.inputs@[k] is Some
                        &&& mid.inputs@[k]->0.best_for_counters@.len() == 0
                    },
                forall|k: int|
                    #![trigger mid.inputs@[k]]
                    0 <= k < new_key && mid.inputs@[k] is Some && mid.inputs@[k]
                        ->0.best_for_counters@.len() == 0 ==> removed_keys@.contains(k as usize),
                self.size == old(self).size,
                self.name == old(self).name,
                self.complexities@.len() == self.size,
                self.highest_counts@.len() == self.size,
                self.best_input_for_counter@.len() == self.size,
                self.inputs@.len() == old(self).inputs@.len() + 1,
                new_key == old(self).inputs@.len(),
                self.live(new_key as int),
                self.inputs@[new_key as int]->0.best_for_counters@.len() == obs.len(),
                obs.len() >= 1,
                forall|j: int|
                    0 <= j < obs.len() ==> (#[trigger] self.inputs@[new_key as int]
                        ->0.best_for_counters@[j]) == obs[j].0,
                forall|j: int| 0 <= j < obs.len() ==> (#[trigger] obs[j]).0 < self.size,
                self.inputs@[new_key as int]->0.best_for_counters@.no_duplicates(),
                self.inputs@[new_key as int]->0.idx == input_idx,
                self.inputs@[new_key as int]->0.cplx == complexity,
                self.inputs@[new_key as int]->0.score == obs.len(),
                self.inputs@[new_key as int]->0.number_times_chosen == 1,
                forall|j: int|
                    0 <= j < obs.len() ==> {
                        let c = (#[trigger] obs[j]).0 as int;
                        &&& self.highest_counts@[c] == obs[j].1
                        &&& self.complexities@[c] == complexity
                        &&& self.best_input_for_counter@[c] == Some(new_key)
                    },
                forall|c: int|
                    0 <= c < self.size && !obs_has_counter(obs, c) ==> {
                        &&& (#[trigger] self.highest_counts@[c]) == old(self).highest_counts@[c]
                        &&& self.complexities@[c] == old(self).complexities@[c]
                        &&& self.best_input_for_counter@[c]
                            == old(self).best_input_for_counter@[c]
                    },
                forall|c: int|
                    0 <= c < self.size && self.best_input_for_counter@[c] is Some ==> {
                        let k = (#[trigger] self.best_input_for_counter@[c])->0 as int;
                        &&& self.live(k)
                        &&& self.inputs@[k]->0.best_for_counters@.contains(c as usize)
                    },
                forall|k: int|
                    #![trigger self.inputs@[k]]
                    self.live(k) && k != new_key ==> {
                        let inp = self.inputs@[k]->0;
                        &&& inp.best_for_counters@.no_duplicates()
                        &&& inp.score == inp.best_for_counters@.len() || inp.score == 0
                        &&& inp.number_times_chosen >= 1
                        &&& forall|j: int|
                            0 <= j < inp.best_for_counters@.len() ==> {
                                let c = #[trigger] inp.best_for_counters@[j] as int;
                                &&& 0 <= c < self.size
                                &&& self.best_input_for_counter@[c] == Some(k as usize)
                            }
                    },
                // keys still waiting for removal are live and empty
                forall|j: int|
                    q <= j < removed_keys@.len() ==> {
                        let k = (#[trigger] removed_keys@[j]) as int;
                        &&& self.live(k)
                        &&& k != new_key
                        &&& self.inputs@[k]->0.best_for_counters@.len() == 0
                    },
                // every live empty input is still waiting for removal
                forall|k: int|
                    #![trigger self.inputs@[k]]
                    self.live(k) && k != new_key && self.inputs@[k]->0.best_for_counters@.len()
                        == 0 ==> exists|j: int|
                        q <= j < removed_keys@.len() && (#[trigger] removed_keys@[j]) == k,
            decreases nrk - q,
        {
            let key = removed_keys[q];
            let ghost pre = *self;
            let slot = &mut self.inputs[key];
            let idx = match slot {
                Some(inp) => inp.idx,
                None => {
                    proof {
                        assert(false);
                    }
                    PoolStorageIndex(0)
                },
            };
            *slot = None;
            removed_idxs.push(idx);
            proof {
                assert(self.inputs@ =~= pre.inputs@.update(key as int, None));
                assert forall|j: int| q + 1 <= j < removed_keys@.len() implies {
                    let k = (#[trigger] removed_keys@[j]) as int;
                    &&& self.live(k)
                    &&& k != new_key
                    &&& self.inputs@[k]->0.best_for_counters@.len() == 0
                } by {
                    assert(removed_keys@[j] != removed_keys@[q as int]);
                }
                // eviction accounting: one more live slot cleared
                assert(pre.inputs@[key as int] == mid.inputs@[key as int]) by {
                    if removed_keys@.take(q as int).contains(key) {
                        let t = choose|t: int|
                            0 <= t < q && (#[trigger] removed_keys@.take(q as int)[t]) == key;
                        assert(removed_keys@[t] == removed_keys@[q as int]);
                        assert(false);
                    }
                }
                assert(mid.inputs@[key as int] is Some);
                assert(old(self).inputs@[key as int] is Some);
                lemma_evicted_count_step(old(self).inputs@, pre.inputs@, new_key as int, key as int);
                assert(idx == old(self).inputs@[key as int]->0.idx);
                assert forall|k: int|
                    #![trigger self.inputs@[k]]
                    0 <= k < self.inputs@.len() implies (self.inputs@[k] == mid.inputs@[k] || (
                self.inputs@[k] is None && removed_keys@.take(q + 1).contains(k as usize))) by {
                    if k == key as int {
                        assert(removed_keys@.take(q + 1)[q as int] == key);
                        assert(removed_keys@.take(q + 1).contains(key));
                    } else {
                        if self.inputs@[k] is None && removed_keys@.take(q as int).contains(
                            k as usize,
                        ) {
                            let t = choose|t: int|
                                0 <= t < q && (#[trigger] removed_keys@.take(q as int)[t]) == (
                                k as usize);
                            assert(removed_keys@.take(q + 1)[t] == (k as usize));
                            assert(removed_keys@.take(q + 1).contains(k as usize));
                        }
                    }
                }
            }
            q = q + 1;
        }
        self.update_stats();
        proof {
            assert forall|k: int|
                #![trigger self.inputs@[k]]
                self.live(k) implies {
                let inp = self.inputs@[k]->0;
                &&& inp.best_for_counters@.len() >= 1
                &&& inp.best_for_counters@.no_duplicates()
                &&& inp.score == inp.best_for_counters@.len() || inp.score == 0
                &&& inp.number_times_chosen >= 1
                &&& forall|j: int|
                    0 <= j < inp.best_for_counters@.len() ==> {
                        let c = #[trigger] inp.best_for_counters@[j] as int;
                        &&& 0 <= c < self.size
                        &&& self.best_input_for_counter@[c] == Some(k as usize)
                    }
            } by {
                if k == new_key {
                    let inp = self.inputs@[k]->0;
                    assert forall|j: int| 0 <= j < inp.best_for_counters@.len() implies {
                        let c = #[trigger] inp.best_for_counters@[j] as int;
                        &&& 0 <= c < self.size
                        &&& self.best_input_for_counter@[c] == Some(k as usize)
                    } by {
                        assert(inp.best_for_counters@[j] == obs[j].0);
                    }
                }
            }
            assert(self.wf());
            // assemble the per-input and delta clauses of the contract
            let nk = new_key as int;
            assert forall|k: int|
                #![trigger self.inputs@[k]]
                0 <= k < old(self).inputs@.len() implies {
                &&& (old(self).inputs@[k] is None ==> self.inputs@[k] is None)
                &&& (old(self).inputs@[k] is Some && self.inputs@[k] is Some ==> {
                    let before = old(self).inputs@[k]->0;
                    let after = self.inputs@[k]->0;
                    &&& after.idx == before.idx
                    &&& after.cplx == before.cplx
                    &&& after.number_times_chosen == before.number_times_chosen
                    &&& (forall|c: usize|
                        #[trigger] after.best_for_counters@.contains(c) <==> (
                        before.best_for_counters@.contains(c) && !obs_has_counter(obs, c as int)))
                    &&& (after == before || after.score == after.best_for_counters@.len())
                })
                &&& (old(self).inputs@[k] is Some ==> ((self.inputs@[k] is None) <==> (forall|
                    j: int,
                |
                    0 <= j < old(self).inputs@[k]->0.best_for_counters@.len() ==> obs_has_counter(
                        obs,
                        (#[trigger] old(self).inputs@[k]->0.best_for_counters@[j]) as int,
                    ))))
            } by {
                if old(self).inputs@[k] is None {
                    assert(mid.inputs@[k] is None);
                    assert(self.inputs@[k] == mid.inputs@[k] || self.inputs@[k] is None);
                }
                if old(self).inputs@[k] is Some {
                    assert(mid.inputs@[k] is Some);
                    let before = old(self).inputs@[k]->0;
                    let midv = mid.inputs@[k]->0;
                    if self.inputs@[k] is Some {
                        assert(self.inputs@[k] == mid.inputs@[k]);
                    }
                    // the two directions of the eviction criterion
                    if self.inputs@[k] is None {
                        assert(removed_keys@.take(nrk as int).contains(k as usize));
                        let t = choose|t: int|
                            0 <= t < nrk && (#[trigger] removed_keys@.take(nrk as int)[t]) == (
                            k as usize);
                        assert(removed_keys@[t] == (k as usize));
                        assert(midv.best_for_counters@.len() == 0);
                        assert forall|j: int|
                            0 <= j < before.best_for_counters@.len() implies obs_has_counter(
                            obs,
                            (#[trigger] before.best_for_counters@[j]) as int,
                        ) by {
                            let c = before.best_for_counters@[j];
                            assert(before.best_for_counters@.contains(c));
                            if !obs_has_counter(obs, c as int) {
                                assert(midv.best_for_counters@.contains(c));
                            }
                        }
                    } else {
                        assert(self.inputs@[k] == mid.inputs@[k]);
                        if forall|j: int|
                            0 <= j < before.best_for_counters@.len() ==> obs_has_counter(
                                obs,
                                (#[trigger] before.best_for_counters@[j]) as int,
                            ) {
                            // every counter gone: the list is empty, so the
                            // slot was collected and cleared
                            assert(midv.best_for_counters@.len() == 0) by {
                                if midv.best_for_counters@.len() > 0 {
                                    let c = midv.best_for_counters@[0];
                                    assert(midv.best_for_counters@.contains(c));
                                    assert(before.best_for_counters@.contains(c));
                                    assert(!obs_has_counter(obs, c as int));
                                    let j = choose|j: int|
                                        0 <= j < before.best_for_counters@.len() && (
                                        #[trigger] before.best_for_counters@[j]) == c;
                                    assert(obs_has_counter(obs, c as int));
                                }
                            }
                            assert(removed_keys@.contains(k as usize));
                            let t = choose|t: int|
                                0 <= t < removed_keys@.len() && (#[trigger] removed_keys@[t]) == (
                                k as usize);
                            assert(self.inputs@[(removed_keys@[t]) as int] is None);
                            assert(false);
                        }
                    }
                }
            }
            assert(removed_idxs@.len() == evicted_count(
                old(self).inputs@,
                self.inputs@,
                old(self).inputs@.len() as int,
            ));
            assert forall|t: int| 0 <= t < removed_idxs@.len() implies exists|k: int|
                evicted(old(self).inputs@, self.inputs@, k) && (#[trigger] removed_idxs@[t]) == old(
                self,
            ).inputs@[k]->0.idx by {
                let k = removed_keys@[t] as int;
                assert(mid.inputs@[k] is Some);
                assert(old(self).inputs@[k] is Some);
                assert(self.inputs@[(removed_keys@[t]) as int] is None);
                assert(evicted(old(self).inputs@, self.inputs@, k));
                assert(removed_idxs@[t] == old(self).inputs@[k]->0.idx);
            }
            assert forall|k: int| #[trigger]
                evicted(old(self).inputs@, self.inputs@, k) implies exists|t: int|
                0 <= t < removed_idxs@.len() && (#[trigger] removed_idxs@[t]) == old(
                self,
            ).inputs@[k]->0.idx by {
                assert(mid.inputs@[k] is Some);
                assert(self.inputs@[k] == mid.inputs@[k] || (self.inputs@[k] is None
                    && removed_keys@.take(nrk as int).contains(k as usize)));
                assert(removed_keys@.take(nrk as int).contains(k as usize));
                let t = choose|t: int|
                    0 <= t < nrk && (#[trigger] removed_keys@.take(nrk as int)[t]) == (k as usize);
                assert(removed_keys@[t] == (k as usize));
                assert(removed_idxs@[t] == old(self).inputs@[k]->0.idx);
            }
        }
        let ghost ridx = removed_idxs@;
        let delta = CorpusDelta { path: self.name.clone(), add: true, remove: removed_idxs };
        let mut out: Vec<CorpusDelta> = Vec::new();
        out.push(delta);
        proof {
            assert(out@[0].remove@ == ridx);
            assert forall|t: int| 0 <= t < ridx.len() implies lists_an_evicted(
                old(self).inputs@,
                self.inputs@,
                #[trigger] ridx[t],
            ) by {
                let k = removed_keys@[t] as int;
                assert(ridx[t] == old(self).inputs@[k]->0.idx);
                assert(self.inputs@[(removed_keys@[t]) as int] is None);
                assert(mid.inputs@[k] is Some);
                assert(old(self).inputs@[k] is Some);
                assert(evicted(old(self).inputs@, self.inputs@, k));
            }
            assert forall|t: int| 0 <= t < out@[0].remove@.len() implies lists_an_evicted(
                old(self).inputs@,
                self.inputs@,
                #[trigger] out@[0].remove@[t],
            ) by {
                assert(out@[0].remove@[t] == ridx[t]);
                assert(lists_an_evicted(old(self).inputs@, self.inputs@, ridx[t]));
            }
        }
        out
    }

    /// Removes `counter` from the listed counters of the input at `key`;
    /// reports whether the list became empty.
    fn drop_counter_from(
        inputs: &mut Vec<Option<PoolInput>>,
        key: usize,
        counter: usize,
    ) -> (emptied: bool)
        requires
            (key as int) < old(inputs)@.len(),
            old(inputs)@[key as int] is Some,
            old(inputs)@[key as int]->0.best_for_counters@.contains(counter),
            old(inputs)@[key as int]->0.best_for_counters@.no_duplicates(),
        ensures
            final(inputs)@.len() == old(inputs)@.len(),
            forall|k: int|
                0 <= k < old(inputs)@.len() && k != key ==> final(inputs)@[k] == old(inputs)@[k],
            final(inputs)@[key as int] is Some,
            final(inputs)@[key as int]->0.best_for_counters@.len() == old(
                inputs,
            )@[key as int]->0.best_for_counters@.len() - 1,
            forall|x: usize|
                #[trigger] final(inputs)@[key as int]->0.best_for_counters@.contains(x) <==> (old(
                    inputs,
                )@[key as int]->0.best_for_counters@.contains(x) && x != counter),
            final(inputs)@[key as int]->0.best_for_counters@.no_duplicates(),
            final(inputs)@[key as int]->0.idx == old(inputs)@[key as int]->0.idx,
            final(inputs)@[key as int]->0.cplx == old(inputs)@[key as int]->0.cplx,
            final(inputs)@[key as int]->0.number_times_chosen
                == old(inputs)@[key as int]->0.number_times_chosen,
            final(inputs)@[key as int]->0.score
                == final(inputs)@[key as int]->0.best_for_counters@.len(),
            emptied == (final(inputs)@[key as int]->0.best_for_counters@.len() == 0),
    {
        let slot = &mut inputs[key];
        match slot {
            Some(inp) => {
                let n = inp.best_for_counters.len();
                let mut pos: usize = 0;
                let mut found = false;
                let mut j: usize = 0;
                while j < n
                    invariant
                        n == inp.best_for_counters@.len(),
                        0 <= j <= n,
                        found ==> pos < j && inp.best_for_counters@[pos as int] == counter,
                        !found ==> forall|t: int|
                            0 <= t < j ==> (#[trigger] inp.best_for_counters@[t]) != counter,
                    decreases n - j,
                {
                    if inp.best_for_counters[j] == counter {
                        found = true;
                        pos = j;
                    }
                    j = j + 1;
                }
                proof {
                    assert(found);
                }
                proof {
                    lemma_remove_at_membership(inp.best_for_counters@, pos as int);
                }
                inp.best_for_counters.remove(pos);
                let newlen = inp.best_for_counters.len() as u64;
                inp.score = newlen;
                let emptied = inp.best_for_counters.len() == 0;
                emptied
            },
            None => {
                proof {
                    assert(false);
                }
                false
            },
        }
    }

    /// Recomputes the displayed statistics: the number of live inputs and
    /// the sum of the recorded counter values, saturating.
    pub fn update_stats(&mut self)
        ensures
            final(self).inputs@ == old(self).inputs@,
            final(self).best_input_for_counter@ == old(self).best_input_for_counter@,
            final(self).highest_counts@ == old(self).highest_counts@,
            final(self).complexities@ == old(self).complexities@,
            final(self).size == old(self).size,
            final(self).name == old(self).name,
            final(self).wf() == old(self).wf(),
    {
        let mut live_count: usize = 0;
        let n = self.inputs.len();
        let mut k: usize = 0;
        while k < n
            invariant
                n == self.inputs@.len(),
                0 <= k <= n,
                live_count <= k,
            decreases n - k,
        {
            match &self.inputs[k] {
                Some(_) => {
                    live_count = live_count + 1;
                },
                None => {
                },
            }
            k = k + 1;
        }
        let mut total: u64 = 0;
        let m = self.highest_counts.len();
        let mut c: usize = 0;
        while c < m
            invariant
                m == self.highest_counts@.len(),
                0 <= c <= m,
            decreases m - c,
        {
            let v = self.highest_counts[c];
            total = if total <= u64::MAX - v {
                total + v
            } else {
                u64::MAX
            };
            c = c + 1;
        }
        self.stats = CounterMaximizingPoolStats {
            name: self.name.clone(),
            size: live_count,
            total_counts: total,
        };
    }

    /// Forces the score of the input stored under `idx` to zero, so that it
    /// is never sampled again while it still occupies its counter slots.
    /// The first stored input under that index is struck; everything else
    /// is untouched.
    pub fn mark_test_case_as_dead_end(&mut self, idx: PoolStorageIndex)
        requires
            old(self).wf(),
        ensures
            final(self).wf(),
            final(self).size == old(self).size,
            final(self).name == old(self).name,
            final(self).complexities@ == old(self).complexities@,
            final(self).highest_counts@ == old(self).highest_counts@,
            final(self).best_input_for_counter@ == old(self).best_input_for_counter@,
            (match first_live_with_idx(old(self).inputs@, idx, 0) {
                Option::Some(k0) => {
                    &&& final(self).inputs@.len() == old(self).inputs@.len()
                    &&& final(self).inputs@[k0] is Some
                    &&& (final(self).inputs@[k0]->0).score == 0
                    &&& (final(self).inputs@[k0]->0).best_for_counters == (old(
                        self,
                    ).inputs@[k0]->0).best_for_counters
                    &&& (final(self).inputs@[k0]->0).idx == (old(self).inputs@[k0]->0).idx
                    &&& (final(self).inputs@[k0]->0).cplx == (old(self).inputs@[k0]->0).cplx
                    &&& (final(self).inputs@[k0]->0).number_times_chosen == (old(
                        self,
                    ).inputs@[k0]->0).number_times_chosen
                    &&& forall|k: int|
                        0 <= k < old(self).inputs@.len() && k != k0 ==> (
                        #[trigger] final(self).inputs@[k]) == old(self).inputs@[k]
                },
                Option::None => final(self).inputs@ == old(self).inputs@,
            }),
    {
        let n = self.inputs.len();
        let mut k: usize = 0;
        while k < n
            invariant
                old(self).wf(),
                self.inputs@ == old(self).inputs@,
                self.name == old(self).name,
                self.size == old(self).size,
                self.complexities == old(self).complexities,
                self.highest_counts == old(self).highest_counts,
                self.best_input_for_counter == old(self).best_input_for_counter,
                self.rng == old(self).rng,
                self.stats == old(self).stats,
                n == self.inputs@.len(),
                0 <= k <= n,
                first_live_with_idx(old(self).inputs@, idx, 0) == first_live_with_idx(
                    old(self).inputs@,
                    idx,
                    k as int,
                ),
            decreases n - k,
        {
            let ghost pre = *self;
            let mut done = false;
            let slot = &mut self.inputs[k];
            match slot {
                Some(inp) => {
                    if inp.idx == idx {
                        inp.score = 0;
                        done = true;
                    }
                },
                None => {
                },
            }
            proof {
                assert(self.inputs@ =~= pre.inputs@.update(k as int, self.inputs@[k as int]));
                if !done {
                    assert(self.inputs@[k as int] == pre.inputs@[k as int]);
                    assert(self.inputs@ =~= pre.inputs@);
                }
            }
            if done {
                proof {
                    assert(first_live_with_idx(old(self).inputs@, idx, k as int) == Some(
                        k as int,
                    ));
                    assert forall|kk: int| self.live(kk) implies {
                        let inp = self.inputs@[kk]->0;
                        &&& inp.best_for_counters@.len() >= 1
                        &&& inp.best_for_counters@.no_duplicates()
                        &&& inp.score == inp.best_for_counters@.len() || inp.score == 0
                        &&& inp.number_times_chosen >= 1
                        &&& forall|j: int|
                            0 <= j < inp.best_for_counters@.len() ==> {
                                let c = #[trigger] inp.best_for_counters@[j] as int;
                                &&& 0 <= c < self.size
                                &&& self.best_input_for_counter@[c] == Some(kk as usize)
                            }
                    } by {
                        assert(pre.live(kk));
                    }
                }
                return;
            }
            k = k + 1;
        }
    }

    /// The sampling weight of one input, as executed.
    fn weight_of(inp: &PoolInput) -> (r: u64)
        ensures
            r == Self::input_weight(*inp),
    {
        proof {
            assert((u64::MAX as int / WEIGHT_SCALE as int) * WEIGHT_SCALE as int <= u64::MAX as int
                && 0 <= (u64::MAX as int / WEIGHT_SCALE as int) * WEIGHT_SCALE as int)
                by (nonlinear_arith);
            assert(inp.score <= u64::MAX / WEIGHT_SCALE ==> inp.score * WEIGHT_SCALE
                <= u64::MAX as int) by (nonlinear_arith);
        }
        let scaled: u64 = if inp.score <= u64::MAX / WEIGHT_SCALE {
            inp.score * WEIGHT_SCALE
        } else {
            (u64::MAX / WEIGHT_SCALE) * WEIGHT_SCALE
        };
        let n: u64 = if inp.number_times_chosen >= 1 {
            inp.number_times_chosen
        } else {
            1
        };
        scaled / n
    }
}



/// Removing position `pos` from a duplicate-free sequence removes exactly
/// the value at that position.
proof fn lemma_remove_at_membership(s: Seq<usize>, pos: int)
    requires
        0 <= pos < s.len(),
        s.no_duplicates(),
    ensures
        forall|x: usize| #[trigger] s.remove(pos).contains(x) <==> (s.contains(x) && x != s[pos]),
        s.remove(pos).no_duplicates(),
{
    let r = s.remove(pos);
    assert forall|x: usize| #[trigger] r.contains(x) implies s.contains(x) && x != s[pos] by {
        let j = choose|j: int| 0 <= j < r.len() && r[j] == x;
        if j < pos {
            assert(s[j] == x);
        } else {
            assert(s[j + 1] == x);
        }
    }
    assert forall|x: usize| s.contains(x) && x != s[pos] implies #[trigger] r.contains(x) by {
        let j = choose|j: int| 0 <= j < s.len() && s[j] == x;
        if j < pos {
            assert(r[j] == x);
        } else {
            assert(j != pos);
            assert(r[j - 1] == x);
        }
    }
    assert forall|i: int, j: int| 0 <= i < j < r.len() implies r[i] != r[j] by {
        let si = if i < pos { i } else { i + 1 };
        let sj = if j < pos { j } else { j + 1 };
        assert(r[i] == s[si]);
        assert(r[j] == s[sj]);
    }
}


impl SaveToStatsFolder for CounterMaximizingPool {
    fn save_to_stats_folder(&self) -> (r: Vec<(String, Vec<u8>)>) {
        Vec::new()
    }
}

impl Pool for CounterMaximizingPool {
    type Stats = CounterMaximizingPoolStats;

    fn stats(&self) -> (r: CounterMaximizingPoolStats) {
        self.stats.clone()
    }

    fn get_random_index(&mut self) -> (r: Option<PoolStorageIndex>)
        ensures
            old(self).wf() ==> final(self).wf(),
            final(self).size == old(self).size,
            final(self).name == old(self).name,
            final(self).complexities@ == old(self).complexities@,
            final(self).highest_counts@ == old(self).highest_counts@,
            final(self).best_input_for_counter@ == old(self).best_input_for_counter@,
            final(self).stats == old(self).stats,
            // a draw happens exactly when some input has positive weight;
            // the drawn input is counted and nothing else moves
            (r is None) <==> sat_wsum(old(self).inputs@, old(self).inputs@.len() as int) == 0,
            r is None ==> final(self).inputs@ == old(self).inputs@,
            r is Some ==> exists|k: int|
                #[trigger] chosen_from(old(self).inputs@, final(self).inputs@, k, r->0),
    {
        let n = self.inputs.len();
        let mut total: u64 = 0;
        let mut k: usize = 0;
        while k < n
            invariant
                *self == *old(self),
                n == self.inputs@.len(),
                0 <= k <= n,
                total == sat_wsum(self.inputs@, k as int),
            decreases n - k,
        {
            match &self.inputs[k] {
                Some(inp) => {
                    let w = Self::weight_of(inp);
                    total = if total <= u64::MAX - w {
                        total + w
                    } else {
                        u64::MAX
                    };
                },
                None => {
                },
            }
            k = k + 1;
        }
        if total == 0 {
            return None;
        }
        let chosen_weight = rng_u64(&self.rng) % total;
        // walk the prefix sums to the drawn input
        let mut acc: u64 = 0;
        let mut k: usize = 0;
        while k < n
            invariant
                self.inputs@ == old(self).inputs@,
                self.name == old(self).name,
                self.size == old(self).size,
                self.complexities == old(self).complexities,
                self.highest_counts == old(self).highest_counts,
                self.best_input_for_counter == old(self).best_input_for_counter,
                self.stats == old(self).stats,
                self.rng == old(self).rng,
                n == self.inputs@.len(),
                0 <= k <= n,
                acc == sat_wsum(self.inputs@, k as int),
                chosen_weight >= acc,
                chosen_weight < sat_wsum(self.inputs@, n as int),
            decreases n - k,
        {
            let ghost pre = *self;
            let mut result: Option<PoolStorageIndex> = None;
            let slot = &mut self.inputs[k];
            match slot {
                Some(inp) => {
                    let w = Self::weight_of(inp);
                    let next = if acc <= u64::MAX - w {
                        acc + w
                    } else {
                        u64::MAX
                    };
                    if w > 0 && chosen_weight < next {
                        if inp.number_times_chosen < u64::MAX {
                            inp.number_times_chosen = inp.number_times_chosen + 1;
                        }
                        result = Some(inp.idx);
                    }
                    acc = next;
                },
                None => {
                },
            }
            proof {
                assert(self.inputs@ =~= pre.inputs@.update(k as int, self.inputs@[k as int]));
                if result is None {
                    assert(self.inputs@[k as int] == pre.inputs@[k as int]);
                    assert(self.inputs@ =~= pre.inputs@);
                }
            }
            match result {
                Some(idx) => {
                    proof {
                        assert(self.inputs@ =~= pre.inputs@.update(
                            k as int,
                            self.inputs@[k as int],
                        ));
                        assert(chosen_from(pre.inputs@, self.inputs@, k as int, idx));
                        if pre.wf() {
                            assert forall|kk: int| self.live(kk) implies {
                                let inp = self.inputs@[kk]->0;
                                &&& inp.best_for_counters@.len() >= 1
                                &&& inp.best_for_counters@.no_duplicates()
                                &&& inp.score == inp.best_for_counters@.len() || inp.score == 0
                                &&& inp.number_times_chosen >= 1
                                &&& forall|j: int|
                                    0 <= j < inp.best_for_counters@.len() ==> {
                                        let c = #[trigger] inp.best_for_counters@[j] as int;
                                        &&& 0 <= c < self.size
                                        &&& self.best_input_for_counter@[c] == Some(kk as usize)
                                    }
                            } by {
                                assert(pre.live(kk));
                            }
                        }
                    }
                    return Some(idx);
                },
                None => {
                },
            }
            k = k + 1;
        }
        proof {
            // the drawn weight lies under the total, so the walk cannot end
            assert(acc == sat_wsum(self.inputs@, n as int));
            assert(false);
        }
        None
    }

    open spec fn weight_spec(&self) -> u64 {
        WEIGHT_SCALE
    }

    fn weight(&self) -> (r: u64) {
        WEIGHT_SCALE
    }
}

impl CounterMaximizingPool {
    /// Processes one batch of (counter, intensity) observations: the pairs
    /// that beat the pool's records are retained, and when any are, the
    /// test case is added with exactly the retained pairs.
    pub fn process_observations(
        &mut self,
        input_id: PoolStorageIndex,
        observations: &Vec<(usize, u64)>,
        complexity: u64,
    ) -> (r: Vec<CorpusDelta>)
        requires
            old(self).wf(),
            forall|i: int|
                0 <= i < observations@.len() ==> (#[trigger] observations@[i]).0 < old(self).size,
            forall|i: int, j: int|
                0 <= i < j < observations@.len() ==> (#[trigger] observations@[i]).0 != (
                #[trigger] observations@[j]).0,
        ensures
            final(self).wf(),
            ({
                let kept = retained_observations(
                    *old(self),
                    observations@,
                    complexity,
                    observations@.len() as int,
                );
                &&& (kept.len() == 0 ==> *final(self) == *old(self) && r@.len() == 0)
                &&& (kept.len() > 0 ==> {
                    &&& final(self).size == old(self).size
                    &&& final(self).inputs@.len() == old(self).inputs@.len() + 1
                    &&& final(self).inputs@.last() is Some
                    &&& (final(self).inputs@.last()->0).idx == input_id
                    &&& (final(self).inputs@.last()->0).cplx == complexity
                    &&& (final(self).inputs@.last()->0).score == kept.len()
                    &&& (forall|i: int|
                        0 <= i < kept.len() ==> {
                            let c = (#[trigger] kept[i]).0 as int;
                            &&& final(self).highest_counts@[c] == kept[i].1
                            &&& final(self).complexities@[c] == complexity
                            &&& final(self).best_input_for_counter@[c] == Some(
                                old(self).inputs@.len() as usize,
                            )
                        })
                    &&& (forall|c: int|
                        0 <= c < old(self).size && !obs_has_counter(kept, c) ==> {
                            &&& (#[trigger] final(self).highest_counts@[c]) == old(
                                self,
                            ).highest_counts@[c]
                            &&& final(self).complexities@[c] == old(self).complexities@[c]
                            &&& final(self).best_input_for_counter@[c] == old(
                                self,
                            ).best_input_for_counter@[c]
                        })
                    &&& (forall|k: int|
                        #[trigger] evicted(old(self).inputs@, final(self).inputs@, k) ==> r@[
                            0
                        ].remove@.contains(old(self).inputs@[k]->0.idx))
                    &&& r@.len() == 1
                    &&& r@[0].add == true
                })
            }),
    {
        let ghost obs = observations@;
        let mut state: Vec<(usize, u64)> = Vec::new();
        let n = observations.len();
        let mut i: usize = 0;
        while i < n
            invariant
                self.wf(),
                *self == *old(self),
                n == observations@.len(),
                obs == observations@,
                0 <= i <= n,
                forall|j: int|
                    0 <= j < observations@.len() ==> (#[trigger] observations@[j]).0 < self.size,
                forall|j1: int, j2: int|
                    0 <= j1 < j2 < observations@.len() ==> (#[trigger] observations@[j1]).0 != (
                    #[trigger] observations@[j2]).0,
                state@ == retained_observations(*old(self), obs, complexity, i as int),
                forall|t: int|
                    0 <= t < state@.len() ==> exists|j: int|
                        0 <= j < i && (#[trigger] state@[t]) == observations@[j],
                state@.len() <= i,
                forall|t1: int, t2: int|
                    0 <= t1 < t2 < state@.len() ==> (#[trigger] state@[t1]).0 != (
                    #[trigger] state@[t2]).0,
            decreases n - i,
        {
            let ghost st0 = state@;
            let pair = observations[i];
            self.observe(pair.0, pair.1, complexity, &mut state);
            proof {
                if state@ != st0 {
                    assert(state@ == st0.push((pair.0, pair.1)));
                    assert forall|t1: int, t2: int|
                        0 <= t1 < t2 < state@.len() implies (#[trigger] state@[t1]).0 != (
                    #[trigger] state@[t2]).0 by {
                        if t2 == state@.len() - 1 {
                            let j1 = choose|j: int|
                                0 <= j < i && (#[trigger] st0[t1]) == observations@[j];
                            assert(state@[t1] == observations@[j1]);
                            assert(state@[t2] == observations@[i as int]);
                        }
                    }
                    assert forall|t: int| 0 <= t < state@.len() implies exists|j: int|
                        0 <= j < i + 1 && (#[trigger] state@[t]) == observations@[j] by {
                        if t < st0.len() {
                            let j = choose|j: int|
                                0 <= j < i && (#[trigger] st0[t]) == observations@[j];
                            assert(state@[t] == observations@[j]);
                        } else {
                            assert(state@[t] == observations@[i as int]);
                        }
                    }
                }
            }
            i = i + 1;
        }
        let ghost kept = retained_observations(*old(self), obs, complexity, n as int);
        if state.len() == 0 {
            return Vec::new();
        }
        proof {
            assert forall|t: int| 0 <= t < state@.len() implies (#[trigger] state@[t]).0
                < self.size by {
                let j = choose|j: int| 0 <= j < n && (#[trigger] state@[t]) == observations@[j];
            }
        }
        let r = self.add(input_id, complexity, &state);
        proof {
            assert(kept == state@);
            assert forall|c: int|
                0 <= c < old(self).size && !obs_has_counter(kept, c) implies {
                &&& (#[trigger] self.highest_counts@[c]) == old(self).highest_counts@[c]
                &&& self.complexities@[c] == old(self).complexities@[c]
                &&& self.best_input_for_counter@[c] == old(self).best_input_for_counter@[c]
            } by {
                assert(!obs_has_counter(state@, c));
            }
        }
        r
    }
}

/// Law: each counter has at most one best input. Two live inputs that both
/// list the same counter are the same input.
pub proof fn lemma_best_per_counter_unique(
    p: CounterMaximizingPool,
    c: usize,
    k1: int,
    k2: int,
)
    requires
        p.wf(),
        p.live(k1),
        p.live(k2),
        p.inputs@[k1]->0.best_for_counters@.contains(c),
        p.inputs@[k2]->0.best_for_counters@.contains(c),
    ensures
        k1 == k2,
{
    let bfc1 = p.inputs@[k1]->0.best_for_counters@;
    let bfc2 = p.inputs@[k2]->0.best_for_counters@;
    assert(exists|j: int| 0 <= j < bfc1.len() && bfc1[j] == c) by {
        assert(bfc1.contains(c));
    }
    assert(exists|j: int| 0 <= j < bfc2.len() && bfc2[j] == c) by {
        assert(bfc2.contains(c));
    }
    let j1 = choose|j: int| 0 <= j < bfc1.len() && bfc1[j] == c;
    let j2 = choose|j: int| 0 <= j < bfc2.len() && bfc2[j] == c;
    assert(bfc1[j1] == c);
    assert(bfc2[j2] == c);
    assert(p.best_input_for_counter@[c as int] == Some(k1 as usize));
    assert(p.best_input_for_counter@[c as int] == Some(k2 as usize));
    assert(p.inputs@.len() <= usize::MAX) by {
        assert(p.inputs@.len() == vstd::std_specs::vec::spec_vec_len(&p.inputs));
    }
    assert((k1 as usize) == (k2 as usize));
}

/// Law: every live input is best for at least one counter; an input marked
/// as a dead end keeps its counters (at score zero) until displaced.
pub proof fn lemma_live_input_is_best_somewhere(p: CounterMaximizingPool, k: int)
    requires
        p.wf(),
        p.live(k),
    ensures
        exists|c: int|
            0 <= c < p.size && (#[trigger] p.best_input_for_counter@[c]) == Some(k as usize),
{
    let c = p.inputs@[k]->0.best_for_counters@[0] as int;
    assert(p.best_input_for_counter@[c] == Some(k as usize));
}

} // verus!
