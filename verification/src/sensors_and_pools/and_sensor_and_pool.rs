//! Composition of two sensors and two pools, with progress-weighted
//! scheduling between the two pools.

use core::marker::PhantomData;
use vstd::prelude::*;

use crate::rng::{rng_new, rng_u64};
use crate::traits::{
    CSVField, CompatibleWithObservations, CorpusDelta, Pool, PoolStorageIndex, SaveToStatsFolder,
    Sensor, Stats, ToCSV,
};

verus! {

broadcast use vstd::std_specs::vec::group_vec_axioms;

/// Marker: both child pools see the same observations.
pub struct SameObservations;

/// Marker: the child pools see the two halves of a pair of observations.
pub struct DifferentObservations;

/// A pool that combines two pools. Each child pool's effective weight is
/// its configured weight divided by the number of times it was chosen since
/// it last made progress, so an over-chosen pool decays until it reports a
/// non-empty delta.
pub struct AndPool<P1: Pool, P2: Pool, SM> {
    pub p1: P1,
    pub p2: P2,
    pub p1_weight: u64,
    pub p2_weight: u64,
    pub p1_number_times_chosen_since_last_progress: u64,
    pub p2_number_times_chosen_since_last_progress: u64,
    pub rng: fastrand::Rng,
    pub phantom: PhantomData<SM>,
}

/// The first `n1` returned deltas came from the first child and the rest
/// from the second; each child's progress counter reset to one exactly when
/// its part is non-empty.
pub open spec fn split_resets(before: (u64, u64), after: (u64, u64), n1: int, total: int) -> bool {
    &&& 0 <= n1 <= total
    &&& after.0 == if n1 > 0 {
        1u64
    } else {
        before.0
    }
    &&& after.1 == if n1 < total {
        1u64
    } else {
        before.1
    }
}

/// A progress counter one higher, stopping at the machine maximum.
pub open spec fn saturating_inc(n: u64) -> u64 {
    if n < u64::MAX {
        (n + 1) as u64
    } else {
        n
    }
}

impl<P1: Pool, P2: Pool, SM> AndPool<P1, P2, SM> {
    /// The two progress counters, as a pair.
    pub open spec fn counters(self) -> (u64, u64) {
        (
            self.p1_number_times_chosen_since_last_progress,
            self.p2_number_times_chosen_since_last_progress,
        )
    }

    /// The pool's bookkeeping is sound: the progress counters are at least
    /// one and the configured weights cannot overflow when added.
    pub open spec fn and_wf(self) -> bool {
        &&& self.p1_number_times_chosen_since_last_progress >= 1
        &&& self.p2_number_times_chosen_since_last_progress >= 1
        &&& self.p1_weight + self.p2_weight <= u64::MAX
    }

    /// The first pool's effective weight: its configured weight divided by
    /// the times it was chosen since it last made progress.
    pub open spec fn p1_effective_weight(self) -> u64 {
        let n = if self.p1_number_times_chosen_since_last_progress >= 1 {
            self.p1_number_times_chosen_since_last_progress as int
        } else {
            1
        };
        (self.p1_weight as int / n) as u64
    }

    /// The second pool's effective weight.
    pub open spec fn p2_effective_weight(self) -> u64 {
        let n = if self.p2_number_times_chosen_since_last_progress >= 1 {
            self.p2_number_times_chosen_since_last_progress as int
        } else {
            1
        };
        (self.p2_weight as int / n) as u64
    }

    /// Builds the combined pool from the two children and their configured
    /// weights.
    pub fn new(p1: P1, p2: P2, p1_weight: u64, p2_weight: u64) -> (r: AndPool<P1, P2, SM>)
        requires
            p1_weight + p2_weight <= u64::MAX,
        ensures
            r.and_wf(),
            r.p1_weight == p1_weight,
            r.p2_weight == p2_weight,
            r.p1_number_times_chosen_since_last_progress == 1,
            r.p2_number_times_chosen_since_last_progress == 1,
            r.p1 == p1,
            r.p2 == p2,
    {
        AndPool {
            p1,
            p2,
            p1_weight,
            p2_weight,
            p1_number_times_chosen_since_last_progress: 1,
            p2_number_times_chosen_since_last_progress: 1,
            rng: rng_new(),
            phantom: PhantomData,
        }
    }

    /// The first pool's effective weight, as executed.
    pub fn p1_effective(&self) -> (r: u64)
        ensures
            r == self.p1_effective_weight(),
    {
        let n: u64 = if self.p1_number_times_chosen_since_last_progress >= 1 {
            self.p1_number_times_chosen_since_last_progress
        } else {
            1
        };
        self.p1_weight / n
    }

    /// The second pool's effective weight, as executed.
    pub fn p2_effective(&self) -> (r: u64)
        ensures
            r == self.p2_effective_weight(),
    {
        let n: u64 = if self.p2_number_times_chosen_since_last_progress >= 1 {
            self.p2_number_times_chosen_since_last_progress
        } else {
            1
        };
        self.p2_weight / n
    }
}

/// Law: after a pool reports a non-empty delta its progress counter resets,
/// so its effective weight is restored to its configured weight.
pub proof fn lemma_progress_restores_weight<P1: Pool, P2: Pool, SM>(p: AndPool<P1, P2, SM>)
    requires
        p.and_wf(),
        p.p1_number_times_chosen_since_last_progress == 1,
    ensures
        p.p1_effective_weight() == p.p1_weight,
{
}

/// Law: being chosen without progress only lowers a pool's effective
/// weight: the effective weight falls as the progress counter rises.
pub proof fn lemma_decay_monotone<P1: Pool, P2: Pool, SM>(
    p1: AndPool<P1, P2, SM>,
    p2: AndPool<P1, P2, SM>,
)
    requires
        p1.and_wf(),
        p2.and_wf(),
        p1.p1_weight == p2.p1_weight,
        p1.p1_number_times_chosen_since_last_progress
            <= p2.p1_number_times_chosen_since_last_progress,
    ensures
        p2.p1_effective_weight() <= p1.p1_effective_weight(),
{
    let w = p1.p1_weight as int;
    let n1 = p1.p1_number_times_chosen_since_last_progress as int;
    let n2 = p2.p1_number_times_chosen_since_last_progress as int;
    assert(w / n2 <= w / n1) by (nonlinear_arith)
        requires
            1 <= n1 <= n2,
            0 <= w,
    ;
    assert(0 <= w / n2) by (nonlinear_arith)
        requires
            1 <= n2,
            0 <= w,
    ;
}

impl<P1: Pool, P2: Pool, SM> SaveToStatsFolder for AndPool<P1, P2, SM> {
    fn save_to_stats_folder(&self) -> (r: Vec<(String, Vec<u8>)>) {
        let mut x = self.p1.save_to_stats_folder();
        let mut y = self.p2.save_to_stats_folder();
        x.append(&mut y);
        x
    }
}

/// The statistics of an [`AndPool`]: the two children's statistics side by
/// side.
pub struct AndPoolStats<S1, S2>(pub S1, pub S2);

impl<S1: Stats, S2: Stats> ToCSV for AndPoolStats<S1, S2> {
    fn csv_headers(&self) -> (r: Vec<CSVField>) {
        let mut h = self.0.csv_headers();
        let mut t = self.1.csv_headers();
        h.append(&mut t);
        h
    }

    fn to_csv_record(&self) -> (r: Vec<CSVField>) {
        let mut h = self.0.to_csv_record();
        let mut t = self.1.to_csv_record();
        h.append(&mut t);
        h
    }
}

impl<S1: Stats, S2: Stats> Stats for AndPoolStats<S1, S2> {

}

impl<P1: Pool, P2: Pool, SM> Pool for AndPool<P1, P2, SM> {
    type Stats = AndPoolStats<P1::Stats, P2::Stats>;

    fn stats(&self) -> (r: AndPoolStats<P1::Stats, P2::Stats>) {
        AndPoolStats(self.p1.stats(), self.p2.stats())
    }

    fn get_random_index(&mut self) -> (r: Option<PoolStorageIndex>)
        ensures
            final(self).p1_weight == old(self).p1_weight,
            final(self).p2_weight == old(self).p2_weight,
            // exactly one of the two progress counters counts the choice
            r is Some ==> {
                let before = old(self).counters();
                let after = final(self).counters();
                after == (saturating_inc(before.0), before.1) || after == (
                    before.0,
                    saturating_inc(before.1),
                )
            },
    {
        let w1 = self.p1_effective();
        let w2 = self.p2_effective();
        proof {
            lemma_effective_le_configured(self.p1_weight, self.p1_number_times_chosen_since_last_progress);
            lemma_effective_le_configured(self.p2_weight, self.p2_number_times_chosen_since_last_progress);
        }
        let total = if w1 <= u64::MAX - w2 {
            w1 + w2
        } else {
            u64::MAX
        };
        if total == 0 {
            return None;
        }
        let choice = rng_u64(&self.rng) % total;
        if choice < w1 {
            match self.p1.get_random_index() {
                Some(idx) => {
                    if self.p1_number_times_chosen_since_last_progress < u64::MAX {
                        self.p1_number_times_chosen_since_last_progress =
                            self.p1_number_times_chosen_since_last_progress + 1;
                    }
                    Some(idx)
                },
                None => {
                    if self.p2_number_times_chosen_since_last_progress < u64::MAX {
                        self.p2_number_times_chosen_since_last_progress =
                            self.p2_number_times_chosen_since_last_progress + 1;
                    }
                    self.p2.get_random_index()
                },
            }
        } else {
            match self.p2.get_random_index() {
                Some(idx) => {
                    if self.p2_number_times_chosen_since_last_progress < u64::MAX {
                        self.p2_number_times_chosen_since_last_progress =
                            self.p2_number_times_chosen_since_last_progress + 1;
                    }
                    Some(idx)
                },
                None => {
                    if self.p1_number_times_chosen_since_last_progress < u64::MAX {
                        self.p1_number_times_chosen_since_last_progress =
                            self.p1_number_times_chosen_since_last_progress + 1;
                    }
                    self.p1.get_random_index()
                },
            }
        }
    }

    open spec fn weight_spec(&self) -> u64 {
        let w1 = self.p1_effective_weight();
        let w2 = self.p2_effective_weight();
        if w1 + w2 <= u64::MAX {
            (w1 + w2) as u64
        } else {
            u64::MAX
        }
    }

    fn weight(&self) -> (r: u64) {
        let w1 = self.p1_effective();
        let w2 = self.p2_effective();
        if w1 <= u64::MAX - w2 {
            w1 + w2
        } else {
            u64::MAX
        }
    }
}

/// Dividing a weight by a positive count never raises it.
proof fn lemma_effective_le_configured(w: u64, n: u64)
    ensures
        ({
            let nn: int = if n >= 1 {
                n as int
            } else {
                1
            };
            w as int / nn <= w
        }),
{
    let nn: int = if n >= 1 {
        n as int
    } else {
        1
    };
    assert(w as int / nn <= w) by (nonlinear_arith)
        requires
            nn >= 1,
            w >= 0,
    ;
}

impl<P1: Pool, P2: Pool, SM> AndPool<P1, P2, SM> {
    /// Registers the children's deltas: a child that reports progress has
    /// its counter reset to one, restoring its effective weight.
    fn register_progress(&mut self, p1_progress: bool, p2_progress: bool)
        ensures
            p1_progress ==> final(self).p1_number_times_chosen_since_last_progress == 1,
            !p1_progress ==> final(self).p1_number_times_chosen_since_last_progress == old(
                self,
            ).p1_number_times_chosen_since_last_progress,
            p2_progress ==> final(self).p2_number_times_chosen_since_last_progress == 1,
            !p2_progress ==> final(self).p2_number_times_chosen_since_last_progress == old(
                self,
            ).p2_number_times_chosen_since_last_progress,
            final(self).p1 == old(self).p1,
            final(self).p2 == old(self).p2,
            final(self).p1_weight == old(self).p1_weight,
            final(self).p2_weight == old(self).p2_weight,
    {
        if p1_progress {
            self.p1_number_times_chosen_since_last_progress = 1;
        }
        if p2_progress {
            self.p2_number_times_chosen_since_last_progress = 1;
        }
    }
}

impl<O1, O2, P1, P2> CompatibleWithObservations<(O1, O2)> for AndPool<
    P1,
    P2,
    DifferentObservations,
> where P1: CompatibleWithObservations<O1>, P2: CompatibleWithObservations<O2> {
    fn process(
        &mut self,
        input_id: PoolStorageIndex,
        observations: &(O1, O2),
        complexity: u64,
    ) -> (r: Vec<CorpusDelta>)
        ensures
            final(self).p1_weight == old(self).p1_weight,
            final(self).p2_weight == old(self).p2_weight,
            // the result splits into the two children's deltas, and each
            // child's progress counter resets exactly when its part is
            // non-empty
            exists|n1: int|
                #[trigger] split_resets(
                    old(self).counters(),
                    final(self).counters(),
                    n1,
                    r@.len() as int,
                ),
    {
        let mut deltas_1 = self.p1.process(input_id, &observations.0, complexity);
        let mut deltas_2 = self.p2.process(input_id, &observations.1, complexity);
        let p1_progress = deltas_1.len() > 0;
        let p2_progress = deltas_2.len() > 0;
        self.register_progress(p1_progress, p2_progress);
        let ghost n1 = deltas_1@.len() as int;
        deltas_1.append(&mut deltas_2);
        proof {
            assert(split_resets(
                old(self).counters(),
                self.counters(),
                n1,
                deltas_1@.len() as int,
            ));
        }
        deltas_1
    }
}

impl<O, P1, P2> CompatibleWithObservations<O> for AndPool<P1, P2, SameObservations> where
    P1: CompatibleWithObservations<O>,
    P2: CompatibleWithObservations<O>,
 {
    fn process(&mut self, input_id: PoolStorageIndex, observations: &O, complexity: u64) -> (r:
        Vec<CorpusDelta>)
        ensures
            final(self).p1_weight == old(self).p1_weight,
            final(self).p2_weight == old(self).p2_weight,
            // the result splits into the two children's deltas, and each
            // child's progress counter resets exactly when its part is
            // non-empty
            exists|n1: int|
                #[trigger] split_resets(
                    old(self).counters(),
                    final(self).counters(),
                    n1,
                    r@.len() as int,
                ),
    {
        let mut deltas_1 = self.p1.process(input_id, observations, complexity);
        let mut deltas_2 = self.p2.process(input_id, observations, complexity);
        let p1_progress = deltas_1.len() > 0;
        let p2_progress = deltas_2.len() > 0;
        self.register_progress(p1_progress, p2_progress);
        let ghost n1 = deltas_1@.len() as int;
        deltas_1.append(&mut deltas_2);
        proof {
            assert(split_resets(
                old(self).counters(),
                self.counters(),
                n1,
                deltas_1@.len() as int,
            ));
        }
        deltas_1
    }
}

/// A sensor that combines two sensors; their observations are handed out as
/// a pair.
pub struct AndSensor<S1: Sensor, S2: Sensor>(pub S1, pub S2);

impl<S1: Sensor, S2: Sensor> Sensor for AndSensor<S1, S2> {
    type Observations = (S1::Observations, S2::Observations);

    fn start_recording(&mut self) {
        self.0.start_recording();
        self.1.start_recording();
    }

    fn stop_recording(&mut self) {
        self.0.stop_recording();
        self.1.stop_recording();
    }

    fn get_observations(&mut self) -> (r: (S1::Observations, S2::Observations)) {
        (self.0.get_observations(), self.1.get_observations())
    }
}

} // verus!
