//! A mutator for 32-bit integers constrained to an inclusive range.

use vstd::prelude::*;

use crate::rng::random_u64;
use crate::traits::Mutator;

verus! {

/// Complexity of every in-range 32-bit value, in whole units.
pub const U32_RANGE_COMPLEXITY: u64 = 32;

/// A mutator for `u32` values within the inclusive range `[lo, hi]`.
#[derive(Clone, Copy)]
pub struct U32WithinRangeMutator {
    pub lo: u32,
    pub hi: u32,
}

impl U32WithinRangeMutator {
    /// Builds the mutator for the inclusive range `[lo, hi]`.
    pub fn new(lo: u32, hi: u32) -> (r: U32WithinRangeMutator)
        requires
            lo <= hi,
        ensures
            r.m_wf(),
            r.lo == lo,
            r.hi == hi,
    {
        U32WithinRangeMutator { lo, hi }
    }

    /// A fresh in-range value derived from a draw.
    fn pick(&self, seed: u64) -> (r: u32)
        requires
            self.m_wf(),
        ensures
            self.lo <= r <= self.hi,
    {
        let span: u64 = (self.hi - self.lo) as u64 + 1;
        self.lo + (seed % span) as u32
    }
}

impl Mutator<u32> for U32WithinRangeMutator {
    type Cache = ();

    type MutationStep = u64;

    type ArbitraryStep = u64;

    type UnmutateToken = u32;

    type RecursingPartIndex = ();

    open spec fn m_wf(&self) -> bool {
        self.lo <= self.hi
    }

    open spec fn accepts(&self, value: u32) -> bool {
        self.lo <= value <= self.hi
    }

    open spec fn valid(&self, value: u32, cache: ()) -> bool {
        self.lo <= value <= self.hi
    }

    open spec fn cplx(&self, value: u32, cache: ()) -> u64 {
        U32_RANGE_COMPLEXITY
    }

    open spec fn value_cplx(&self, value: u32) -> u64 {
        U32_RANGE_COMPLEXITY
    }

    open spec fn min_cplx(&self) -> u64 {
        U32_RANGE_COMPLEXITY
    }

    open spec fn max_cplx(&self) -> u64 {
        U32_RANGE_COMPLEXITY
    }

    open spec fn token_ok(&self, value: u32, cache: (), t: u32) -> bool {
        self.lo <= t <= self.hi
    }

    open spec fn unmutate_spec(&self, value: u32, cache: (), t: u32) -> (u32, ()) {
        (t, ())
    }

    proof fn lemma_min_le_max(&self) {
    }

    proof fn lemma_cplx_bounds(&self, value: u32, cache: ()) {
    }

    fn default_arbitrary_step(&self) -> u64 {
        0
    }

    fn validate_value(&self, value: &u32) -> (r: Option<()>) {
        if self.lo <= *value && *value <= self.hi {
            Some(())
        } else {
            None
        }
    }

    fn default_mutation_step(&self, value: &u32, cache: &()) -> u64 {
        0
    }

    fn max_complexity(&self) -> (r: u64) {
        U32_RANGE_COMPLEXITY
    }

    fn min_complexity(&self) -> (r: u64) {
        U32_RANGE_COMPLEXITY
    }

    fn complexity(&self, value: &u32, cache: &()) -> (r: u64) {
        U32_RANGE_COMPLEXITY
    }

    fn ordered_arbitrary(&self, step: &mut u64, max_cplx: u64) -> (r: Option<(u32, u64)>)
        ensures
            (r is Some) <==> (max_cplx >= U32_RANGE_COMPLEXITY && *old(step) < u64::MAX),
    {
        if max_cplx < U32_RANGE_COMPLEXITY {
            return None;
        }
        if *step == u64::MAX {
            return None;
        }
        let v = self.pick(*step);
        *step = *step + 1;
        Some((v, U32_RANGE_COMPLEXITY))
    }

    fn random_arbitrary(&self, max_cplx: u64) -> (r: (u32, u64)) {
        (self.pick(random_u64()), U32_RANGE_COMPLEXITY)
    }

    fn ordered_mutate(
        &self,
        value: &mut u32,
        cache: &mut (),
        step: &mut u64,
        max_cplx: u64,
    ) -> (r: Option<(u32, u64)>)
        ensures
            (r is Some) <==> (max_cplx >= U32_RANGE_COMPLEXITY && *old(step) < u64::MAX),
    {
        if max_cplx < U32_RANGE_COMPLEXITY {
            return None;
        }
        if *step == u64::MAX {
            return None;
        }
        let token: u32 = *value;
        *value = self.pick(*step);
        *step = *step + 1;
        Some((token, U32_RANGE_COMPLEXITY))
    }

    fn random_mutate(&self, value: &mut u32, cache: &mut (), max_cplx: u64) -> (r: (u32, u64)) {
        let token: u32 = *value;
        *value = self.pick(random_u64());
        (token, U32_RANGE_COMPLEXITY)
    }

    fn unmutate(&self, value: &mut u32, cache: &mut (), t: u32) {
        *value = t;
    }

    fn default_recursing_part_index(&self, value: &u32, cache: &()) -> () {
    }

    fn recursing_part<'a, T, N>(&self, parent: &N, value: &'a u32, index: &mut ()) -> Option<&'a T> {
        None
    }
}

} // verus!
