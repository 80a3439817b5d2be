//! Leaf mutators for fixed-width unsigned integers.
//!
//! The complexity of an integer is its bit width, so each of these mutators
//! is single-width: minimum and maximum complexity coincide. An unmutate
//! token is simply the previous value.

use vstd::prelude::*;

use crate::rng::random_u64;
use crate::traits::Mutator;

verus! {

/// Complexity of every 8-bit value, in whole units.
pub const U8_COMPLEXITY: u64 = 8;

/// Complexity of every 64-bit value, in whole units.
pub const U64_COMPLEXITY: u64 = 64;

/// A mutator over `u8` values. Deterministic mutations XOR the value with
/// each of the 255 nonzero masks in turn.
#[derive(Clone, Copy)]
pub struct U8Mutator {}

impl U8Mutator {
    pub fn new() -> (r: U8Mutator)
        ensures
            r.m_wf(),
    {
        U8Mutator {}
    }
}

impl Default for U8Mutator {
    fn default() -> (r: U8Mutator)
        ensures
            r.m_wf(),
    {
        U8Mutator::new()
    }
}

impl Mutator<u8> for U8Mutator {
    type Cache = ();

    type MutationStep = u64;

    type ArbitraryStep = u64;

    type UnmutateToken = u8;

    type RecursingPartIndex = ();

    open spec fn m_wf(&self) -> bool {
        true
    }

    open spec fn accepts(&self, value: u8) -> bool {
        true
    }

    open spec fn valid(&self, value: u8, cache: ()) -> bool {
        true
    }

    open spec fn cplx(&self, value: u8, cache: ()) -> u64 {
        U8_COMPLEXITY
    }

    open spec fn value_cplx(&self, value: u8) -> u64 {
        U8_COMPLEXITY
    }

    open spec fn min_cplx(&self) -> u64 {
        U8_COMPLEXITY
    }

    open spec fn max_cplx(&self) -> u64 {
        U8_COMPLEXITY
    }

    open spec fn token_ok(&self, value: u8, cache: (), t: u8) -> bool {
        true
    }

    open spec fn unmutate_spec(&self, value: u8, cache: (), t: u8) -> (u8, ()) {
        (t, ())
    }

    proof fn lemma_min_le_max(&self) {
    }

    proof fn lemma_cplx_bounds(&self, value: u8, cache: ()) {
    }

    fn default_arbitrary_step(&self) -> u64 {
        0
    }

    fn validate_value(&self, value: &u8) -> (r: Option<()>) {
        Some(())
    }

    fn default_mutation_step(&self, value: &u8, cache: &()) -> u64 {
        0
    }

    fn max_complexity(&self) -> (r: u64) {
        U8_COMPLEXITY
    }

    fn min_complexity(&self) -> (r: u64) {
        U8_COMPLEXITY
    }

    fn complexity(&self, value: &u8, cache: &()) -> (r: u64) {
        U8_COMPLEXITY
    }

    fn ordered_arbitrary(&self, step: &mut u64, max_cplx: u64) -> (r: Option<(u8, u64)>)
        ensures
            (r is Some) <==> (max_cplx >= U8_COMPLEXITY && *old(step) <= 255),
    {
        if max_cplx < U8_COMPLEXITY {
            return None;
        }
        if *step > 255 {
            return None;
        }
        let value: u8 = (*step % 256) as u8;
        *step = *step + 1;
        Some((value, U8_COMPLEXITY))
    }

    fn random_arbitrary(&self, max_cplx: u64) -> (r: (u8, u64)) {
        let value: u8 = (random_u64() % 256) as u8;
        (value, U8_COMPLEXITY)
    }

    fn ordered_mutate(
        &self,
        value: &mut u8,
        cache: &mut (),
        step: &mut u64,
        max_cplx: u64,
    ) -> (r: Option<(u8, u64)>)
        ensures
            (r is Some) <==> (max_cplx >= U8_COMPLEXITY && *old(step) < 255),
    {
        if max_cplx < U8_COMPLEXITY {
            return None;
        }
        if *step >= 255 {
            return None;
        }
        let mask: u8 = ((*step % 255) + 1) as u8;
        *step = *step + 1;
        let token: u8 = *value;
        *value = *value ^ mask;
        Some((token, U8_COMPLEXITY))
    }

    fn random_mutate(&self, value: &mut u8, cache: &mut (), max_cplx: u64) -> (r: (u8, u64)) {
        let mask: u8 = ((random_u64() % 255) + 1) as u8;
        let token: u8 = *value;
        *value = *value ^ mask;
        (token, U8_COMPLEXITY)
    }

    fn unmutate(&self, value: &mut u8, cache: &mut (), t: u8) {
        *value = t;
    }

    fn default_recursing_part_index(&self, value: &u8, cache: &()) -> () {
    }

    fn recursing_part<'a, T, N>(
        &self,
        parent: &N,
        value: &'a u8,
        index: &mut (),
    ) -> Option<&'a T> {
        None
    }
}

/// A mutator over `u64` values. Deterministic mutations XOR the value with
/// a changing nonzero mask.
#[derive(Clone, Copy)]
pub struct U64Mutator {}

impl U64Mutator {
    pub fn new() -> (r: U64Mutator)
        ensures
            r.m_wf(),
    {
        U64Mutator {}
    }
}

impl Mutator<u64> for U64Mutator {
    type Cache = ();

    type MutationStep = u64;

    type ArbitraryStep = u64;

    type UnmutateToken = u64;

    type RecursingPartIndex = ();

    open spec fn m_wf(&self) -> bool {
        true
    }

    open spec fn accepts(&self, value: u64) -> bool {
        true
    }

    open spec fn valid(&self, value: u64, cache: ()) -> bool {
        true
    }

    open spec fn cplx(&self, value: u64, cache: ()) -> u64 {
        U64_COMPLEXITY
    }

    open spec fn value_cplx(&self, value: u64) -> u64 {
        U64_COMPLEXITY
    }

    open spec fn min_cplx(&self) -> u64 {
        U64_COMPLEXITY
    }

    open spec fn max_cplx(&self) -> u64 {
        U64_COMPLEXITY
    }

    open spec fn token_ok(&self, value: u64, cache: (), t: u64) -> bool {
        true
    }

    open spec fn unmutate_spec(&self, value: u64, cache: (), t: u64) -> (u64, ()) {
        (t, ())
    }

    proof fn lemma_min_le_max(&self) {
    }

    proof fn lemma_cplx_bounds(&self, value: u64, cache: ()) {
    }

    fn default_arbitrary_step(&self) -> u64 {
        0
    }

    fn validate_value(&self, value: &u64) -> (r: Option<()>) {
        Some(())
    }

    fn default_mutation_step(&self, value: &u64, cache: &()) -> u64 {
        0
    }

    fn max_complexity(&self) -> (r: u64) {
        U64_COMPLEXITY
    }

    fn min_complexity(&self) -> (r: u64) {
        U64_COMPLEXITY
    }

    fn complexity(&self, value: &u64, cache: &()) -> (r: u64) {
        U64_COMPLEXITY
    }

    fn ordered_arbitrary(&self, step: &mut u64, max_cplx: u64) -> (r: Option<(u64, u64)>)
        ensures
            (r is Some) <==> (max_cplx >= U64_COMPLEXITY && *old(step) < u64::MAX),
    {
        if max_cplx < U64_COMPLEXITY {
            return None;
        }
        if *step == u64::MAX {
            return None;
        }
        let value: u64 = *step;
        *step = *step + 1;
        Some((value, U64_COMPLEXITY))
    }

    fn random_arbitrary(&self, max_cplx: u64) -> (r: (u64, u64)) {
        (random_u64(), U64_COMPLEXITY)
    }

    fn ordered_mutate(
        &self,
        value: &mut u64,
        cache: &mut (),
        step: &mut u64,
        max_cplx: u64,
    ) -> (r: Option<(u64, u64)>)
        ensures
            (r is Some) <==> (max_cplx >= U64_COMPLEXITY && *old(step) < u64::MAX),
    {
        if max_cplx < U64_COMPLEXITY {
            return None;
        }
        if *step == u64::MAX {
            return None;
        }
        let mask: u64 = *step + 1;
        *step = *step + 1;
        let token: u64 = *value;
        *value = *value ^ mask;
        Some((token, U64_COMPLEXITY))
    }

    fn random_mutate(&self, value: &mut u64, cache: &mut (), max_cplx: u64) -> (r: (u64, u64)) {
        let mask: u64 = random_u64() | 1;
        let token: u64 = *value;
        *value = *value ^ mask;
        (token, U64_COMPLEXITY)
    }

    fn unmutate(&self, value: &mut u64, cache: &mut (), t: u64) {
        *value = t;
    }

    fn default_recursing_part_index(&self, value: &u64, cache: &()) -> () {
    }

    fn recursing_part<'a, T, N>(
        &self,
        parent: &N,
        value: &'a u64,
        index: &mut (),
    ) -> Option<&'a T> {
        None
    }
}

} // verus!
