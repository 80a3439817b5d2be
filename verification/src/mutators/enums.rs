//! A leaf mutator for enumerations without payloads; with a single variant
//! it is single-valued.

use vstd::prelude::*;

use crate::mutators::string::ChainName;
use crate::traits::Mutator;

verus! {

/// A mutator over the values of a basic enumeration. The chain-name
/// enumeration has one variant, so the mutator is single-valued and its
/// complexity is zero.
#[derive(Clone, Copy)]
pub struct BasicEnumMutator {}

impl BasicEnumMutator {
    /// Builds the mutator.
    pub fn new() -> (r: BasicEnumMutator)
        ensures
            r.m_wf(),
    {
        BasicEnumMutator {}
    }
}

impl Mutator<ChainName> for BasicEnumMutator {
    type Cache = ();

    type MutationStep = u64;

    type ArbitraryStep = u64;

    type UnmutateToken = ChainName;

    type RecursingPartIndex = ();

    open spec fn m_wf(&self) -> bool {
        true
    }

    open spec fn accepts(&self, value: ChainName) -> bool {
        true
    }

    open spec fn valid(&self, value: ChainName, cache: ()) -> bool {
        true
    }

    open spec fn cplx(&self, value: ChainName, cache: ()) -> u64 {
        0
    }

    open spec fn value_cplx(&self, value: ChainName) -> u64 {
        0
    }

    open spec fn min_cplx(&self) -> u64 {
        0
    }

    open spec fn max_cplx(&self) -> u64 {
        0
    }

    open spec fn token_ok(&self, value: ChainName, cache: (), t: ChainName) -> bool {
        true
    }

    open spec fn unmutate_spec(&self, value: ChainName, cache: (), t: ChainName) -> (ChainName, ()) {
        (t, ())
    }

    proof fn lemma_min_le_max(&self) {
    }

    proof fn lemma_cplx_bounds(&self, value: ChainName, cache: ()) {
    }

    fn default_arbitrary_step(&self) -> u64 {
        0
    }

    fn validate_value(&self, value: &ChainName) -> (r: Option<()>) {
        Some(())
    }

    fn default_mutation_step(&self, value: &ChainName, cache: &()) -> u64 {
        0
    }

    fn max_complexity(&self) -> (r: u64) {
        0
    }

    fn min_complexity(&self) -> (r: u64) {
        0
    }

    fn complexity(&self, value: &ChainName, cache: &()) -> (r: u64) {
        0
    }

    fn ordered_arbitrary(&self, step: &mut u64, max_cplx: u64) -> (r: Option<(ChainName, u64)>)
        ensures
            (r is Some) <==> *old(step) == 0,
    {
        if *step == 0 {
            *step = 1;
            Some((ChainName::Mainnet, 0))
        } else {
            None
        }
    }

    fn random_arbitrary(&self, max_cplx: u64) -> (r: (ChainName, u64)) {
        (ChainName::Mainnet, 0)
    }

    fn ordered_mutate(
        &self,
        value: &mut ChainName,
        cache: &mut (),
        step: &mut u64,
        max_cplx: u64,
    ) -> (r: Option<(ChainName, u64)>)
        ensures
            r is None,
    {
        None
    }

    fn random_mutate(&self, value: &mut ChainName, cache: &mut (), max_cplx: u64) -> (r: (
        ChainName,
        u64,
    )) {
        let token: ChainName = *value;
        (token, 0)
    }

    fn unmutate(&self, value: &mut ChainName, cache: &mut (), t: ChainName) {
        *value = t;
    }

    fn default_recursing_part_index(&self, value: &ChainName, cache: &()) -> () {
    }

    fn recursing_part<'a, T, N>(
        &self,
        parent: &N,
        value: &'a ChainName,
        index: &mut (),
    ) -> Option<&'a T> {
        None
    }
}

} // verus!
