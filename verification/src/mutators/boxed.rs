//! A transparent mutator for boxed values: every operation forwards to the
//! inner mutator, and the boxed value is the sole referent.

use core::marker::PhantomData;
use vstd::prelude::*;

use crate::traits::{CacheView, Mutator, TokenView};

verus! {

/// A mutator for `Box<T>` values, forwarding to a mutator for `T`.
pub struct BoxMutator<T: DeepView, M: Mutator<T>> {
    pub mutator: M,
    pub phantom: PhantomData<T>,
}

impl<T: DeepView, M: Mutator<T>> BoxMutator<T, M> {
    /// Wraps the inner mutator.
    pub fn new(mutator: M) -> (r: BoxMutator<T, M>)
        ensures
            r.mutator == mutator,
    {
        BoxMutator { mutator, phantom: PhantomData }
    }
}

impl<T: DeepView, M: Mutator<T>> Mutator<Box<T>> for BoxMutator<T, M> {
    type Cache = M::Cache;

    type MutationStep = M::MutationStep;

    type ArbitraryStep = M::ArbitraryStep;

    type UnmutateToken = M::UnmutateToken;

    type RecursingPartIndex = ();

    open spec fn m_wf(&self) -> bool {
        self.mutator.m_wf()
    }

    open spec fn accepts(&self, value: T::V) -> bool {
        self.mutator.accepts(value)
    }

    open spec fn valid(&self, value: T::V, cache: CacheView<T, M>) -> bool {
        self.mutator.valid(value, cache)
    }

    open spec fn cplx(&self, value: T::V, cache: CacheView<T, M>) -> u64 {
        self.mutator.cplx(value, cache)
    }

    open spec fn value_cplx(&self, value: T::V) -> u64 {
        self.mutator.value_cplx(value)
    }

    open spec fn min_cplx(&self) -> u64 {
        self.mutator.min_cplx()
    }

    open spec fn max_cplx(&self) -> u64 {
        self.mutator.max_cplx()
    }

    open spec fn token_ok(&self, value: T::V, cache: CacheView<T, M>, t: TokenView<T, M>) -> bool {
        self.mutator.token_ok(value, cache, t)
    }

    open spec fn unmutate_spec(&self, value: T::V, cache: CacheView<T, M>, t: TokenView<T, M>) -> (
        T::V,
        CacheView<T, M>,
    ) {
        self.mutator.unmutate_spec(value, cache, t)
    }

    proof fn lemma_min_le_max(&self) {
        self.mutator.lemma_min_le_max();
    }

    proof fn lemma_cplx_bounds(&self, value: T::V, cache: CacheView<T, M>) {
        self.mutator.lemma_cplx_bounds(value, cache);
    }

    fn default_arbitrary_step(&self) -> M::ArbitraryStep {
        self.mutator.default_arbitrary_step()
    }

    fn validate_value(&self, value: &Box<T>) -> (r: Option<M::Cache>) {
        self.mutator.validate_value(&**value)
    }

    fn default_mutation_step(&self, value: &Box<T>, cache: &M::Cache) -> (r: M::MutationStep) {
        self.mutator.default_mutation_step(&**value, cache)
    }

    fn max_complexity(&self) -> (r: u64) {
        self.mutator.max_complexity()
    }

    fn min_complexity(&self) -> (r: u64) {
        self.mutator.min_complexity()
    }

    fn complexity(&self, value: &Box<T>, cache: &M::Cache) -> (r: u64) {
        self.mutator.complexity(&**value, cache)
    }

    fn ordered_arbitrary(&self, step: &mut M::ArbitraryStep, max_cplx: u64) -> (r: Option<
        (Box<T>, u64),
    >) {
        match self.mutator.ordered_arbitrary(step, max_cplx) {
            Some((v, cx)) => Some((Box::new(v), cx)),
            None => None,
        }
    }

    fn random_arbitrary(&self, max_cplx: u64) -> (r: (Box<T>, u64)) {
        let (v, cx) = self.mutator.random_arbitrary(max_cplx);
        (Box::new(v), cx)
    }

    fn ordered_mutate(
        &self,
        value: &mut Box<T>,
        cache: &mut M::Cache,
        step: &mut M::MutationStep,
        max_cplx: u64,
    ) -> (r: Option<(M::UnmutateToken, u64)>) {
        self.mutator.ordered_mutate(&mut **value, cache, step, max_cplx)
    }

    fn random_mutate(&self, value: &mut Box<T>, cache: &mut M::Cache, max_cplx: u64) -> (r: (
        M::UnmutateToken,
        u64,
    )) {
        self.mutator.random_mutate(&mut **value, cache, max_cplx)
    }

    fn unmutate(&self, value: &mut Box<T>, cache: &mut M::Cache, t: M::UnmutateToken) {
        self.mutator.unmutate(&mut **value, cache, t)
    }

    fn default_recursing_part_index(&self, value: &Box<T>, cache: &M::Cache) -> (r: ()) {
    }

    fn recursing_part<'a, T2, N>(
        &self,
        parent: &N,
        value: &'a Box<T>,
        index: &mut (),
    ) -> Option<&'a T2> {
        None
    }
}

} // verus!
