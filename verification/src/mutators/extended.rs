//! A mutator for a value type obtained from another mutator's value type
//! through an infallible two-way converter.

use core::marker::PhantomData;
use vstd::prelude::*;

use crate::traits::{CacheView, Mutator, MutatorValueConverter, TokenView};

verus! {

/// A mutator for `MVC::Value`, built over a mutator for `MVC::InnerValue`
/// and a converter between the two.
pub struct ExtendedMutator<IM, MVC> where MVC: MutatorValueConverter, IM: Mutator<
    MVC::InnerValue,
> {
    pub inner: IM,
    pub value_converter: MVC,
    pub phantom: PhantomData<MVC>,
}

impl<IM, MVC> ExtendedMutator<IM, MVC> where
    MVC: MutatorValueConverter,
    IM: Mutator<MVC::InnerValue>,
 {
    /// Builds the mutator from the inner mutator and the converter.
    pub fn new(inner: IM, value_converter: MVC) -> (r: ExtendedMutator<IM, MVC>)
        ensures
            r.inner == inner,
            r.value_converter == value_converter,
    {
        ExtendedMutator { inner, value_converter, phantom: PhantomData }
    }
}

impl<IM, MVC> Mutator<MVC::Value> for ExtendedMutator<IM, MVC> where
    MVC: MutatorValueConverter,
    IM: Mutator<MVC::InnerValue>,
 {
    type Cache = IM::Cache;

    type MutationStep = IM::MutationStep;

    type ArbitraryStep = IM::ArbitraryStep;

    type UnmutateToken = IM::UnmutateToken;

    type RecursingPartIndex = ();

    open spec fn m_wf(&self) -> bool {
        self.inner.m_wf()
    }

    open spec fn accepts(&self, value: <MVC::Value as DeepView>::V) -> bool {
        &&& self.value_converter.converter_accepts(value)
        &&& self.inner.accepts(self.value_converter.to_inner_spec(value))
    }

    open spec fn valid(
        &self,
        value: <MVC::Value as DeepView>::V,
        cache: CacheView<MVC::InnerValue, IM>,
    ) -> bool {
        &&& self.value_converter.converter_accepts(value)
        &&& self.inner.valid(self.value_converter.to_inner_spec(value), cache)
    }

    open spec fn cplx(
        &self,
        value: <MVC::Value as DeepView>::V,
        cache: CacheView<MVC::InnerValue, IM>,
    ) -> u64 {
        self.inner.cplx(self.value_converter.to_inner_spec(value), cache)
    }

    open spec fn value_cplx(&self, value: <MVC::Value as DeepView>::V) -> u64 {
        self.inner.value_cplx(self.value_converter.to_inner_spec(value))
    }

    open spec fn min_cplx(&self) -> u64 {
        self.inner.min_cplx()
    }

    open spec fn max_cplx(&self) -> u64 {
        self.inner.max_cplx()
    }

    open spec fn token_ok(
        &self,
        value: <MVC::Value as DeepView>::V,
        cache: CacheView<MVC::InnerValue, IM>,
        t: TokenView<MVC::InnerValue, IM>,
    ) -> bool {
        &&& self.valid(value, cache)
        &&& self.inner.token_ok(self.value_converter.to_inner_spec(value), cache, t)
    }

    open spec fn unmutate_spec(
        &self,
        value: <MVC::Value as DeepView>::V,
        cache: CacheView<MVC::InnerValue, IM>,
        t: TokenView<MVC::InnerValue, IM>,
    ) -> (<MVC::Value as DeepView>::V, CacheView<MVC::InnerValue, IM>) {
        let restored = self.inner.unmutate_spec(
            self.value_converter.to_inner_spec(value),
            cache,
            t,
        );
        (self.value_converter.from_inner_spec(restored.0), restored.1)
    }

    proof fn lemma_min_le_max(&self) {
        self.inner.lemma_min_le_max();
    }

    proof fn lemma_cplx_bounds(
        &self,
        value: <MVC::Value as DeepView>::V,
        cache: CacheView<MVC::InnerValue, IM>,
    ) {
        self.inner.lemma_cplx_bounds(self.value_converter.to_inner_spec(value), cache);
    }

    fn default_arbitrary_step(&self) -> IM::ArbitraryStep {
        self.inner.default_arbitrary_step()
    }

    fn validate_value(&self, value: &MVC::Value) -> (r: Option<IM::Cache>) {
        // values outside the converter's domain are rejected outright
        match self.value_converter.try_to_inner(value) {
            Some(f) => {
                match self.inner.validate_value(&f) {
                    Some(c) => Some(c),
                    None => None,
                }
            },
            None => None,
        }
    }

    fn default_mutation_step(&self, value: &MVC::Value, cache: &IM::Cache) -> (r:
        IM::MutationStep) {
        let f = self.value_converter.to_inner_value_ref(value);
        self.inner.default_mutation_step(&f, cache)
    }

    fn max_complexity(&self) -> (r: u64) {
        self.inner.max_complexity()
    }

    fn min_complexity(&self) -> (r: u64) {
        self.inner.min_complexity()
    }

    fn complexity(&self, value: &MVC::Value, cache: &IM::Cache) -> (r: u64) {
        let f = self.value_converter.to_inner_value_ref(value);
        self.inner.complexity(&f, cache)
    }

    fn ordered_arbitrary(&self, step: &mut IM::ArbitraryStep, max_cplx: u64) -> (r: Option<
        (MVC::Value, u64),
    >) {
        match self.inner.ordered_arbitrary(step, max_cplx) {
            Some((f, cx)) => {
                proof {
                    self.value_converter.lemma_inner_round_trip(f.deep_view());
                }
                Some((self.value_converter.from_inner_value_ref(&f), cx))
            },
            None => None,
        }
    }

    fn random_arbitrary(&self, max_cplx: u64) -> (r: (MVC::Value, u64)) {
        let (f, cx) = self.inner.random_arbitrary(max_cplx);
        proof {
            self.value_converter.lemma_inner_round_trip(f.deep_view());
        }
        (self.value_converter.from_inner_value_ref(&f), cx)
    }

    fn ordered_mutate(
        &self,
        value: &mut MVC::Value,
        cache: &mut IM::Cache,
        step: &mut IM::MutationStep,
        max_cplx: u64,
    ) -> (r: Option<(IM::UnmutateToken, u64)>) {
        let mut f = self.value_converter.to_inner_value_ref(value);
        let res = self.inner.ordered_mutate(&mut f, cache, step, max_cplx);
        match res {
            Some(tc) => {
                proof {
                    self.value_converter.lemma_inner_round_trip(f.deep_view());
                    self.value_converter.lemma_round_trip(old(value).deep_view());
                }
                *value = self.value_converter.from_inner_value_ref(&f);
                Some(tc)
            },
            None => None,
        }
    }

    fn random_mutate(&self, value: &mut MVC::Value, cache: &mut IM::Cache, max_cplx: u64) -> (r: (
        IM::UnmutateToken,
        u64,
    )) {
        let mut f = self.value_converter.to_inner_value_ref(value);
        let tc = self.inner.random_mutate(&mut f, cache, max_cplx);
        proof {
            self.value_converter.lemma_inner_round_trip(f.deep_view());
            self.value_converter.lemma_round_trip(old(value).deep_view());
        }
        *value = self.value_converter.from_inner_value_ref(&f);
        tc
    }

    fn unmutate(&self, value: &mut MVC::Value, cache: &mut IM::Cache, t: IM::UnmutateToken) {
        let mut f = self.value_converter.to_inner_value_ref(value);
        self.inner.unmutate(&mut f, cache, t);
        proof {
            self.value_converter.lemma_inner_round_trip(f.deep_view());
            self.value_converter.lemma_round_trip(old(value).deep_view());
        }
        *value = self.value_converter.from_inner_value_ref(&f);
    }

    fn default_recursing_part_index(&self, value: &MVC::Value, cache: &IM::Cache) -> (r: ()) {
    }

    fn recursing_part<'a, T, N>(
        &self,
        parent: &N,
        value: &'a MVC::Value,
        index: &mut (),
    ) -> Option<&'a T> {
        None
    }
}

} // verus!
