//! A mutator derived by projecting another mutator's value type onto a
//! second type through a bidirectional conversion.
//!
//! The projection parses an outer value into the inner representation and
//! maps an inner value back out. On every mutation of the inner value the
//! outer value is recomputed wholesale.

use core::marker::PhantomData;
use vstd::prelude::*;

use crate::traits::{CacheView, Mutator, TokenView};

verus! {

/// A bidirectional conversion between an inner representation and an outer
/// value type. Parsing accepts exactly the values that mapping can produce:
/// a parsed value maps back to the value it was parsed from.
pub trait Projection: Sized {
    type Inner: DeepView;

    type Outer: DeepView;

    /// The conversion is well formed.
    spec fn p_wf(&self) -> bool;

    /// What parsing returns, at the level of views.
    spec fn parse_spec(&self, t: <Self::Outer as DeepView>::V) -> Option<
        <Self::Inner as DeepView>::V,
    >;

    /// What mapping returns, at the level of views.
    spec fn map_spec(&self, f: <Self::Inner as DeepView>::V) -> <Self::Outer as DeepView>::V;

    /// A value that parses maps back to itself.
    proof fn lemma_parse_sound(&self, t: <Self::Outer as DeepView>::V)
        requires
            self.p_wf(),
            self.parse_spec(t) is Some,
        ensures
            self.map_spec(self.parse_spec(t)->0) == t,
    ;

    /// A mapped value parses back to the inner value it was mapped from.
    proof fn lemma_map_parses(&self, f: <Self::Inner as DeepView>::V)
        requires
            self.p_wf(),
        ensures
            self.parse_spec(self.map_spec(f)) == Some(f),
    ;

    /// Parses an outer value into the inner representation; rejection means
    /// the value is outside the projection's domain.
    fn parse(&self, t: &Self::Outer) -> (r: Option<Self::Inner>)
        requires
            self.p_wf(),
        ensures
            (match r {
                Option::Some(f) => self.parse_spec(t.deep_view()) == Some(f.deep_view()),
                Option::None => self.parse_spec(t.deep_view()) is None,
            }),
    ;

    /// Maps an inner value to its outer form.
    fn map(&self, f: &Self::Inner) -> (r: Self::Outer)
        requires
            self.p_wf(),
        ensures
            r.deep_view() == self.map_spec(f.deep_view()),
    ;
}

/// Cache of a projected value: the inner value and its own cache.
pub struct MapCache<F, C> {
    pub from_value: F,
    pub from_cache: C,
}

/// Deep view of [`MapCache`].
pub struct MapCacheView<FV, CV> {
    pub from_value: FV,
    pub from_cache: CV,
}

impl<F: DeepView, C: DeepView> DeepView for MapCache<F, C> {
    type V = MapCacheView<F::V, C::V>;

    open spec fn deep_view(&self) -> Self::V {
        MapCacheView {
            from_value: self.from_value.deep_view(),
            from_cache: self.from_cache.deep_view(),
        }
    }
}

/// A mutator for `P::Outer` values, built by projecting a mutator for
/// `P::Inner` through the conversion `P`.
pub struct MapMutator<P: Projection, M: Mutator<P::Inner>> {
    pub mutator: M,
    pub projection: P,
    pub phantom: PhantomData<P>,
}

impl<P: Projection, M: Mutator<P::Inner>> MapMutator<P, M> {
    /// Builds the projected mutator.
    pub fn new(mutator: M, projection: P) -> (r: MapMutator<P, M>)
        requires
            mutator.m_wf(),
            projection.p_wf(),
        ensures
            r.m_wf(),
            r.mutator == mutator,
            r.projection == projection,
    {
        MapMutator { mutator, projection, phantom: PhantomData }
    }
}

impl<P: Projection, M: Mutator<P::Inner>> Mutator<P::Outer> for MapMutator<P, M> {
    type Cache = MapCache<P::Inner, M::Cache>;

    type MutationStep = M::MutationStep;

    type ArbitraryStep = M::ArbitraryStep;

    type UnmutateToken = M::UnmutateToken;

    type RecursingPartIndex = ();

    open spec fn m_wf(&self) -> bool {
        &&& self.mutator.m_wf()
        &&& self.projection.p_wf()
    }

    open spec fn accepts(&self, value: <P::Outer as DeepView>::V) -> bool {
        &&& self.projection.parse_spec(value) is Some
        &&& self.mutator.accepts(self.projection.parse_spec(value)->0)
    }

    open spec fn valid(
        &self,
        value: <P::Outer as DeepView>::V,
        cache: MapCacheView<<P::Inner as DeepView>::V, CacheView<P::Inner, M>>,
    ) -> bool {
        &&& self.mutator.valid(cache.from_value, cache.from_cache)
        &&& value == self.projection.map_spec(cache.from_value)
    }

    open spec fn cplx(
        &self,
        value: <P::Outer as DeepView>::V,
        cache: MapCacheView<<P::Inner as DeepView>::V, CacheView<P::Inner, M>>,
    ) -> u64 {
        self.mutator.cplx(cache.from_value, cache.from_cache)
    }

    open spec fn value_cplx(&self, value: <P::Outer as DeepView>::V) -> u64 {
        if self.projection.parse_spec(value) is Some {
            self.mutator.value_cplx(self.projection.parse_spec(value)->0)
        } else {
            0
        }
    }

    open spec fn min_cplx(&self) -> u64 {
        self.mutator.min_cplx()
    }

    open spec fn max_cplx(&self) -> u64 {
        self.mutator.max_cplx()
    }

    open spec fn token_ok(
        &self,
        value: <P::Outer as DeepView>::V,
        cache: MapCacheView<<P::Inner as DeepView>::V, CacheView<P::Inner, M>>,
        t: TokenView<P::Inner, M>,
    ) -> bool {
        &&& self.valid(value, cache)
        &&& self.mutator.token_ok(cache.from_value, cache.from_cache, t)
    }

    open spec fn unmutate_spec(
        &self,
        value: <P::Outer as DeepView>::V,
        cache: MapCacheView<<P::Inner as DeepView>::V, CacheView<P::Inner, M>>,
        t: TokenView<P::Inner, M>,
    ) -> (
        <P::Outer as DeepView>::V,
        MapCacheView<<P::Inner as DeepView>::V, CacheView<P::Inner, M>>,
    ) {
        let restored = self.mutator.unmutate_spec(cache.from_value, cache.from_cache, t);
        (
            self.projection.map_spec(restored.0),
            MapCacheView { from_value: restored.0, from_cache: restored.1 },
        )
    }

    proof fn lemma_min_le_max(&self) {
        self.mutator.lemma_min_le_max();
    }

    proof fn lemma_cplx_bounds(
        &self,
        value: <P::Outer as DeepView>::V,
        cache: MapCacheView<<P::Inner as DeepView>::V, CacheView<P::Inner, M>>,
    ) {
        self.mutator.lemma_cplx_bounds(cache.from_value, cache.from_cache);
    }

    fn default_arbitrary_step(&self) -> M::ArbitraryStep {
        self.mutator.default_arbitrary_step()
    }

    fn validate_value(&self, value: &P::Outer) -> (r: Option<MapCache<P::Inner, M::Cache>>) {
        match self.projection.parse(value) {
            None => None,
            Some(from_value) => {
                match self.mutator.validate_value(&from_value) {
                    None => None,
                    Some(from_cache) => {
                        proof {
                            self.projection.lemma_parse_sound(value.deep_view());
                        }
                        Some(MapCache { from_value, from_cache })
                    },
                }
            },
        }
    }

    fn default_mutation_step(&self, value: &P::Outer, cache: &MapCache<P::Inner, M::Cache>) -> (r:
        M::MutationStep) {
        self.mutator.default_mutation_step(&cache.from_value, &cache.from_cache)
    }

    fn max_complexity(&self) -> (r: u64) {
        self.mutator.max_complexity()
    }

    fn min_complexity(&self) -> (r: u64) {
        self.mutator.min_complexity()
    }

    fn complexity(&self, value: &P::Outer, cache: &MapCache<P::Inner, M::Cache>) -> (r: u64) {
        self.mutator.complexity(&cache.from_value, &cache.from_cache)
    }

    fn ordered_arbitrary(&self, step: &mut M::ArbitraryStep, max_cplx: u64) -> (r: Option<
        (P::Outer, u64),
    >) {
        match self.mutator.ordered_arbitrary(step, max_cplx) {
            None => None,
            Some((from_value, cplx)) => {
                let to_value = self.projection.map(&from_value);
                proof {
                    self.lemma_roundtrip_accept(from_value.deep_view());
                }
                Some((to_value, cplx))
            },
        }
    }

    fn random_arbitrary(&self, max_cplx: u64) -> (r: (P::Outer, u64)) {
        let (from_value, cplx) = self.mutator.random_arbitrary(max_cplx);
        let to_value = self.projection.map(&from_value);
        proof {
            self.lemma_roundtrip_accept(from_value.deep_view());
        }
        (to_value, cplx)
    }

    fn ordered_mutate(
        &self,
        value: &mut P::Outer,
        cache: &mut MapCache<P::Inner, M::Cache>,
        step: &mut M::MutationStep,
        max_cplx: u64,
    ) -> (r: Option<(M::UnmutateToken, u64)>) {
        let res = self.mutator.ordered_mutate(
            &mut cache.from_value,
            &mut cache.from_cache,
            step,
            max_cplx,
        );
        match res {
            None => None,
            Some(tc) => {
                *value = self.projection.map(&cache.from_value);
                Some(tc)
            },
        }
    }

    fn random_mutate(
        &self,
        value: &mut P::Outer,
        cache: &mut MapCache<P::Inner, M::Cache>,
        max_cplx: u64,
    ) -> (r: (M::UnmutateToken, u64)) {
        let tc = self.mutator.random_mutate(&mut cache.from_value, &mut cache.from_cache, max_cplx);
        *value = self.projection.map(&cache.from_value);
        tc
    }

    fn unmutate(
        &self,
        value: &mut P::Outer,
        cache: &mut MapCache<P::Inner, M::Cache>,
        t: M::UnmutateToken,
    ) {
        self.mutator.unmutate(&mut cache.from_value, &mut cache.from_cache, t);
        *value = self.projection.map(&cache.from_value);
    }

    fn default_recursing_part_index(
        &self,
        value: &P::Outer,
        cache: &MapCache<P::Inner, M::Cache>,
    ) -> (r: ()) {
    }

    fn recursing_part<'a, T, N>(
        &self,
        parent: &N,
        value: &'a P::Outer,
        index: &mut (),
    ) -> Option<&'a T> {
        None
    }
}

impl<P: Projection, M: Mutator<P::Inner>> MapMutator<P, M> {
    /// A mapped value parses back to the inner value it was mapped from, so
    /// the projected mutator accepts it.
    proof fn lemma_roundtrip_accept(&self, f: <P::Inner as DeepView>::V)
        requires
            self.m_wf(),
            self.mutator.accepts(f),
        ensures
            self.accepts(self.projection.map_spec(f)),
            self.value_cplx(self.projection.map_spec(f)) == self.mutator.value_cplx(f),
    {
        self.projection.lemma_map_parses(f);
    }
}

} // verus!
