//! A mutator that owns a nonempty list of sub-mutators, all producing the
//! same value type. A mutation either substitutes a freshly generated value
//! (possibly from another sub-mutator) or mutates the value in place with
//! the sub-mutator that currently owns it; the token records which.

use core::marker::PhantomData;
use vstd::prelude::*;

use crate::mutators::seq_cplx::all_wf;
use crate::rng::{rng_new, rng_usize};
use crate::traits::{CacheView, Mutator, TokenView};

verus! {

broadcast use vstd::std_specs::vec::group_vec_axioms;

/// Cache of an alternation value: which sub-mutator owns the value, and
/// that sub-mutator's cache.
pub struct AltCache<C> {
    pub idx: usize,
    pub inner: C,
}

/// Deep view of [`AltCache`].
pub struct AltCacheView<CV> {
    pub idx: usize,
    pub inner: CV,
}

impl<C: DeepView> DeepView for AltCache<C> {
    type V = AltCacheView<C::V>;

    open spec fn deep_view(&self) -> Self::V {
        AltCacheView { idx: self.idx, inner: self.inner.deep_view() }
    }
}

/// Token that reverses one mutation of an alternation value.
pub enum AltToken<V: DeepView, M: Mutator<V>> {
    /// The whole value was substituted; the previous value and cache
    /// return.
    Replace(V, AltCache<M::Cache>),
    /// The owning sub-mutator mutated in place; undo with its token.
    Inner(usize, M::UnmutateToken),
}

/// Deep view of [`AltToken`].
pub enum AltTokenView<VV, KV, CV> {
    Replace(VV, AltCacheView<CV>),
    Inner(usize, KV),
}

impl<V: DeepView, M: Mutator<V>> DeepView for AltToken<V, M> {
    type V = AltTokenView<V::V, TokenView<V, M>, CacheView<V, M>>;

    open spec fn deep_view(&self) -> Self::V {
        match self {
            AltToken::Replace(v, c) => AltTokenView::Replace(v.deep_view(), c.deep_view()),
            AltToken::Inner(i, t) => AltTokenView::Inner(*i, t.deep_view()),
        }
    }
}

/// The first sub-mutator that accepts the value, scanning from `i`.
pub open spec fn first_accepting<V: DeepView, M: Mutator<V>>(
    ms: Seq<M>,
    v: V::V,
    i: int,
) -> Option<int>
    decreases ms.len() - i,
{
    if i < 0 || i >= ms.len() {
        None
    } else if ms[i].accepts(v) {
        Some(i)
    } else {
        first_accepting(ms, v, i + 1)
    }
}

/// A mutator that owns a nonempty list of sub-mutators producing the same
/// value type.
pub struct AlternationMutator<V: DeepView, M: Mutator<V>> {
    pub rng: fastrand::Rng,
    pub mutators: Vec<M>,
    pub min_complexity: u64,
    pub max_complexity: u64,
    pub min_index: usize,
    pub phantom: PhantomData<V>,
}

impl<V: DeepView, M: Mutator<V>> AlternationMutator<V, M> {
    /// Builds the mutator from a nonempty list of sub-mutators whose
    /// acceptance domains are pairwise disjoint.
    ///
    /// Disjointness makes the sub-mutator that generated a value the one
    /// that accepts it, which is what lets this mutator promise the shared
    /// complexity laws: with overlapping domains, a value generated within
    /// budget by one sub-mutator could be priced by an earlier-listed one
    /// whose complexity exceeds that budget, and the budget clause of
    /// `random_arbitrary` would be false.
    pub fn new(mutators: Vec<M>) -> (r: AlternationMutator<V, M>)
        requires
            mutators@.len() >= 1,
            all_wf(mutators@),
            forall|v: V::V, i: int, j: int|
                0 <= i < j < mutators@.len() && (#[trigger] mutators@[i].accepts(v)) ==> !(
                #[trigger] mutators@[j].accepts(v)),
        ensures
            r.m_wf(),
            r.mutators@ == mutators@,
    {
        let n = mutators.len();
        proof {
            assert(mutators@[0].m_wf());
            mutators@[0].lemma_min_le_max();
        }
        let mut min_complexity: u64 = mutators[0].min_complexity();
        let mut max_complexity: u64 = mutators[0].max_complexity();
        let mut min_index: usize = 0;
        let mut i: usize = 1;
        while i < n
            invariant
                n == mutators@.len(),
                all_wf(mutators@),
                1 <= i <= n,
                min_index < i,
                forall|j: int|
                    0 <= j < i ==> min_complexity <= (#[trigger] mutators@[j]).min_cplx(),
                forall|j: int|
                    0 <= j < i ==> (#[trigger] mutators@[j]).max_cplx() <= max_complexity,
                min_complexity == mutators@[min_index as int].min_cplx(),
                min_complexity <= max_complexity,
            decreases n - i,
        {
            proof {
                assert(mutators@[i as int].m_wf());
                mutators@[i as int].lemma_min_le_max();
            }
            let mn = mutators[i].min_complexity();
            let mx = mutators[i].max_complexity();
            if mn < min_complexity {
                min_complexity = mn;
                min_index = i;
            }
            if mx > max_complexity {
                max_complexity = mx;
            }
            i = i + 1;
        }
        AlternationMutator {
            rng: rng_new(),
            mutators,
            min_complexity,
            max_complexity,
            min_index,
            phantom: PhantomData,
        }
    }

    /// Validates the value with the first accepting sub-mutator.
    fn first_validate(&self, value: &V) -> (r: Option<AltCache<M::Cache>>)
        requires
            self.m_wf(),
        ensures
            (match r {
                Option::Some(cache) => {
                    &&& first_accepting::<V, M>(self.mutators@, value.deep_view(), 0) == Some(
                        cache.idx as int,
                    )
                    &&& (cache.idx as int) < self.mutators@.len()
                    &&& self.mutators@[cache.idx as int].valid(
                        value.deep_view(),
                        cache.inner.deep_view(),
                    )
                    &&& self.mutators@[cache.idx as int].cplx(
                        value.deep_view(),
                        cache.inner.deep_view(),
                    ) == self.mutators@[cache.idx as int].value_cplx(value.deep_view())
                },
                Option::None => first_accepting::<V, M>(self.mutators@, value.deep_view(), 0)
                    is None,
            }),
    {
        let n = self.mutators.len();
        let mut i: usize = 0;
        while i < n
            invariant
                self.m_wf(),
                n == self.mutators@.len(),
                0 <= i <= n,
                first_accepting::<V, M>(self.mutators@, value.deep_view(), 0) == first_accepting::<
                    V,
                    M,
                >(self.mutators@, value.deep_view(), i as int),
            decreases n - i,
        {
            match self.mutators[i].validate_value(value) {
                Some(c) => {
                    return Some(AltCache { idx: i, inner: c });
                },
                None => {
                },
            }
            i = i + 1;
        }
        None
    }
}

impl<V: DeepView, M: Mutator<V>> Mutator<V> for AlternationMutator<V, M> {
    type Cache = AltCache<M::Cache>;

    type MutationStep = M::MutationStep;

    type ArbitraryStep = ();

    type UnmutateToken = AltToken<V, M>;

    type RecursingPartIndex = ();

    open spec fn m_wf(&self) -> bool {
        &&& self.mutators@.len() >= 1
        &&& all_wf(self.mutators@)
        &&& forall|j: int|
            0 <= j < self.mutators@.len() ==> self.min_complexity <= (
            #[trigger] self.mutators@[j]).min_cplx()
        &&& forall|j: int|
            0 <= j < self.mutators@.len() ==> (#[trigger] self.mutators@[j]).max_cplx()
                <= self.max_complexity
        &&& self.min_complexity <= self.max_complexity
        &&& (self.min_index as int) < self.mutators@.len()
        &&& self.mutators@[self.min_index as int].min_cplx() == self.min_complexity
        &&& forall|v: V::V, i: int, j: int|
            0 <= i < j < self.mutators@.len() && (#[trigger] self.mutators@[i].accepts(v)) ==> !(
            #[trigger] self.mutators@[j].accepts(v))
    }

    open spec fn accepts(&self, value: V::V) -> bool {
        first_accepting::<V, M>(self.mutators@, value, 0) is Some
    }

    open spec fn valid(&self, value: V::V, cache: AltCacheView<CacheView<V, M>>) -> bool {
        &&& (cache.idx as int) < self.mutators@.len()
        &&& self.mutators@[cache.idx as int].valid(value, cache.inner)
    }

    open spec fn cplx(&self, value: V::V, cache: AltCacheView<CacheView<V, M>>) -> u64 {
        self.mutators@[cache.idx as int].cplx(value, cache.inner)
    }

    open spec fn value_cplx(&self, value: V::V) -> u64 {
        match first_accepting::<V, M>(self.mutators@, value, 0) {
            Option::Some(i) => self.mutators@[i].value_cplx(value),
            Option::None => 0,
        }
    }

    open spec fn min_cplx(&self) -> u64 {
        self.min_complexity
    }

    open spec fn max_cplx(&self) -> u64 {
        self.max_complexity
    }

    open spec fn token_ok(
        &self,
        value: V::V,
        cache: AltCacheView<CacheView<V, M>>,
        t: AltTokenView<V::V, TokenView<V, M>, CacheView<V, M>>,
    ) -> bool {
        match t {
            AltTokenView::Replace(ov, oc) => self.valid(ov, oc),
            AltTokenView::Inner(i, tk) => {
                &&& self.valid(value, cache)
                &&& i == cache.idx
                &&& self.mutators@[i as int].token_ok(value, cache.inner, tk)
                &&& self.mutators@[i as int].valid(
                    self.mutators@[i as int].unmutate_spec(value, cache.inner, tk).0,
                    self.mutators@[i as int].unmutate_spec(value, cache.inner, tk).1,
                )
            },
        }
    }

    open spec fn unmutate_spec(
        &self,
        value: V::V,
        cache: AltCacheView<CacheView<V, M>>,
        t: AltTokenView<V::V, TokenView<V, M>, CacheView<V, M>>,
    ) -> (V::V, AltCacheView<CacheView<V, M>>) {
        match t {
            AltTokenView::Replace(ov, oc) => (ov, oc),
            AltTokenView::Inner(i, tk) => {
                let restored = self.mutators@[i as int].unmutate_spec(value, cache.inner, tk);
                (restored.0, AltCacheView { idx: cache.idx, inner: restored.1 })
            },
        }
    }

    proof fn lemma_min_le_max(&self) {
    }

    proof fn lemma_cplx_bounds(&self, value: V::V, cache: AltCacheView<CacheView<V, M>>) {
        assert(self.mutators@[cache.idx as int].m_wf());
        self.mutators@[cache.idx as int].lemma_cplx_bounds(value, cache.inner);
    }

    fn default_arbitrary_step(&self) -> () {
    }

    fn validate_value(&self, value: &V) -> (r: Option<AltCache<M::Cache>>) {
        self.first_validate(value)
    }

    fn default_mutation_step(&self, value: &V, cache: &AltCache<M::Cache>) -> (r: M::MutationStep) {
        proof {
            assert(self.mutators@[cache.idx as int].m_wf());
        }
        self.mutators[cache.idx].default_mutation_step(value, &cache.inner)
    }

    fn max_complexity(&self) -> (r: u64) {
        self.max_complexity
    }

    fn min_complexity(&self) -> (r: u64) {
        self.min_complexity
    }

    fn complexity(&self, value: &V, cache: &AltCache<M::Cache>) -> (r: u64) {
        proof {
            assert(self.mutators@[cache.idx as int].m_wf());
        }
        self.mutators[cache.idx].complexity(value, &cache.inner)
    }

    fn ordered_arbitrary(&self, step: &mut (), max_cplx: u64) -> (r: Option<(V, u64)>) {
        if max_cplx < self.min_complexity {
            return None;
        }
        let vc = self.random_arbitrary(max_cplx);
        if vc.1 <= max_cplx {
            Some(vc)
        } else {
            None
        }
    }

    fn random_arbitrary(&self, max_cplx: u64) -> (r: (V, u64)) {
        let mut j = rng_usize(&self.rng, 0, self.mutators.len());
        proof {
            assert(self.mutators@[j as int].m_wf());
        }
        // fall back to the cheapest sub-mutator when the budget is short
        if self.mutators[j].min_complexity() > max_cplx {
            j = self.min_index;
        }
        proof {
            assert(self.mutators@[j as int].m_wf());
        }
        let (v, cx0) = self.mutators[j].random_arbitrary(max_cplx);
        // the domains are disjoint, so the generating sub-mutator is the
        // accepting one
        match self.first_validate(&v) {
            Some(cache) => {
                proof {
                    lemma_first_accepting_index::<V, M>(self.mutators@, v.deep_view(), 0);
                    assert(cache.idx == j) by {
                        if (cache.idx as int) < j as int {
                            assert(self.mutators@[cache.idx as int].accepts(v.deep_view()));
                            assert(!self.mutators@[j as int].accepts(v.deep_view()));
                        } else if (j as int) < cache.idx as int {
                            assert(!self.mutators@[cache.idx as int].accepts(v.deep_view()));
                        }
                    }
                    assert(self.mutators@[cache.idx as int].m_wf());
                }
                let cx = self.mutators[cache.idx].complexity(&v, &cache.inner);
                (v, cx)
            },
            None => {
                proof {
                    lemma_first_accepting_finds::<V, M>(self.mutators@, v.deep_view(), j as int);
                    assert(false);
                }
                unreached()
            },
        }
    }

    fn ordered_mutate(
        &self,
        value: &mut V,
        cache: &mut AltCache<M::Cache>,
        step: &mut M::MutationStep,
        max_cplx: u64,
    ) -> (r: Option<(AltToken<V, M>, u64)>)
        ensures
            (r is Some) <==> max_cplx >= self.min_cplx(),
    {
        if max_cplx < self.min_complexity {
            return None;
        }
        let idx = cache.idx;
        proof {
            assert(self.mutators@[idx as int].m_wf());
        }
        let res = self.mutators[idx].ordered_mutate(value, &mut cache.inner, step, max_cplx);
        match res {
            Some(tc) => Some((AltToken::Inner(idx, tc.0), tc.1)),
            None => Some(self.random_mutate(value, cache, max_cplx)),
        }
    }

    fn random_mutate(&self, value: &mut V, cache: &mut AltCache<M::Cache>, max_cplx: u64) -> (r: (
        AltToken<V, M>,
        u64,
    )) {
        let choice = rng_usize(&self.rng, 0, 10);
        if choice == 0 {
            // full substitution: the token carries the previous value
            let j = rng_usize(&self.rng, 0, self.mutators.len());
            proof {
                assert(self.mutators@[j as int].m_wf());
            }
            let (v, _) = self.mutators[j].random_arbitrary(max_cplx);
            match self.first_validate(&v) {
                Some(mut newc) => {
                    proof {
                        assert(self.mutators@[newc.idx as int].m_wf());
                    }
                    let cx = self.mutators[newc.idx].complexity(&v, &newc.inner);
                    let mut v2 = v;
                    core::mem::swap(value, &mut v2);
                    core::mem::swap(cache, &mut newc);
                    return (AltToken::Replace(v2, newc), cx);
                },
                None => {
                    proof {
                        lemma_first_accepting_finds::<V, M>(
                            self.mutators@,
                            v.deep_view(),
                            j as int,
                        );
                        assert(false);
                    }
                    unreached()
                },
            }
        }
        let idx = cache.idx;
        proof {
            assert(self.mutators@[idx as int].m_wf());
        }
        let tc = self.mutators[idx].random_mutate(value, &mut cache.inner, max_cplx);
        (AltToken::Inner(idx, tc.0), tc.1)
    }

    fn unmutate(&self, value: &mut V, cache: &mut AltCache<M::Cache>, t: AltToken<V, M>) {
        match t {
            AltToken::Replace(ov, oc) => {
                *value = ov;
                *cache = oc;
            },
            AltToken::Inner(i, tk) => {
                proof {
                    assert(self.mutators@[i as int].m_wf());
                }
                self.mutators[i].unmutate(value, &mut cache.inner, tk);
            },
        }
    }

    fn default_recursing_part_index(&self, value: &V, cache: &AltCache<M::Cache>) -> (r: ()) {
    }

    fn recursing_part<'a, T, N>(&self, parent: &N, value: &'a V, index: &mut ()) -> Option<&'a T> {
        None
    }
}

/// A value accepted by some sub-mutator is accepted by the scan.
proof fn lemma_first_accepting_finds<V: DeepView, M: Mutator<V>>(ms: Seq<M>, v: V::V, j: int)
    requires
        0 <= j < ms.len(),
        ms[j].accepts(v),
    ensures
        first_accepting::<V, M>(ms, v, 0) is Some,
{
    lemma_first_accepting_from::<V, M>(ms, v, 0, j);
}

proof fn lemma_first_accepting_from<V: DeepView, M: Mutator<V>>(ms: Seq<M>, v: V::V, i: int, j: int)
    requires
        0 <= i <= j < ms.len(),
        ms[j].accepts(v),
    ensures
        first_accepting::<V, M>(ms, v, i) is Some,
    decreases j - i,
{
    if i < j && !ms[i].accepts(v) {
        lemma_first_accepting_from::<V, M>(ms, v, i + 1, j);
    }
}


/// The scan's result is an accepting index, and everything before it
/// rejects.
proof fn lemma_first_accepting_index<V: DeepView, M: Mutator<V>>(ms: Seq<M>, v: V::V, i: int)
    requires
        0 <= i,
    ensures
        (match first_accepting::<V, M>(ms, v, i) {
            Option::Some(k) => i <= k < ms.len() && ms[k].accepts(v) && forall|t: int|
                i <= t < k ==> !(#[trigger] ms[t]).accepts(v),
            Option::None => forall|t: int| i <= t < ms.len() ==> !(#[trigger] ms[t]).accepts(v),
        }),
    decreases ms.len() - i,
{
    if i < ms.len() && !ms[i].accepts(v) {
        lemma_first_accepting_index::<V, M>(ms, v, i + 1);
    } else if i < ms.len() {
    }
}

} // verus!
