//! A mutator for vectors of a fixed length, with an independent child
//! mutator for each position.
//!
//! Only element-wise mutations and whole-vector replacements are possible:
//! the length never changes. The cache stores the child caches and the sum
//! of the element complexities; the vector's complexity is that sum.

use core::marker::PhantomData;
use vstd::prelude::*;

use crate::mutators::seq_cplx::{
    all_valid, all_wf, lemma_sum_cplx_bounds, lemma_sum_cplx_element_le, lemma_sum_cplx_nonneg,
    lemma_sum_cplx_update, lemma_sum_min_le_max, sum_cplx, sum_max_cplx, sum_min_cplx,
    sum_value_cplx,
};
use crate::rng::{rng_new, rng_usize};
use crate::traits::{CacheView, Mutator, TokenView};

verus! {

/// Cache of a vector value: the child caches and the sum of the element
/// complexities.
pub struct VecMutatorCache<C> {
    pub inner: Vec<C>,
    pub sum_cplx: u64,
}

/// Deep view of [`VecMutatorCache`].
pub struct VecMutatorCacheView<CV> {
    pub inner: Seq<CV>,
    pub sum_cplx: u64,
}

impl<C: DeepView> DeepView for VecMutatorCache<C> {
    type V = VecMutatorCacheView<C::V>;

    open spec fn deep_view(&self) -> Self::V {
        VecMutatorCacheView { inner: self.inner.deep_view(), sum_cplx: self.sum_cplx }
    }
}

/// Mutation cursor of a vector value: child cursors plus the round-robin
/// position counter.
pub struct MutationStep<S> {
    pub inner: Vec<S>,
    pub element_step: usize,
}

/// Cursor over the sub-values of a vector, for recursive grammars.
pub struct RecursingPartIndex<RPI> {
    pub inner: Vec<RPI>,
    pub indices: Vec<usize>,
}

/// Token that reverses one mutation of a fixed-length vector.
pub enum UnmutateVecToken<T: DeepView, M: Mutator<T>> {
    /// One element was mutated; undo it with the child token.
    Element(usize, M::UnmutateToken),
    /// Several elements were mutated; undo them front to back.
    Elements(Vec<(usize, M::UnmutateToken)>),
    /// The whole vector was replaced; the previous value and cache return.
    Replace(Vec<T>, VecMutatorCache<M::Cache>),
}

/// Deep view of [`UnmutateVecToken`].
pub enum UnmutateVecTokenView<TV, KV, CV> {
    Element(usize, KV),
    Elements(Seq<(usize, KV)>),
    Replace(Seq<TV>, VecMutatorCacheView<CV>),
}

impl<T: DeepView, M: Mutator<T>> DeepView for UnmutateVecToken<T, M> {
    type V = UnmutateVecTokenView<T::V, TokenView<T, M>, CacheView<T, M>>;

    open spec fn deep_view(&self) -> Self::V {
        match self {
            UnmutateVecToken::Element(i, t) => UnmutateVecTokenView::Element(*i, t.deep_view()),
            UnmutateVecToken::Elements(ts) => UnmutateVecTokenView::Elements(ts.deep_view()),
            UnmutateVecToken::Replace(v, c) => UnmutateVecTokenView::Replace(
                v.deep_view(),
                c.deep_view(),
            ),
        }
    }
}

/// The vector-level state: the value views paired with the cache view.
pub open spec fn vec_valid<T: DeepView, M: Mutator<T>>(
    ms: Seq<M>,
    vs: Seq<T::V>,
    c: VecMutatorCacheView<CacheView<T, M>>,
) -> bool {
    &&& vs.len() == ms.len()
    &&& all_valid(ms, vs, c.inner)
    &&& c.sum_cplx == sum_cplx(ms, vs, c.inner)
}

/// Applying one child token to one element, at the level of views.
pub open spec fn unmut_elem<T: DeepView, M: Mutator<T>>(
    ms: Seq<M>,
    vs: Seq<T::V>,
    c: VecMutatorCacheView<CacheView<T, M>>,
    i: int,
    tk: TokenView<T, M>,
) -> (Seq<T::V>, VecMutatorCacheView<CacheView<T, M>>) {
    let restored = ms[i].unmutate_spec(vs[i], c.inner[i], tk);
    (
        vs.update(i, restored.0),
        VecMutatorCacheView {
            inner: c.inner.update(i, restored.1),
            sum_cplx: (c.sum_cplx - ms[i].cplx(vs[i], c.inner[i]) + ms[i].cplx(
                restored.0,
                restored.1,
            )) as u64,
        },
    )
}

/// One child token is applicable at position `i` and restores a
/// synchronized element.
pub open spec fn elem_token_ok<T: DeepView, M: Mutator<T>>(
    ms: Seq<M>,
    vs: Seq<T::V>,
    c: VecMutatorCacheView<CacheView<T, M>>,
    i: int,
    tk: TokenView<T, M>,
) -> bool {
    &&& vec_valid(ms, vs, c)
    &&& 0 <= i < ms.len()
    &&& ms[i].token_ok(vs[i], c.inner[i], tk)
    &&& ms[i].valid(
        ms[i].unmutate_spec(vs[i], c.inner[i], tk).0,
        ms[i].unmutate_spec(vs[i], c.inner[i], tk).1,
    )
}

/// A list of child tokens is applicable front to back.
pub open spec fn elems_token_ok<T: DeepView, M: Mutator<T>>(
    ms: Seq<M>,
    vs: Seq<T::V>,
    c: VecMutatorCacheView<CacheView<T, M>>,
    toks: Seq<(usize, TokenView<T, M>)>,
) -> bool
    decreases toks.len(),
{
    if toks.len() == 0 {
        true
    } else {
        let i = toks[0].0 as int;
        let tk = toks[0].1;
        &&& elem_token_ok(ms, vs, c, i, tk)
        &&& {
            let applied = unmut_elem(ms, vs, c, i, tk);
            elems_token_ok(ms, applied.0, applied.1, toks.drop_first())
        }
    }
}

/// Applying a list of child tokens front to back, at the level of views.
pub open spec fn unmut_elems<T: DeepView, M: Mutator<T>>(
    ms: Seq<M>,
    vs: Seq<T::V>,
    c: VecMutatorCacheView<CacheView<T, M>>,
    toks: Seq<(usize, TokenView<T, M>)>,
) -> (Seq<T::V>, VecMutatorCacheView<CacheView<T, M>>)
    decreases toks.len(),
{
    if toks.len() == 0 {
        (vs, c)
    } else {
        let applied = unmut_elem(ms, vs, c, toks[0].0 as int, toks[0].1);
        unmut_elems(ms, applied.0, applied.1, toks.drop_first())
    }
}

/// Applying one applicable child token preserves vector-level validity, and
/// the complexity bookkeeping stays exact.
pub proof fn lemma_unmut_elem_valid<T: DeepView, M: Mutator<T>>(
    ms: Seq<M>,
    vs: Seq<T::V>,
    c: VecMutatorCacheView<CacheView<T, M>>,
    i: int,
    tk: TokenView<T, M>,
)
    requires
        all_wf(ms),
        sum_max_cplx(ms) <= u64::MAX,
        elem_token_ok(ms, vs, c, i, tk),
    ensures
        vec_valid(ms, unmut_elem(ms, vs, c, i, tk).0, unmut_elem(ms, vs, c, i, tk).1),
{
    let restored = ms[i].unmutate_spec(vs[i], c.inner[i], tk);
    let nvs = vs.update(i, restored.0);
    let ncs = c.inner.update(i, restored.1);
    lemma_sum_cplx_update(ms, vs, c.inner, i, restored.0, restored.1);
    lemma_sum_cplx_element_le(ms, vs, c.inner, i);
    assert(all_valid(ms, nvs, ncs)) by {
        assert(forall|j: int|
            0 <= j < ms.len() && j != i ==> nvs[j] == vs[j] && ncs[j] == c.inner[j]);
    }
    assert(sum_min_cplx(ms) <= sum_cplx(ms, nvs, ncs) <= sum_max_cplx(ms)) by {
        lemma_sum_cplx_bounds(ms, nvs, ncs);
    }
    lemma_sum_min_le_max::<T, M>(ms);
    assert(sum_cplx(ms, nvs, ncs) == c.sum_cplx - ms[i].cplx(vs[i], c.inner[i]) + ms[i].cplx(
        restored.0,
        restored.1,
    ));
    assert(unmut_elem(ms, vs, c, i, tk).1.sum_cplx == sum_cplx(ms, nvs, ncs));
}

/// A mutator for vectors of a fixed length; a different child mutator
/// drives each position.
pub struct FixedLenVecMutator<T: DeepView, M: Mutator<T>> {
    pub rng: fastrand::Rng,
    pub mutators: Vec<M>,
    pub min_complexity: u64,
    pub max_complexity: u64,
    pub phantom: PhantomData<T>,
}

impl<T: DeepView, M: Mutator<T> + Copy> FixedLenVecMutator<T, M> {
    /// Builds the mutator with the same child mutator at every position.
    pub fn new_with_repeated_mutator(mutator: M, len: usize) -> (r: Self)
        requires
            len >= 1,
            mutator.m_wf(),
            (len as int) * (mutator.max_cplx() as int) <= u64::MAX,
        ensures
            r.m_wf(),
            r.mutators@.len() == len,
    {
        let mut mutators: Vec<M> = Vec::new();
        let mut i: usize = 0;
        while i < len
            invariant
                0 <= i <= len,
                mutators@.len() == i,
                mutator.m_wf(),
                (len as int) * (mutator.max_cplx() as int) <= u64::MAX,
                forall|j: int| 0 <= j < i ==> (#[trigger] mutators@[j]) == mutator,
            decreases len - i,
        {
            mutators.push(mutator);
            i = i + 1;
        }
        proof {
            assert(all_wf(mutators@));
            lemma_sum_max_repeated::<T, M>(mutators@, mutator);
        }
        Self::new(mutators)
    }
}

/// The sum of maxima of identical mutators is the count times the maximum.
proof fn lemma_sum_max_repeated<T: DeepView, M: Mutator<T>>(ms: Seq<M>, m: M)
    requires
        forall|j: int| 0 <= j < ms.len() ==> (#[trigger] ms[j]) == m,
    ensures
        sum_max_cplx(ms) == (ms.len() as int) * (m.max_cplx() as int),
    decreases ms.len(),
{
    if ms.len() == 0 {
        assert((ms.len() as int) * (m.max_cplx() as int) == 0) by (nonlinear_arith)
            requires
                ms.len() == 0,
        ;
    } else {
        assert(forall|j: int|
            0 <= j < ms.drop_last().len() ==> (#[trigger] ms.drop_last()[j]) == m);
        lemma_sum_max_repeated::<T, M>(ms.drop_last(), m);
        assert((ms.len() as int - 1) * (m.max_cplx() as int) + m.max_cplx() as int == (
        ms.len() as int) * (m.max_cplx() as int)) by (nonlinear_arith);
    }
}

impl<T: DeepView, M: Mutator<T>> FixedLenVecMutator<T, M> {
    /// Builds the mutator from one child mutator per position.
    pub fn new(mutators: Vec<M>) -> (r: Self)
        requires
            mutators@.len() >= 1,
            all_wf(mutators@),
            sum_max_cplx(mutators@) <= u64::MAX,
        ensures
            r.m_wf(),
            r.mutators@ == mutators@,
    {
        proof {
            lemma_sum_min_le_max::<T, M>(mutators@);
        }
        let n = mutators.len();
        let mut min_complexity: u64 = 0;
        let mut max_complexity: u64 = 0;
        let mut i: usize = 0;
        while i < n
            invariant
                n == mutators@.len(),
                0 <= i <= n,
                all_wf(mutators@),
                sum_max_cplx(mutators@) <= u64::MAX,
                min_complexity == sum_min_cplx(mutators@.take(i as int)),
                max_complexity == sum_max_cplx(mutators@.take(i as int)),
            decreases n - i,
        {
            proof {
                assert(mutators@.take(i + 1).drop_last() =~= mutators@.take(i as int));
                assert(mutators@.take(i + 1).last() == mutators@[i as int]);
                lemma_sum_max_prefix::<T, M>(mutators@, i + 1);
                lemma_sum_min_le_max::<T, M>(mutators@.take(i + 1));
                assert(all_wf(mutators@.take(i + 1)));
            }
            min_complexity = min_complexity + mutators[i].min_complexity();
            max_complexity = max_complexity + mutators[i].max_complexity();
            i = i + 1;
        }
        proof {
            assert(mutators@.take(n as int) =~= mutators@);
        }
        FixedLenVecMutator {
            rng: rng_new(),
            mutators,
            min_complexity,
            max_complexity,
            phantom: PhantomData,
        }
    }
}

/// The sum of maxima over a prefix never exceeds the sum over the whole.
pub proof fn lemma_sum_max_prefix<T: DeepView, M: Mutator<T>>(ms: Seq<M>, k: int)
    requires
        0 <= k <= ms.len(),
    ensures
        sum_max_cplx(ms.take(k)) <= sum_max_cplx(ms),
    decreases ms.len(),
{
    if k == ms.len() {
        assert(ms.take(k) =~= ms);
    } else if ms.len() > 0 {
        assert(ms.take(k) =~= ms.drop_last().take(k));
        lemma_sum_max_prefix::<T, M>(ms.drop_last(), k);
    }
}

/// The sum of minima over a prefix never exceeds the sum over the whole.
pub proof fn lemma_sum_min_prefix<T: DeepView, M: Mutator<T>>(ms: Seq<M>, k: int)
    requires
        0 <= k <= ms.len(),
    ensures
        sum_min_cplx(ms.take(k)) <= sum_min_cplx(ms),
    decreases ms.len(),
{
    if k == ms.len() {
        assert(ms.take(k) =~= ms);
    } else if ms.len() > 0 {
        assert(ms.take(k) =~= ms.drop_last().take(k));
        lemma_sum_min_prefix::<T, M>(ms.drop_last(), k);
    }
}

impl<T: DeepView, M: Mutator<T>> Mutator<Vec<T>> for FixedLenVecMutator<T, M> {
    type Cache = VecMutatorCache<M::Cache>;

    type MutationStep = MutationStep<M::MutationStep>;

    type ArbitraryStep = ();

    type UnmutateToken = UnmutateVecToken<T, M>;

    type RecursingPartIndex = RecursingPartIndex<M::RecursingPartIndex>;

    open spec fn m_wf(&self) -> bool {
        &&& self.mutators@.len() >= 1
        &&& all_wf(self.mutators@)
        &&& self.min_complexity == sum_min_cplx(self.mutators@)
        &&& self.max_complexity == sum_max_cplx(self.mutators@)
        &&& sum_max_cplx(self.mutators@) <= u64::MAX
    }

    open spec fn accepts(&self, value: Seq<T::V>) -> bool {
        &&& value.len() == self.mutators@.len()
        &&& forall|i: int|
            0 <= i < value.len() ==> (#[trigger] self.mutators@[i]).accepts(value[i])
    }

    open spec fn valid(
        &self,
        value: Seq<T::V>,
        cache: VecMutatorCacheView<CacheView<T, M>>,
    ) -> bool {
        vec_valid(self.mutators@, value, cache)
    }

    open spec fn cplx(&self, value: Seq<T::V>, cache: VecMutatorCacheView<CacheView<T, M>>) -> u64 {
        cache.sum_cplx
    }

    open spec fn value_cplx(&self, value: Seq<T::V>) -> u64 {
        if sum_value_cplx(self.mutators@, value) <= u64::MAX {
            sum_value_cplx(self.mutators@, value) as u64
        } else {
            u64::MAX
        }
    }

    open spec fn min_cplx(&self) -> u64 {
        self.min_complexity
    }

    open spec fn max_cplx(&self) -> u64 {
        self.max_complexity
    }

    open spec fn token_ok(
        &self,
        value: Seq<T::V>,
        cache: VecMutatorCacheView<CacheView<T, M>>,
        t: UnmutateVecTokenView<T::V, TokenView<T, M>, CacheView<T, M>>,
    ) -> bool {
        match t {
            UnmutateVecTokenView::Element(i, tk) => elem_token_ok(
                self.mutators@,
                value,
                cache,
                i as int,
                tk,
            ),
            UnmutateVecTokenView::Elements(toks) => elems_token_ok(
                self.mutators@,
                value,
                cache,
                toks,
            ),
            UnmutateVecTokenView::Replace(ov, oc) => vec_valid(self.mutators@, ov, oc),
        }
    }

    open spec fn unmutate_spec(
        &self,
        value: Seq<T::V>,
        cache: VecMutatorCacheView<CacheView<T, M>>,
        t: UnmutateVecTokenView<T::V, TokenView<T, M>, CacheView<T, M>>,
    ) -> (Seq<T::V>, VecMutatorCacheView<CacheView<T, M>>) {
        match t {
            UnmutateVecTokenView::Element(i, tk) => unmut_elem(
                self.mutators@,
                value,
                cache,
                i as int,
                tk,
            ),
            UnmutateVecTokenView::Elements(toks) => unmut_elems(self.mutators@, value, cache, toks),
            UnmutateVecTokenView::Replace(ov, oc) => (ov, oc),
        }
    }

    proof fn lemma_min_le_max(&self) {
        lemma_sum_min_le_max::<T, M>(self.mutators@);
    }

    proof fn lemma_cplx_bounds(&self, value: Seq<T::V>, cache: VecMutatorCacheView<CacheView<T, M>>) {
        lemma_sum_cplx_bounds(self.mutators@, value, cache.inner);
    }

    fn default_arbitrary_step(&self) -> () {
    }

    fn validate_value(&self, value: &Vec<T>) -> (r: Option<VecMutatorCache<M::Cache>>) {
        let n = self.mutators.len();
        if value.len() != n {
            assert(!self.accepts(value.deep_view()));
            return None;
        }
        let ghost msv = self.mutators@;
        let ghost vsv = value.deep_view();
        let mut inner: Vec<M::Cache> = Vec::new();
        let mut sum: u64 = 0;
        let mut i: usize = 0;
        while i < n
            invariant
                self.m_wf(),
                n == msv.len(),
                msv == self.mutators@,
                vsv == value.deep_view(),
                vsv.len() == n,
                0 <= i <= n,
                inner.deep_view().len() == i,
                all_valid(msv.take(i as int), vsv.take(i as int), inner.deep_view()),
                forall|j: int| 0 <= j < i ==> (#[trigger] msv[j]).accepts(vsv[j]),
                sum == sum_cplx(msv.take(i as int), vsv.take(i as int), inner.deep_view()),
                sum == sum_value_cplx(msv.take(i as int), vsv.take(i as int)),
            decreases n - i,
        {
            proof {
                assert(vsv[i as int] == value[i as int].deep_view());
            }
            match self.mutators[i].validate_value(&value[i]) {
                None => {
                    assert(!msv[i as int].accepts(vsv[i as int]));
                    assert(!self.accepts(vsv));
                    return None;
                },
                Some(c) => {
                    let cx = self.mutators[i].complexity(&value[i], &c);
                    proof {
                        let pms = msv.take(i + 1);
                        let pvs = vsv.take(i + 1);
                        let pcs = inner.deep_view().push(c.deep_view());
                        assert(pms.drop_last() =~= msv.take(i as int));
                        assert(pvs.drop_last() =~= vsv.take(i as int));
                        assert(pcs.drop_last() =~= inner.deep_view());
                        assert(pms.last() == msv[i as int]);
                        assert(pvs.last() == vsv[i as int]);
                        assert(pcs.last() == c.deep_view());
                        lemma_sum_cplx_nonneg(
                            msv.take(i as int),
                            vsv.take(i as int),
                            inner.deep_view(),
                        );
                        assert(all_wf(pms));
                        assert(all_valid(pms, pvs, pcs)) by {
                            assert(forall|j: int|
                                0 <= j < i ==> pvs[j] == vsv.take(i as int)[j] && pcs[j]
                                    == inner.deep_view()[j] && pms[j] == msv.take(i as int)[j]);
                        }
                        lemma_sum_cplx_bounds(pms, pvs, pcs);
                        lemma_sum_max_prefix::<T, M>(msv, i + 1);
                        lemma_sum_min_le_max::<T, M>(pms);
                    }
                    sum = sum + cx;
                    let ghost prev = inner.deep_view();
                    let ghost cv = c.deep_view();
                    inner.push(c);
                    proof {
                        assert(inner.deep_view() =~= prev.push(cv));
                    }
                },
            }
            i = i + 1;
        }
        proof {
            assert(msv.take(n as int) =~= msv);
            assert(vsv.take(n as int) =~= vsv);
        }
        Some(VecMutatorCache { inner, sum_cplx: sum })
    }

    fn default_mutation_step(&self, value: &Vec<T>, cache: &VecMutatorCache<M::Cache>) -> (r:
        MutationStep<M::MutationStep>) {
        let n = self.mutators.len();
        let mut inner: Vec<M::MutationStep> = Vec::new();
        let mut i: usize = 0;
        while i < n
            invariant
                self.m_wf(),
                self.valid(value.deep_view(), cache.deep_view()),
                n == self.mutators@.len(),
                0 <= i <= n,
            decreases n - i,
        {
            proof {
                assert(value.deep_view()[i as int] == value[i as int].deep_view());
                assert(cache.inner.deep_view()[i as int] == cache.inner[i as int].deep_view());
            }
            inner.push(self.mutators[i].default_mutation_step(&value[i], &cache.inner[i]));
            i = i + 1;
        }
        MutationStep { inner, element_step: 0 }
    }

    fn max_complexity(&self) -> (r: u64) {
        self.max_complexity
    }

    fn min_complexity(&self) -> (r: u64) {
        self.min_complexity
    }

    fn complexity(&self, value: &Vec<T>, cache: &VecMutatorCache<M::Cache>) -> (r: u64) {
        cache.sum_cplx
    }

    fn ordered_arbitrary(&self, step: &mut (), max_cplx: u64) -> (r: Option<(Vec<T>, u64)>)
        ensures
            (r is Some) <==> max_cplx >= self.min_cplx(),
    {
        if max_cplx < self.min_complexity {
            return None;
        }
        Some(self.random_arbitrary(max_cplx))
    }

    fn random_arbitrary(&self, max_cplx: u64) -> (r: (Vec<T>, u64)) {
        let rc = self.new_input_and_cache(max_cplx);
        (rc.0, rc.2)
    }

    fn ordered_mutate(
        &self,
        value: &mut Vec<T>,
        cache: &mut VecMutatorCache<M::Cache>,
        step: &mut MutationStep<M::MutationStep>,
        max_cplx: u64,
    ) -> (r: Option<(UnmutateVecToken<T, M>, u64)>)
        ensures
            (r is Some) <==> max_cplx >= self.min_cplx(),
    {
        if max_cplx < self.min_complexity {
            return None;
        }
        if rng_usize(&self.rng, 0, 100) == 0 {
            return Some(self.replace_mutation(value, cache, max_cplx));
        }
        if step.inner.len() != self.mutators.len() || step.element_step >= usize::MAX {
            return Some(self.random_mutate(value, cache, max_cplx));
        }
        let idx = step.element_step % self.mutators.len();
        step.element_step = step.element_step + 1;
        let current_cplx = cache.sum_cplx;
        let spare: u64 = if max_cplx > current_cplx {
            max_cplx - current_cplx
        } else {
            0
        };
        match self.mutate_element(value, cache, step, idx, spare) {
            Some(tc) => Some(tc),
            None => Some(self.random_mutate(value, cache, max_cplx)),
        }
    }

    fn random_mutate(
        &self,
        value: &mut Vec<T>,
        cache: &mut VecMutatorCache<M::Cache>,
        max_cplx: u64,
    ) -> (r: (UnmutateVecToken<T, M>, u64)) {
        if rng_usize(&self.rng, 0, 100) == 0 {
            return self.replace_mutation(value, cache, max_cplx);
        }
        let current_cplx = cache.sum_cplx;
        let spare: u64 = if max_cplx > current_cplx {
            max_cplx - current_cplx
        } else {
            0
        };
        let idx = rng_usize(&self.rng, 0, self.mutators.len());
        self.random_mutate_element(value, cache, idx, spare)
    }

    fn unmutate(
        &self,
        value: &mut Vec<T>,
        cache: &mut VecMutatorCache<M::Cache>,
        t: UnmutateVecToken<T, M>,
    ) {
        match t {
            UnmutateVecToken::Element(idx, tk) => {
                self.unmutate_element(value, cache, idx, tk);
            },
            UnmutateVecToken::Elements(mut ts) => {
                let ghost goal = self.unmutate_spec(
                    old(value).deep_view(),
                    old(cache).deep_view(),
                    UnmutateVecTokenView::Elements(ts.deep_view()),
                );
                while ts.len() > 0
                    invariant
                        self.m_wf(),
                        self.valid(value.deep_view(), cache.deep_view()),
                        elems_token_ok(self.mutators@, value.deep_view(), cache.deep_view(), ts.deep_view()),
                        unmut_elems(self.mutators@, value.deep_view(), cache.deep_view(), ts.deep_view()) == goal,
                    decreases ts.len(),
                {
                    let ghost tsv0 = ts.deep_view();
                    let itk = ts.remove(0);
                    proof {
                        assert(ts.deep_view() =~= tsv0.drop_first());
                        assert(itk.deep_view() == tsv0[0]);
                    }
                    self.unmutate_element(value, cache, itk.0, itk.1);
                }
            },
            UnmutateVecToken::Replace(ov, oc) => {
                *value = ov;
                *cache = oc;
            },
        }
    }

    fn default_recursing_part_index(
        &self,
        value: &Vec<T>,
        cache: &VecMutatorCache<M::Cache>,
    ) -> (r: RecursingPartIndex<M::RecursingPartIndex>) {
        let n = self.mutators.len();
        let mut inner: Vec<M::RecursingPartIndex> = Vec::new();
        let mut indices: Vec<usize> = Vec::new();
        let mut i: usize = 0;
        while i < n
            invariant
                self.m_wf(),
                self.valid(value.deep_view(), cache.deep_view()),
                n == self.mutators@.len(),
                0 <= i <= n,
            decreases n - i,
        {
            proof {
                assert(value.deep_view()[i as int] == value[i as int].deep_view());
                assert(cache.inner.deep_view()[i as int] == cache.inner[i as int].deep_view());
            }
            inner.push(self.mutators[i].default_recursing_part_index(&value[i], &cache.inner[i]));
            indices.push(i);
            i = i + 1;
        }
        RecursingPartIndex { inner, indices }
    }

    fn recursing_part<'a, V2, N>(
        &self,
        parent: &N,
        value: &'a Vec<T>,
        index: &mut RecursingPartIndex<M::RecursingPartIndex>,
    ) -> Option<&'a V2> {
        self.recursing_part_in(parent, value, index)
    }
}

impl<T: DeepView, M: Mutator<T>> FixedLenVecMutator<T, M> {
    /// Builds a fresh vector, its cache, and its complexity, spending at
    /// most `max_cplx` whenever the budget admits any value at all.
    fn new_input_and_cache(&self, max_cplx: u64) -> (r: (Vec<T>, VecMutatorCache<M::Cache>, u64))
        requires
            self.m_wf(),
        ensures
            self.accepts(r.0.deep_view()),
            self.valid(r.0.deep_view(), r.1.deep_view()),
            r.2 == self.cplx(r.0.deep_view(), r.1.deep_view()),
            r.2 == self.value_cplx(r.0.deep_view()),
            max_cplx >= self.min_cplx() ==> r.2 <= max_cplx,
    {
        let n = self.mutators.len();
        let ghost msv = self.mutators@;
        let extra: u64 = if max_cplx >= self.min_complexity {
            max_cplx - self.min_complexity
        } else {
            0
        };
        let mut used_extra: u64 = 0;
        let mut out: Vec<T> = Vec::new();
        let mut inner: Vec<M::Cache> = Vec::new();
        let mut sum: u64 = 0;
        let mut i: usize = 0;
        while i < n
            invariant
                self.m_wf(),
                n == msv.len(),
                msv == self.mutators@,
                0 <= i <= n,
                out.deep_view().len() == i,
                inner.deep_view().len() == i,
                max_cplx >= self.min_complexity ==> extra == max_cplx - self.min_complexity,
                max_cplx < self.min_complexity ==> extra == 0,
                used_extra <= extra,
                all_valid(msv.take(i as int), out.deep_view(), inner.deep_view()),
                forall|j: int| 0 <= j < i ==> (#[trigger] msv[j]).accepts(out.deep_view()[j]),
                sum == sum_cplx(msv.take(i as int), out.deep_view(), inner.deep_view()),
                sum == sum_value_cplx(msv.take(i as int), out.deep_view()),
                sum <= sum_min_cplx(msv.take(i as int)) + used_extra,
            decreases n - i,
        {
            let m = &self.mutators[i];
            let mi_min = m.min_complexity();
            let avail: u64 = extra - used_extra;
            let budget: u64 = if avail > u64::MAX - mi_min {
                u64::MAX
            } else {
                mi_min + avail
            };
            let (x, cx) = m.random_arbitrary(budget);
            let c = match m.validate_value(&x) {
                Some(c) => c,
                None => {
                    proof {
                        assert(false);
                    }
                    unreached()
                },
            };
            // cx <= budget, and cx beyond the element's minimum eats into
            // the shared slack
            let cx_extra: u64 = if cx > mi_min {
                cx - mi_min
            } else {
                0
            };
            proof {
                assert(budget >= mi_min);
                assert(cx <= budget);
                if avail > u64::MAX - mi_min {
                    assert(budget == u64::MAX);
                    assert(cx_extra <= u64::MAX - mi_min);
                    assert(cx_extra <= avail);
                } else {
                    assert(budget == mi_min + avail);
                    assert(cx_extra <= avail);
                }
                assert(cx <= mi_min + cx_extra);
                lemma_sum_min_prefix::<T, M>(msv, i + 1);
                assert(msv.take(i + 1).drop_last() =~= msv.take(i as int));
                assert(msv.take(i + 1).last() == msv[i as int]);
                lemma_sum_cplx_nonneg(msv.take(i as int), out.deep_view(), inner.deep_view());
                lemma_sum_min_le_max::<T, M>(msv);
                // the running sum stays under the budget-derived cap
                assert(mi_min == msv[i as int].min_cplx());
                assert(sum_min_cplx(msv.take(i + 1)) == sum_min_cplx(msv.take(i + 1).drop_last())
                    + msv.take(i + 1).last().min_cplx());
                assert(sum_min_cplx(msv.take(i + 1).drop_last()) == sum_min_cplx(
                    msv.take(i as int),
                ));
                assert(sum_min_cplx(msv.take(i + 1)) == sum_min_cplx(msv.take(i as int)) + mi_min);
                assert(sum + cx <= sum_min_cplx(msv.take(i + 1)) + used_extra + cx_extra);
                assert(sum_min_cplx(msv.take(i + 1)) + used_extra + cx_extra <= sum_min_cplx(msv)
                    + extra);
                if max_cplx >= self.min_complexity {
                    assert(sum_min_cplx(msv) + extra == max_cplx);
                } else {
                    assert(extra == 0);
                    assert(sum_min_cplx(msv) <= sum_max_cplx(msv));
                }
            }
            used_extra = used_extra + cx_extra;
            sum = sum + cx;
            let ghost pout = out.deep_view();
            let ghost pinner = inner.deep_view();
            let ghost xv = x.deep_view();
            let ghost cv = c.deep_view();
            out.push(x);
            inner.push(c);
            proof {
                assert(out.deep_view() =~= pout.push(xv));
                assert(inner.deep_view() =~= pinner.push(cv));
                let pms = msv.take(i + 1);
                let pvs = out.deep_view();
                let pcs = inner.deep_view();
                assert(pvs.drop_last() =~= pout);
                assert(pcs.drop_last() =~= pinner);
                assert(pms.drop_last() =~= msv.take(i as int));
                assert(all_valid(pms, pvs, pcs)) by {
                    assert(forall|j: int|
                        0 <= j < i ==> pvs[j] == pout[j] && pcs[j] == pinner[j] && pms[j]
                            == msv.take(i as int)[j]);
                }
            }
            i = i + 1;
        }
        proof {
            assert(msv.take(n as int) =~= msv);
            if max_cplx >= self.min_complexity {
                assert(sum <= sum_min_cplx(msv) + extra);
                assert(sum_min_cplx(msv) + extra == max_cplx);
            }
        }
        (out, VecMutatorCache { inner, sum_cplx: sum }, sum)
    }

    /// Replaces the whole vector with a freshly generated one; the token
    /// returns the previous value and cache.
    fn replace_mutation(
        &self,
        value: &mut Vec<T>,
        cache: &mut VecMutatorCache<M::Cache>,
        max_cplx: u64,
    ) -> (r: (UnmutateVecToken<T, M>, u64))
        requires
            self.m_wf(),
            self.valid(old(value).deep_view(), old(cache).deep_view()),
        ensures
            self.valid(final(value).deep_view(), final(cache).deep_view()),
            r.1 == self.cplx(final(value).deep_view(), final(cache).deep_view()),
            self.token_ok(final(value).deep_view(), final(cache).deep_view(), r.0.deep_view()),
            self.unmutate_spec(final(value).deep_view(), final(cache).deep_view(), r.0.deep_view())
                == (old(value).deep_view(), old(cache).deep_view()),
    {
        let rc = self.new_input_and_cache(max_cplx);
        let mut v = rc.0;
        let mut c = rc.1;
        core::mem::swap(value, &mut v);
        core::mem::swap(cache, &mut c);
        (UnmutateVecToken::Replace(v, c), rc.2)
    }

    /// Runs the child's ordered mutation on the element at `idx`.
    fn mutate_element(
        &self,
        value: &mut Vec<T>,
        cache: &mut VecMutatorCache<M::Cache>,
        step: &mut MutationStep<M::MutationStep>,
        idx: usize,
        spare_cplx: u64,
    ) -> (r: Option<(UnmutateVecToken<T, M>, u64)>)
        requires
            self.m_wf(),
            self.valid(old(value).deep_view(), old(cache).deep_view()),
            idx < self.mutators@.len(),
            old(step).inner.len() == self.mutators@.len(),
        ensures
            (match r {
                Option::Some(tc) => {
                    &&& self.valid(final(value).deep_view(), final(cache).deep_view())
                    &&& tc.1 == self.cplx(final(value).deep_view(), final(cache).deep_view())
                    &&& self.token_ok(
                        final(value).deep_view(),
                        final(cache).deep_view(),
                        tc.0.deep_view(),
                    )
                    &&& self.unmutate_spec(
                        final(value).deep_view(),
                        final(cache).deep_view(),
                        tc.0.deep_view(),
                    ) == (old(value).deep_view(), old(cache).deep_view())
                },
                Option::None => final(value).deep_view() == old(value).deep_view()
                    && final(cache).deep_view() == old(cache).deep_view(),
            }),
    {
        let ghost msv = self.mutators@;
        let ghost vsv0 = old(value).deep_view();
        let ghost csv0 = old(cache).deep_view();
        let m = &self.mutators[idx];
        let old_el_cplx = m.complexity(&value[idx], &cache.inner[idx]);
        proof {
            assert(value.deep_view()[idx as int] == value[idx as int].deep_view());
            assert(cache.inner.deep_view()[idx as int] == cache.inner[idx as int].deep_view());
            lemma_sum_cplx_element_le(msv, vsv0, csv0.inner, idx as int);
        }
        let budget: u64 = if spare_cplx > u64::MAX - old_el_cplx {
            u64::MAX
        } else {
            spare_cplx + old_el_cplx
        };
        let sum0 = cache.sum_cplx;
        let el = &mut value[idx];
        let el_cache = &mut cache.inner[idx];
        let el_step = &mut step.inner[idx];
        let res = m.ordered_mutate(el, el_cache, el_step, budget);
        match res {
            Some(tc) => {
                let new_el_cplx = tc.1;
                proof {
                    lemma_sum_cplx_update(
                        msv,
                        vsv0,
                        csv0.inner,
                        idx as int,
                        value.deep_view()[idx as int],
                        cache.inner.deep_view()[idx as int],
                    );
                    assert(value.deep_view() =~= vsv0.update(
                        idx as int,
                        value.deep_view()[idx as int],
                    ));
                    assert(cache.inner.deep_view() =~= csv0.inner.update(
                        idx as int,
                        cache.inner.deep_view()[idx as int],
                    ));
                    assert(all_valid(msv, value.deep_view(), cache.inner.deep_view()));
                    lemma_sum_cplx_bounds(msv, value.deep_view(), cache.inner.deep_view());
                    lemma_sum_min_le_max::<T, M>(msv);
                    lemma_sum_cplx_nonneg(msv, value.deep_view(), cache.inner.deep_view());
                }
                let new_sum: u64 = (sum0 - old_el_cplx) + new_el_cplx;
                cache.sum_cplx = new_sum;
                proof {
                    let vsv1 = value.deep_view();
                    let csv1i = cache.inner.deep_view();
                    let tkv = tc.0.deep_view();
                    let restored = msv[idx as int].unmutate_spec(
                        vsv1[idx as int],
                        csv1i[idx as int],
                        tkv,
                    );
                    assert(restored == (vsv0[idx as int], csv0.inner[idx as int]));
                    assert(vsv1.update(idx as int, restored.0) =~= vsv0);
                    assert(csv1i.update(idx as int, restored.1) =~= csv0.inner);
                    assert(msv[idx as int].cplx(restored.0, restored.1) == old_el_cplx);
                    assert(unmut_elem(msv, vsv1, cache.deep_view(), idx as int, tkv).1.inner
                        == csv0.inner);
                    assert(unmut_elem(msv, vsv1, cache.deep_view(), idx as int, tkv).1.sum_cplx
                        == csv0.sum_cplx);
                    assert(unmut_elem(msv, vsv1, cache.deep_view(), idx as int, tkv).1 == csv0);
                }
                Some((UnmutateVecToken::Element(idx, tc.0), new_sum))
            },
            None => {
                proof {
                    assert(value.deep_view() =~= vsv0);
                    assert(cache.inner.deep_view() =~= csv0.inner);
                }
                None
            },
        }
    }

    /// Runs the child's random mutation on the element at `idx`.
    fn random_mutate_element(
        &self,
        value: &mut Vec<T>,
        cache: &mut VecMutatorCache<M::Cache>,
        idx: usize,
        spare_cplx: u64,
    ) -> (r: (UnmutateVecToken<T, M>, u64))
        requires
            self.m_wf(),
            self.valid(old(value).deep_view(), old(cache).deep_view()),
            idx < self.mutators@.len(),
        ensures
            (r.0 matches UnmutateVecToken::Element(i2, _) && i2 == idx),
            self.valid(final(value).deep_view(), final(cache).deep_view()),
            r.1 == self.cplx(final(value).deep_view(), final(cache).deep_view()),
            self.token_ok(final(value).deep_view(), final(cache).deep_view(), r.0.deep_view()),
            self.unmutate_spec(final(value).deep_view(), final(cache).deep_view(), r.0.deep_view())
                == (old(value).deep_view(), old(cache).deep_view()),
    {
        let ghost msv = self.mutators@;
        let ghost vsv0 = old(value).deep_view();
        let ghost csv0 = old(cache).deep_view();
        let m = &self.mutators[idx];
        let old_el_cplx = m.complexity(&value[idx], &cache.inner[idx]);
        proof {
            assert(value.deep_view()[idx as int] == value[idx as int].deep_view());
            assert(cache.inner.deep_view()[idx as int] == cache.inner[idx as int].deep_view());
            lemma_sum_cplx_element_le(msv, vsv0, csv0.inner, idx as int);
        }
        let budget: u64 = if spare_cplx > u64::MAX - old_el_cplx {
            u64::MAX
        } else {
            spare_cplx + old_el_cplx
        };
        let sum0 = cache.sum_cplx;
        let el = &mut value[idx];
        let el_cache = &mut cache.inner[idx];
        let tc = m.random_mutate(el, el_cache, budget);
        let new_el_cplx = tc.1;
        proof {
            lemma_sum_cplx_update(
                msv,
                vsv0,
                csv0.inner,
                idx as int,
                value.deep_view()[idx as int],
                cache.inner.deep_view()[idx as int],
            );
            assert(value.deep_view() =~= vsv0.update(idx as int, value.deep_view()[idx as int]));
            assert(cache.inner.deep_view() =~= csv0.inner.update(
                idx as int,
                cache.inner.deep_view()[idx as int],
            ));
            assert(all_valid(msv, value.deep_view(), cache.inner.deep_view()));
            lemma_sum_cplx_bounds(msv, value.deep_view(), cache.inner.deep_view());
            lemma_sum_min_le_max::<T, M>(msv);
            lemma_sum_cplx_nonneg(msv, value.deep_view(), cache.inner.deep_view());
        }
        let new_sum: u64 = (sum0 - old_el_cplx) + new_el_cplx;
        cache.sum_cplx = new_sum;
        proof {
            let vsv1 = value.deep_view();
            let csv1i = cache.inner.deep_view();
            let tkv = tc.0.deep_view();
            let restored = msv[idx as int].unmutate_spec(vsv1[idx as int], csv1i[idx as int], tkv);
            assert(restored == (vsv0[idx as int], csv0.inner[idx as int]));
            assert(vsv1.update(idx as int, restored.0) =~= vsv0);
            assert(csv1i.update(idx as int, restored.1) =~= csv0.inner);
            assert(msv[idx as int].cplx(restored.0, restored.1) == old_el_cplx);
            assert(unmut_elem(msv, vsv1, cache.deep_view(), idx as int, tkv).1.inner
                == csv0.inner);
            assert(unmut_elem(msv, vsv1, cache.deep_view(), idx as int, tkv).1.sum_cplx
                == csv0.sum_cplx);
            assert(unmut_elem(msv, vsv1, cache.deep_view(), idx as int, tkv).1 == csv0);
        }
        (UnmutateVecToken::Element(idx, tc.0), new_sum)
    }

    /// Applies one child token to the element at `idx`, keeping the sum
    /// exact.
    fn unmutate_element(
        &self,
        value: &mut Vec<T>,
        cache: &mut VecMutatorCache<M::Cache>,
        idx: usize,
        tk: M::UnmutateToken,
    )
        requires
            self.m_wf(),
            self.valid(old(value).deep_view(), old(cache).deep_view()),
            elem_token_ok(
                self.mutators@,
                old(value).deep_view(),
                old(cache).deep_view(),
                idx as int,
                tk.deep_view(),
            ),
        ensures
            self.valid(final(value).deep_view(), final(cache).deep_view()),
            (final(value).deep_view(), final(cache).deep_view()) == unmut_elem(
                self.mutators@,
                old(value).deep_view(),
                old(cache).deep_view(),
                idx as int,
                tk.deep_view(),
            ),
    {
        let ghost msv = self.mutators@;
        let ghost vsv0 = old(value).deep_view();
        let ghost csv0 = old(cache).deep_view();
        proof {
            lemma_unmut_elem_valid(msv, vsv0, csv0, idx as int, tk.deep_view());
        }
        let m = &self.mutators[idx];
        let old_el_cplx = m.complexity(&value[idx], &cache.inner[idx]);
        proof {
            assert(value.deep_view()[idx as int] == value[idx as int].deep_view());
            assert(cache.inner.deep_view()[idx as int] == cache.inner[idx as int].deep_view());
            lemma_sum_cplx_element_le(msv, vsv0, csv0.inner, idx as int);
        }
        let sum0 = cache.sum_cplx;
        let el = &mut value[idx];
        let el_cache = &mut cache.inner[idx];
        m.unmutate(el, el_cache, tk);
        let restored_cplx = m.complexity(&value[idx], &cache.inner[idx]);
        proof {
            lemma_sum_cplx_update(
                msv,
                vsv0,
                csv0.inner,
                idx as int,
                value.deep_view()[idx as int],
                cache.inner.deep_view()[idx as int],
            );
            assert(value.deep_view() =~= vsv0.update(idx as int, value.deep_view()[idx as int]));
            assert(cache.inner.deep_view() =~= csv0.inner.update(
                idx as int,
                cache.inner.deep_view()[idx as int],
            ));
            assert(all_valid(msv, value.deep_view(), cache.inner.deep_view()));
            lemma_sum_cplx_bounds(msv, value.deep_view(), cache.inner.deep_view());
            lemma_sum_min_le_max::<T, M>(msv);
            lemma_sum_cplx_nonneg(msv, value.deep_view(), cache.inner.deep_view());
        }
        let new_sum: u64 = (sum0 - old_el_cplx) + restored_cplx;
        cache.sum_cplx = new_sum;
        proof {
            let applied = unmut_elem(msv, vsv0, csv0, idx as int, tk.deep_view());
            assert(value.deep_view() =~= applied.0);
            assert(cache.inner.deep_view() =~= applied.1.inner);
            assert(cache.deep_view().sum_cplx == applied.1.sum_cplx);
            assert(cache.deep_view() == applied.1);
        }
    }
}


impl<T: DeepView, M: Mutator<T>> FixedLenVecMutator<T, M> {
    /// Mutates the elements at the given positions in turn, collecting the
    /// child tokens so that applying them front to back undoes the whole
    /// batch.
    pub fn mutate_elements(
        &self,
        value: &mut Vec<T>,
        cache: &mut VecMutatorCache<M::Cache>,
        idcs: &Vec<usize>,
        max_cplx: u64,
    ) -> (r: (UnmutateVecToken<T, M>, u64))
        requires
            self.m_wf(),
            self.valid(old(value).deep_view(), old(cache).deep_view()),
            forall|t: int| 0 <= t < idcs@.len() ==> (#[trigger] idcs@[t]) < old(value)@.len(),
        ensures
            self.valid(final(value).deep_view(), final(cache).deep_view()),
            r.1 == self.cplx(final(value).deep_view(), final(cache).deep_view()),
            self.token_ok(final(value).deep_view(), final(cache).deep_view(), r.0.deep_view()),
            self.unmutate_spec(final(value).deep_view(), final(cache).deep_view(), r.0.deep_view())
                == (old(value).deep_view(), old(cache).deep_view()),
    {
        let ghost vsv0 = old(value).deep_view();
        let ghost csv0 = old(cache).deep_view();
        let mut tokens: Vec<(usize, M::UnmutateToken)> = Vec::new();
        let n = idcs.len();
        let mut k: usize = 0;
        let mut cx: u64 = cache.sum_cplx;
        while k < n
            invariant
                self.m_wf(),
                n == idcs@.len(),
                forall|t: int| 0 <= t < idcs@.len() ==> (#[trigger] idcs@[t]) < vsv0.len(),
                vsv0.len() == value@.len(),
                0 <= k <= n,
                self.valid(value.deep_view(), cache.deep_view()),
                cx == self.cplx(value.deep_view(), cache.deep_view()),
                elems_token_ok(
                    self.mutators@,
                    value.deep_view(),
                    cache.deep_view(),
                    tokens.deep_view(),
                ),
                unmut_elems(
                    self.mutators@,
                    value.deep_view(),
                    cache.deep_view(),
                    tokens.deep_view(),
                ) == (vsv0, csv0),
            decreases n - k,
        {
            let idx = idcs[k];
            let current = cache.sum_cplx;
            let spare: u64 = if max_cplx > current {
                max_cplx - current
            } else {
                0
            };
            let ghost vs_pre = value.deep_view();
            let ghost cs_pre = cache.deep_view();
            let ghost toks_pre = tokens.deep_view();
            let tc = self.random_mutate_element(value, cache, idx, spare);
            let ghost tokv = tc.0.deep_view();
            match tc.0 {
                UnmutateVecToken::Element(i2, tk) => {
                    let ghost tkv = tk.deep_view();
                    proof {
                        assert(tokv == UnmutateVecTokenView::<T::V, TokenView<T, M>, CacheView<T, M>>::Element(i2, tkv));
                    }
                    tokens.insert(0, (i2, tk));
                    cx = tc.1;
                    proof {
                        assert(tokens.deep_view() =~= toks_pre.insert(0, (i2, tkv)));
                        let toks1 = tokens.deep_view();
                        assert(toks1[0] == (i2, tkv));
                        assert(toks1.drop_first() =~= toks_pre);
                        // applying the newest token first restores the
                        // state before this step, and the rest restores
                        // the original
                        assert(elem_token_ok(
                            self.mutators@,
                            value.deep_view(),
                            cache.deep_view(),
                            i2 as int,
                            tkv,
                        ));
                        assert(self.unmutate_spec(value.deep_view(), cache.deep_view(), tokv)
                            == (vs_pre, cs_pre));
                        assert(self.unmutate_spec(value.deep_view(), cache.deep_view(), tokv)
                            == unmut_elem(
                            self.mutators@,
                            value.deep_view(),
                            cache.deep_view(),
                            i2 as int,
                            tkv,
                        ));
                    }
                },
                _ => {
                    proof {
                        assert(false);
                    }
                },
            }
            k = k + 1;
        }
        (UnmutateVecToken::Elements(tokens), cx)
    }
}


impl<T: DeepView, M: Mutator<T>> FixedLenVecMutator<T, M> {
    /// Picks one element's cursor at random and asks its mutator for a
    /// sub-value; an exhausted cursor is dropped and another is tried,
    /// until all are exhausted.
    fn recursing_part_in<'a, V2, N>(
        &self,
        parent: &N,
        value: &'a Vec<T>,
        index: &mut RecursingPartIndex<M::RecursingPartIndex>,
    ) -> Option<&'a V2>
        requires
            self.m_wf(),
        decreases old(index).inner@.len(),
    {
        if index.inner.len() != index.indices.len() {
            return None;
        }
        if index.inner.len() == 0 {
            return None;
        }
        let choice = rng_usize(&self.rng, 0, index.inner.len());
        let value_index = index.indices[choice];
        if value_index >= value.len() || value_index >= self.mutators.len() {
            return None;
        }
        let sub = &mut index.inner[choice];
        let result = self.mutators[value_index].recursing_part::<V2, N>(
            parent,
            &value[value_index],
            sub,
        );
        match result {
            Some(r) => Some(r),
            None => {
                index.inner.remove(choice);
                index.indices.remove(choice);
                self.recursing_part_in(parent, value, index)
            },
        }
    }
}

} // verus!
