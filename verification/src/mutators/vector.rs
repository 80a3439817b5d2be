//! A mutator for vectors of any length within a configured range, with one
//! child mutator for all elements.
//!
//! The complexity of a vector is a base of one unit plus the sum of the
//! element complexities. Mutations mutate one element, insert a freshly
//! generated element, remove one element, or replace the whole vector; the
//! unmutate token records how to undo each.

use core::marker::PhantomData;
use vstd::prelude::*;

use crate::mutators::fixed_len_vector::{VecMutatorCache, VecMutatorCacheView};
use crate::rng::{rng_new, rng_usize};
use crate::traits::{CacheView, Mutator, TokenView};

verus! {

broadcast use vstd::std_specs::vec::group_vec_axioms;

/// The base complexity of a vector, before its elements.
pub const VECTOR_BASE_COMPLEXITY: u64 = 1;

/// Sum of the cache-read complexities under a single repeated mutator.
pub open spec fn rsum<T: DeepView, M: Mutator<T>>(
    m: M,
    vs: Seq<T::V>,
    cs: Seq<CacheView<T, M>>,
) -> int
    decreases vs.len(),
{
    if vs.len() == 0 {
        0
    } else {
        rsum(m, vs.drop_last(), cs.drop_last()) + m.cplx(vs.last(), cs.last())
    }
}

/// Sum of the value-walk complexities under a single repeated mutator.
pub open spec fn rsum_value<T: DeepView, M: Mutator<T>>(m: M, vs: Seq<T::V>) -> int
    decreases vs.len(),
{
    if vs.len() == 0 {
        0
    } else {
        rsum_value(m, vs.drop_last()) + m.value_cplx(vs.last())
    }
}

/// Every element is synchronized with its cache under the one mutator.
pub open spec fn rall_valid<T: DeepView, M: Mutator<T>>(
    m: M,
    vs: Seq<T::V>,
    cs: Seq<CacheView<T, M>>,
) -> bool {
    &&& cs.len() == vs.len()
    &&& forall|i: int| 0 <= i < vs.len() ==> m.valid(#[trigger] vs[i], cs[i])
}

/// The sums are nonnegative.
pub proof fn lemma_rsum_nonneg<T: DeepView, M: Mutator<T>>(
    m: M,
    vs: Seq<T::V>,
    cs: Seq<CacheView<T, M>>,
)
    ensures
        0 <= rsum(m, vs, cs),
    decreases vs.len(),
{
    if vs.len() > 0 {
        lemma_rsum_nonneg(m, vs.drop_last(), cs.drop_last());
    }
}

/// Replacing one element changes the sum by the difference of the two
/// element complexities.
pub proof fn lemma_rsum_update<T: DeepView, M: Mutator<T>>(
    m: M,
    vs: Seq<T::V>,
    cs: Seq<CacheView<T, M>>,
    i: int,
    v: T::V,
    c: CacheView<T, M>,
)
    requires
        cs.len() == vs.len(),
        0 <= i < vs.len(),
    ensures
        rsum(m, vs.update(i, v), cs.update(i, c)) == rsum(m, vs, cs) - m.cplx(vs[i], cs[i])
            + m.cplx(v, c),
    decreases vs.len(),
{
    let n = vs.len() - 1;
    if i == n {
        assert(vs.update(i, v).drop_last() =~= vs.drop_last());
        assert(cs.update(i, c).drop_last() =~= cs.drop_last());
    } else {
        assert(vs.update(i, v).drop_last() =~= vs.drop_last().update(i, v));
        assert(cs.update(i, c).drop_last() =~= cs.drop_last().update(i, c));
        assert(vs.update(i, v).last() == vs.last());
        assert(cs.update(i, c).last() == cs.last());
        lemma_rsum_update(m, vs.drop_last(), cs.drop_last(), i, v, c);
    }
}

/// One element's complexity is part of the sum.
pub proof fn lemma_rsum_element_le<T: DeepView, M: Mutator<T>>(
    m: M,
    vs: Seq<T::V>,
    cs: Seq<CacheView<T, M>>,
    i: int,
)
    requires
        cs.len() == vs.len(),
        0 <= i < vs.len(),
    ensures
        m.cplx(vs[i], cs[i]) <= rsum(m, vs, cs),
    decreases vs.len(),
{
    let n = vs.len() - 1;
    if i == n {
        lemma_rsum_nonneg(m, vs.drop_last(), cs.drop_last());
    } else {
        lemma_rsum_element_le(m, vs.drop_last(), cs.drop_last(), i);
    }
}

/// Appending one element adds its complexity to the sum.
pub proof fn lemma_rsum_push<T: DeepView, M: Mutator<T>>(
    m: M,
    vs: Seq<T::V>,
    cs: Seq<CacheView<T, M>>,
    v: T::V,
    c: CacheView<T, M>,
)
    ensures
        rsum(m, vs.push(v), cs.push(c)) == rsum(m, vs, cs) + m.cplx(v, c),
{
    assert(vs.push(v).drop_last() =~= vs);
    assert(cs.push(c).drop_last() =~= cs);
}

/// Inserting one element adds its complexity to the sum.
pub proof fn lemma_rsum_insert<T: DeepView, M: Mutator<T>>(
    m: M,
    vs: Seq<T::V>,
    cs: Seq<CacheView<T, M>>,
    i: int,
    v: T::V,
    c: CacheView<T, M>,
)
    requires
        cs.len() == vs.len(),
        0 <= i <= vs.len(),
    ensures
        rsum(m, vs.insert(i, v), cs.insert(i, c)) == rsum(m, vs, cs) + m.cplx(v, c),
    decreases vs.len(),
{
    if i == vs.len() {
        assert(vs.insert(i, v) =~= vs.push(v));
        assert(cs.insert(i, c) =~= cs.push(c));
        lemma_rsum_push(m, vs, cs, v, c);
    } else {
        assert(vs.insert(i, v).drop_last() =~= vs.drop_last().insert(i, v));
        assert(cs.insert(i, c).drop_last() =~= cs.drop_last().insert(i, c));
        assert(vs.insert(i, v).last() == vs.last());
        assert(cs.insert(i, c).last() == cs.last());
        lemma_rsum_insert(m, vs.drop_last(), cs.drop_last(), i, v, c);
    }
}

/// Removing one element subtracts its complexity from the sum.
pub proof fn lemma_rsum_remove<T: DeepView, M: Mutator<T>>(
    m: M,
    vs: Seq<T::V>,
    cs: Seq<CacheView<T, M>>,
    i: int,
)
    requires
        cs.len() == vs.len(),
        0 <= i < vs.len(),
    ensures
        rsum(m, vs.remove(i), cs.remove(i)) == rsum(m, vs, cs) - m.cplx(vs[i], cs[i]),
{
    assert(vs =~= vs.remove(i).insert(i, vs[i]));
    assert(cs =~= cs.remove(i).insert(i, cs[i]));
    lemma_rsum_insert(m, vs.remove(i), cs.remove(i), i, vs[i], cs[i]);
}

/// The vector-level state under a single repeated mutator, bounded by the
/// length range.
pub open spec fn vvalid<T: DeepView, M: Mutator<T>>(
    m: M,
    min_len: usize,
    max_len: usize,
    vs: Seq<T::V>,
    c: VecMutatorCacheView<CacheView<T, M>>,
) -> bool {
    &&& min_len <= vs.len() <= max_len
    &&& rall_valid(m, vs, c.inner)
    &&& c.sum_cplx == VECTOR_BASE_COMPLEXITY + rsum(m, vs, c.inner)
}

/// Applying one child token to one element, at the level of views.
pub open spec fn vunmut_elem<T: DeepView, M: Mutator<T>>(
    m: M,
    vs: Seq<T::V>,
    c: VecMutatorCacheView<CacheView<T, M>>,
    i: int,
    tk: TokenView<T, M>,
) -> (Seq<T::V>, VecMutatorCacheView<CacheView<T, M>>) {
    let restored = m.unmutate_spec(vs[i], c.inner[i], tk);
    (
        vs.update(i, restored.0),
        VecMutatorCacheView {
            inner: c.inner.update(i, restored.1),
            sum_cplx: (c.sum_cplx - m.cplx(vs[i], c.inner[i]) + m.cplx(
                restored.0,
                restored.1,
            )) as u64,
        },
    )
}

/// One child token is applicable at a position and restores a
/// synchronized element.
pub open spec fn velem_ok<T: DeepView, M: Mutator<T>>(
    m: M,
    min_len: usize,
    max_len: usize,
    vs: Seq<T::V>,
    c: VecMutatorCacheView<CacheView<T, M>>,
    i: int,
    tk: TokenView<T, M>,
) -> bool {
    &&& vvalid(m, min_len, max_len, vs, c)
    &&& 0 <= i < vs.len()
    &&& m.token_ok(vs[i], c.inner[i], tk)
    &&& m.valid(
        m.unmutate_spec(vs[i], c.inner[i], tk).0,
        m.unmutate_spec(vs[i], c.inner[i], tk).1,
    )
}

/// A list of child tokens is applicable front to back.
pub open spec fn velems_ok<T: DeepView, M: Mutator<T>>(
    m: M,
    min_len: usize,
    max_len: usize,
    vs: Seq<T::V>,
    c: VecMutatorCacheView<CacheView<T, M>>,
    toks: Seq<(usize, TokenView<T, M>)>,
) -> bool
    decreases toks.len(),
{
    if toks.len() == 0 {
        true
    } else {
        &&& velem_ok(m, min_len, max_len, vs, c, toks[0].0 as int, toks[0].1)
        &&& {
            let applied = vunmut_elem(m, vs, c, toks[0].0 as int, toks[0].1);
            velems_ok(m, min_len, max_len, applied.0, applied.1, toks.drop_first())
        }
    }
}

/// Applying a list of child tokens front to back, at the level of views.
pub open spec fn vunmut_elems<T: DeepView, M: Mutator<T>>(
    m: M,
    vs: Seq<T::V>,
    c: VecMutatorCacheView<CacheView<T, M>>,
    toks: Seq<(usize, TokenView<T, M>)>,
) -> (Seq<T::V>, VecMutatorCacheView<CacheView<T, M>>)
    decreases toks.len(),
{
    if toks.len() == 0 {
        (vs, c)
    } else {
        let applied = vunmut_elem(m, vs, c, toks[0].0 as int, toks[0].1);
        vunmut_elems(m, applied.0, applied.1, toks.drop_first())
    }
}

/// Token that reverses one mutation of a vector.
pub enum UnmutateVecToken<T: DeepView, M: Mutator<T>> {
    /// One element was mutated; undo it with the child token.
    Element(usize, M::UnmutateToken),
    /// Several elements were mutated; undo them front to back.
    Elements(Vec<(usize, M::UnmutateToken)>),
    /// An element was inserted at the index; undoing removes it.
    Remove(usize),
    /// The element at the index was removed; undoing inserts it back, with
    /// its cache and its complexity.
    Insert(usize, T, M::Cache),
    /// The whole vector was replaced; the previous value and cache return.
    Replace(Vec<T>, VecMutatorCache<M::Cache>),
    /// The mutation did nothing.
    Nothing,
}

/// Deep view of [`UnmutateVecToken`].
pub enum UnmutateVecTokenView<TV, KV, CV> {
    Element(usize, KV),
    Elements(Seq<(usize, KV)>),
    Remove(usize),
    Insert(usize, TV, CV),
    Replace(Seq<TV>, VecMutatorCacheView<CV>),
    Nothing,
}

impl<T: DeepView, M: Mutator<T>> DeepView for UnmutateVecToken<T, M> {
    type V = UnmutateVecTokenView<T::V, TokenView<T, M>, CacheView<T, M>>;

    open spec fn deep_view(&self) -> Self::V {
        match self {
            UnmutateVecToken::Element(i, t) => UnmutateVecTokenView::Element(*i, t.deep_view()),
            UnmutateVecToken::Elements(ts) => UnmutateVecTokenView::Elements(ts.deep_view()),
            UnmutateVecToken::Remove(i) => UnmutateVecTokenView::Remove(*i),
            UnmutateVecToken::Insert(i, v, c) => UnmutateVecTokenView::Insert(
                *i,
                v.deep_view(),
                c.deep_view(),
            ),
            UnmutateVecToken::Replace(v, c) => UnmutateVecTokenView::Replace(
                v.deep_view(),
                c.deep_view(),
            ),
            UnmutateVecToken::Nothing => UnmutateVecTokenView::Nothing,
        }
    }
}

/// A mutator for vectors of elements of one type, driven by a single child
/// mutator, with the length bounded by a configured range.
pub struct VecMutator<T: DeepView, M: Mutator<T>> {
    pub rng: fastrand::Rng,
    pub mutator: M,
    pub min_len: usize,
    pub max_len: usize,
    pub phantom: PhantomData<T>,
}

impl<T: DeepView, M: Mutator<T>> VecMutator<T, M> {
    /// Builds the mutator from the child mutator and the length range.
    pub fn new(mutator: M, min_len: usize, max_len: usize) -> (r: VecMutator<T, M>)
        requires
            mutator.m_wf(),
            min_len <= max_len,
            VECTOR_BASE_COMPLEXITY + (max_len as int) * (mutator.max_cplx() as int) <= u64::MAX,
        ensures
            r.m_wf(),
            r.mutator == mutator,
            r.min_len == min_len,
            r.max_len == max_len,
    {
        VecMutator { rng: rng_new(), mutator, min_len, max_len, phantom: PhantomData }
    }

    /// The length bound keeps every reachable sum within the machine range.
    pub open spec fn vwf(self) -> bool {
        &&& self.mutator.m_wf()
        &&& self.min_len <= self.max_len
        &&& VECTOR_BASE_COMPLEXITY + (self.max_len as int) * (self.mutator.max_cplx() as int)
            <= u64::MAX
    }

    /// The sum of a valid vector's elements stays within range.
    proof fn lemma_sum_in_range(self, vs: Seq<T::V>, cs: Seq<CacheView<T, M>>)
        requires
            self.vwf(),
            rall_valid(self.mutator, vs, cs),
            vs.len() <= self.max_len,
        ensures
            0 <= rsum(self.mutator, vs, cs) <= (vs.len() as int) * (self.mutator.max_cplx() as int),
            VECTOR_BASE_COMPLEXITY + rsum(self.mutator, vs, cs) <= u64::MAX,
        decreases vs.len(),
    {
        lemma_rsum_nonneg(self.mutator, vs, cs);
        if vs.len() > 0 {
            assert(rall_valid(self.mutator, vs.drop_last(), cs.drop_last()));
            self.lemma_sum_in_range(vs.drop_last(), cs.drop_last());
            self.mutator.lemma_cplx_bounds(vs.last(), cs.last());
            assert((vs.len() as int - 1) * (self.mutator.max_cplx() as int)
                + self.mutator.max_cplx() as int == (vs.len() as int) * (
            self.mutator.max_cplx() as int)) by (nonlinear_arith);
        }
        assert((vs.len() as int) * (self.mutator.max_cplx() as int) <= (self.max_len as int) * (
        self.mutator.max_cplx() as int)) by (nonlinear_arith)
            requires
                0 <= vs.len() <= self.max_len,
                0 <= self.mutator.max_cplx(),
        ;
    }
}

impl<T: DeepView, M: Mutator<T>> Mutator<Vec<T>> for VecMutator<T, M> {
    type Cache = VecMutatorCache<M::Cache>;

    type MutationStep = usize;

    type ArbitraryStep = ();

    type UnmutateToken = UnmutateVecToken<T, M>;

    type RecursingPartIndex = ();

    open spec fn m_wf(&self) -> bool {
        self.vwf()
    }

    open spec fn accepts(&self, value: Seq<T::V>) -> bool {
        &&& self.min_len <= value.len() <= self.max_len
        &&& forall|i: int| 0 <= i < value.len() ==> self.mutator.accepts(#[trigger] value[i])
    }

    open spec fn valid(
        &self,
        value: Seq<T::V>,
        cache: VecMutatorCacheView<CacheView<T, M>>,
    ) -> bool {
        vvalid(self.mutator, self.min_len, self.max_len, value, cache)
    }

    open spec fn cplx(&self, value: Seq<T::V>, cache: VecMutatorCacheView<CacheView<T, M>>) -> u64 {
        cache.sum_cplx
    }

    open spec fn value_cplx(&self, value: Seq<T::V>) -> u64 {
        if VECTOR_BASE_COMPLEXITY + rsum_value(self.mutator, value) <= u64::MAX
            && rsum_value(self.mutator, value) >= 0 {
            (VECTOR_BASE_COMPLEXITY + rsum_value(self.mutator, value)) as u64
        } else {
            u64::MAX
        }
    }

    open spec fn min_cplx(&self) -> u64 {
        (VECTOR_BASE_COMPLEXITY + (self.min_len as int) * (self.mutator.min_cplx() as int)) as u64
    }

    open spec fn max_cplx(&self) -> u64 {
        (VECTOR_BASE_COMPLEXITY + (self.max_len as int) * (self.mutator.max_cplx() as int)) as u64
    }

    open spec fn token_ok(
        &self,
        value: Seq<T::V>,
        cache: VecMutatorCacheView<CacheView<T, M>>,
        t: UnmutateVecTokenView<T::V, TokenView<T, M>, CacheView<T, M>>,
    ) -> bool {
        match t {
            UnmutateVecTokenView::Element(i, tk) => velem_ok(
                self.mutator,
                self.min_len,
                self.max_len,
                value,
                cache,
                i as int,
                tk,
            ),
            UnmutateVecTokenView::Elements(toks) => velems_ok(
                self.mutator,
                self.min_len,
                self.max_len,
                value,
                cache,
                toks,
            ),
            UnmutateVecTokenView::Remove(i) => {
                &&& self.valid(value, cache)
                &&& 0 <= i < value.len()
                &&& value.len() > self.min_len
            },
            UnmutateVecTokenView::Insert(i, v, c) => {
                &&& self.valid(value, cache)
                &&& 0 <= i <= value.len()
                &&& value.len() < self.max_len
                &&& self.mutator.valid(v, c)
            },
            UnmutateVecTokenView::Replace(ov, oc) => self.valid(ov, oc),
            UnmutateVecTokenView::Nothing => self.valid(value, cache),
        }
    }

    open spec fn unmutate_spec(
        &self,
        value: Seq<T::V>,
        cache: VecMutatorCacheView<CacheView<T, M>>,
        t: UnmutateVecTokenView<T::V, TokenView<T, M>, CacheView<T, M>>,
    ) -> (Seq<T::V>, VecMutatorCacheView<CacheView<T, M>>) {
        match t {
            UnmutateVecTokenView::Element(i, tk) => vunmut_elem(
                self.mutator,
                value,
                cache,
                i as int,
                tk,
            ),
            UnmutateVecTokenView::Elements(toks) => vunmut_elems(self.mutator, value, cache, toks),
            UnmutateVecTokenView::Remove(i) => (
                value.remove(i as int),
                VecMutatorCacheView {
                    inner: cache.inner.remove(i as int),
                    sum_cplx: (cache.sum_cplx - self.mutator.cplx(
                        value[i as int],
                        cache.inner[i as int],
                    )) as u64,
                },
            ),
            UnmutateVecTokenView::Insert(i, v, c) => (
                value.insert(i as int, v),
                VecMutatorCacheView {
                    inner: cache.inner.insert(i as int, c),
                    sum_cplx: (cache.sum_cplx + self.mutator.cplx(v, c)) as u64,
                },
            ),
            UnmutateVecTokenView::Replace(ov, oc) => (ov, oc),
            UnmutateVecTokenView::Nothing => (value, cache),
        }
    }

    proof fn lemma_min_le_max(&self) {
        self.lemma_min_sum_bound();
    }

    proof fn lemma_cplx_bounds(&self, value: Seq<T::V>, cache: VecMutatorCacheView<CacheView<T, M>>) {
        self.lemma_sum_in_range(value, cache.inner);
        self.lemma_min_sum_bound();
        self.lemma_rsum_lower(value, cache.inner);
        assert((self.min_len as int) * (self.mutator.min_cplx() as int) <= (value.len() as int) * (
        self.mutator.min_cplx() as int)) by (nonlinear_arith)
            requires
                self.min_len <= value.len(),
                0 <= self.mutator.min_cplx(),
        ;
        assert((value.len() as int) * (self.mutator.max_cplx() as int) <= (self.max_len as int) * (
        self.mutator.max_cplx() as int)) by (nonlinear_arith)
            requires
                value.len() <= self.max_len,
                0 <= self.mutator.max_cplx(),
        ;
        assert(self.cplx(value, cache) == cache.sum_cplx);
        assert(cache.sum_cplx <= self.max_cplx());
        assert(self.min_cplx() <= cache.sum_cplx);
    }

    fn default_arbitrary_step(&self) -> () {
    }

    fn validate_value(&self, value: &Vec<T>) -> (r: Option<VecMutatorCache<M::Cache>>) {
        let n = value.len();
        if n < self.min_len || n > self.max_len {
            return None;
        }
        let ghost vsv = value.deep_view();
        let mut inner: Vec<M::Cache> = Vec::new();
        let mut sum: u64 = VECTOR_BASE_COMPLEXITY;
        let mut i: usize = 0;
        while i < n
            invariant
                self.m_wf(),
                n == vsv.len(),
                vsv == value.deep_view(),
                self.min_len <= n <= self.max_len,
                0 <= i <= n,
                inner.deep_view().len() == i,
                rall_valid(self.mutator, vsv.take(i as int), inner.deep_view()),
                forall|j: int| 0 <= j < i ==> self.mutator.accepts(#[trigger] vsv[j]),
                sum == VECTOR_BASE_COMPLEXITY + rsum(
                    self.mutator,
                    vsv.take(i as int),
                    inner.deep_view(),
                ),
                rsum(self.mutator, vsv.take(i as int), inner.deep_view()) == rsum_value(
                    self.mutator,
                    vsv.take(i as int),
                ),
                rsum(self.mutator, vsv.take(i as int), inner.deep_view()) <= (i as int) * (
                self.mutator.max_cplx() as int),
            decreases n - i,
        {
            proof {
                assert(vsv[i as int] == value[i as int].deep_view());
            }
            match self.mutator.validate_value(&value[i]) {
                None => {
                    assert(!self.accepts(vsv));
                    return None;
                },
                Some(c) => {
                    let cx = self.mutator.complexity(&value[i], &c);
                    proof {
                        self.mutator.lemma_cplx_bounds(vsv[i as int], c.deep_view());
                        lemma_rsum_push(
                            self.mutator,
                            vsv.take(i as int),
                            inner.deep_view(),
                            vsv[i as int],
                            c.deep_view(),
                        );
                        assert(vsv.take(i + 1) =~= vsv.take(i as int).push(vsv[i as int]));
                        assert((i as int) * (self.mutator.max_cplx() as int)
                            + self.mutator.max_cplx() as int == (i + 1) * (
                        self.mutator.max_cplx() as int)) by (nonlinear_arith);
                        assert((i + 1) * (self.mutator.max_cplx() as int) <= (
                        self.max_len as int) * (self.mutator.max_cplx() as int))
                            by (nonlinear_arith)
                            requires
                                0 <= i + 1 <= self.max_len,
                                0 <= self.mutator.max_cplx(),
                        ;
                        lemma_rsum_nonneg(self.mutator, vsv.take(i as int), inner.deep_view());
                    }
                    sum = sum + cx;
                    let ghost pinner = inner.deep_view();
                    inner.push(c);
                    proof {
                        assert(inner.deep_view() =~= pinner.push(c.deep_view()));
                        assert(rsum_value(self.mutator, vsv.take(i + 1)) == rsum_value(
                            self.mutator,
                            vsv.take(i as int),
                        ) + self.mutator.value_cplx(vsv[i as int])) by {
                            assert(vsv.take(i + 1).drop_last() =~= vsv.take(i as int));
                        }
                    }
                },
            }
            i = i + 1;
        }
        proof {
            assert(vsv.take(n as int) =~= vsv);
            assert(self.accepts(vsv));
            lemma_rsum_nonneg(self.mutator, vsv, inner.deep_view());
        }
        Some(VecMutatorCache { inner, sum_cplx: sum })
    }

    fn default_mutation_step(&self, value: &Vec<T>, cache: &VecMutatorCache<M::Cache>) -> (r:
        usize) {
        0
    }

    fn max_complexity(&self) -> (r: u64) {
        proof {
            assert(0 <= (self.max_len as int) * (self.mutator.max_cplx() as int))
                by (nonlinear_arith)
                requires
                    0 <= self.max_len,
                    0 <= self.mutator.max_cplx(),
            ;
        }
        let m = self.mutator.max_complexity();
        VECTOR_BASE_COMPLEXITY + (self.max_len as u64) * m
    }

    fn min_complexity(&self) -> (r: u64) {
        proof {
            self.lemma_min_sum_bound();
        }
        let m = self.mutator.min_complexity();
        VECTOR_BASE_COMPLEXITY + (self.min_len as u64) * m
    }

    fn complexity(&self, value: &Vec<T>, cache: &VecMutatorCache<M::Cache>) -> (r: u64) {
        cache.sum_cplx
    }

    fn ordered_arbitrary(&self, step: &mut (), max_cplx: u64) -> (r: Option<(Vec<T>, u64)>)
        ensures
            (r is Some) <==> max_cplx >= self.min_cplx(),
    {
        if max_cplx < self.min_complexity() {
            return None;
        }
        Some(self.random_arbitrary(max_cplx))
    }

    fn random_arbitrary(&self, max_cplx: u64) -> (r: (Vec<T>, u64)) {
        let rc = self.arbitrary_with_cache(max_cplx);
        (rc.0, rc.2)
    }

    fn ordered_mutate(
        &self,
        value: &mut Vec<T>,
        cache: &mut VecMutatorCache<M::Cache>,
        step: &mut usize,
        max_cplx: u64,
    ) -> (r: Option<(UnmutateVecToken<T, M>, u64)>)
        ensures
            (r is Some) <==> max_cplx >= VECTOR_BASE_COMPLEXITY,
    {
        if max_cplx < VECTOR_BASE_COMPLEXITY {
            return None;
        }
        if value.len() == 0 || *step >= usize::MAX {
            return Some(self.random_mutate(value, cache, max_cplx));
        }
        let idx = *step % value.len();
        *step = *step + 1;
        let spare: u64 = if max_cplx > cache.sum_cplx {
            max_cplx - cache.sum_cplx
        } else {
            0
        };
        Some(self.mutate_element(value, cache, idx, spare))
    }

    fn random_mutate(
        &self,
        value: &mut Vec<T>,
        cache: &mut VecMutatorCache<M::Cache>,
        max_cplx: u64,
    ) -> (r: (UnmutateVecToken<T, M>, u64)) {
        let spare: u64 = if max_cplx > cache.sum_cplx {
            max_cplx - cache.sum_cplx
        } else {
            0
        };
        let choice = rng_usize(&self.rng, 0, 100);
        if choice < 5 && value.len() < self.max_len {
            // insert a freshly generated element
            return self.insert_mutation(value, cache, spare);
        }
        if choice < 10 && value.len() > self.min_len && value.len() >= 1 {
            // remove one element
            return self.remove_mutation(value, cache);
        }
        if choice < 12 || value.len() == 0 {
            // replace the whole vector
            return self.replace_mutation(value, cache, max_cplx);
        }
        if choice < 17 && value.len() >= 2 && value.len() < usize::MAX {
            // mutate a handful of elements in one batch
            let count = rng_usize(&self.rng, 2, value.len() + 1);
            let mut idcs: Vec<usize> = Vec::new();
            let mut j: usize = 0;
            while j < count
                invariant
                    0 <= j <= count,
                    old(value)@.len() >= 2,
                    value@.len() == old(value)@.len(),
                    forall|t: int|
                        0 <= t < idcs@.len() ==> (#[trigger] idcs@[t]) < old(value)@.len(),
                decreases count - j,
            {
                idcs.push(rng_usize(&self.rng, 0, value.len()));
                j = j + 1;
            }
            return self.mutate_elements(value, cache, &idcs, max_cplx);
        }
        let idx = rng_usize(&self.rng, 0, value.len());
        self.mutate_element(value, cache, idx, spare)
    }

    fn unmutate(
        &self,
        value: &mut Vec<T>,
        cache: &mut VecMutatorCache<M::Cache>,
        t: UnmutateVecToken<T, M>,
    ) {
        match t {
            UnmutateVecToken::Element(idx, tk) => {
                self.unmutate_element(value, cache, idx, tk);
            },
            UnmutateVecToken::Elements(mut ts) => {
                let ghost goal = self.unmutate_spec(
                    old(value).deep_view(),
                    old(cache).deep_view(),
                    UnmutateVecTokenView::Elements(ts.deep_view()),
                );
                while ts.len() > 0
                    invariant
                        self.m_wf(),
                        self.valid(value.deep_view(), cache.deep_view()),
                        velems_ok(
                            self.mutator,
                            self.min_len,
                            self.max_len,
                            value.deep_view(),
                            cache.deep_view(),
                            ts.deep_view(),
                        ),
                        vunmut_elems(
                            self.mutator,
                            value.deep_view(),
                            cache.deep_view(),
                            ts.deep_view(),
                        ) == goal,
                    decreases ts.len(),
                {
                    let ghost tsv0 = ts.deep_view();
                    let itk = ts.remove(0);
                    proof {
                        assert(ts.deep_view() =~= tsv0.drop_first());
                        assert(itk.deep_view() == tsv0[0]);
                    }
                    self.unmutate_element(value, cache, itk.0, itk.1);
                }
            },
            UnmutateVecToken::Remove(idx) => {
                let ghost vsv0 = value.deep_view();
                let ghost csv0 = cache.deep_view();
                proof {
                    assert(vsv0[idx as int] == value[idx as int].deep_view());
                    assert(csv0.inner[idx as int] == cache.inner[idx as int].deep_view());
                    lemma_rsum_element_le(self.mutator, vsv0, csv0.inner, idx as int);
                    lemma_rsum_remove(self.mutator, vsv0, csv0.inner, idx as int);
                }
                let el_cplx = self.mutator.complexity(&value[idx], &cache.inner[idx]);
                let removed = value.remove(idx);
                let removed_cache = cache.inner.remove(idx);
                cache.sum_cplx = cache.sum_cplx - el_cplx;
                proof {
                    assert(value.deep_view() =~= vsv0.remove(idx as int));
                    assert(cache.inner.deep_view() =~= csv0.inner.remove(idx as int));
                    let applied = self.unmutate_spec(vsv0, csv0, t.deep_view());
                    assert(value.deep_view() =~= applied.0);
                    assert(cache.inner.deep_view() =~= applied.1.inner);
                    assert(cache.deep_view() == applied.1);
                }
            },
            UnmutateVecToken::Insert(idx, v, c) => {
                let ghost vsv0 = value.deep_view();
                let ghost csv0 = cache.deep_view();
                let el_cplx = self.mutator.complexity(&v, &c);
                proof {
                    self.mutator.lemma_cplx_bounds(v.deep_view(), c.deep_view());
                    lemma_rsum_insert(
                        self.mutator,
                        vsv0,
                        csv0.inner,
                        idx as int,
                        v.deep_view(),
                        c.deep_view(),
                    );
                    assert(rall_valid(
                        self.mutator,
                        vsv0.insert(idx as int, v.deep_view()),
                        csv0.inner.insert(idx as int, c.deep_view()),
                    )) by {
                        let nvs = vsv0.insert(idx as int, v.deep_view());
                        let ncs = csv0.inner.insert(idx as int, c.deep_view());
                        assert(forall|j: int|
                            0 <= j < nvs.len() ==> self.mutator.valid(#[trigger] nvs[j], ncs[j]));
                    }
                    self.lemma_sum_in_range(
                        vsv0.insert(idx as int, v.deep_view()),
                        csv0.inner.insert(idx as int, c.deep_view()),
                    );
                    lemma_rsum_nonneg(self.mutator, vsv0, csv0.inner);
                }
                value.insert(idx, v);
                cache.inner.insert(idx, c);
                cache.sum_cplx = cache.sum_cplx + el_cplx;
                proof {
                    let applied = self.unmutate_spec(vsv0, csv0, t.deep_view());
                    assert(value.deep_view() =~= applied.0);
                    assert(cache.inner.deep_view() =~= applied.1.inner);
                    assert(cache.deep_view() == applied.1);
                }
            },
            UnmutateVecToken::Replace(ov, oc) => {
                *value = ov;
                *cache = oc;
            },
            UnmutateVecToken::Nothing => {
            },
        }
    }

    fn default_recursing_part_index(&self, value: &Vec<T>, cache: &VecMutatorCache<M::Cache>) -> (
        r: ()) {
    }

    fn recursing_part<'a, V2, N>(
        &self,
        parent: &N,
        value: &'a Vec<T>,
        index: &mut (),
    ) -> Option<&'a V2> {
        None
    }
}


impl<T: DeepView, M: Mutator<T>> VecMutator<T, M> {
    /// The configured minimum never exceeds the configured maximum
    /// complexity, and both fit the machine range.
    proof fn lemma_min_sum_bound(self)
        requires
            self.vwf(),
        ensures
            0 <= (self.min_len as int) * (self.mutator.min_cplx() as int) <= (
            self.max_len as int) * (self.mutator.max_cplx() as int),
            VECTOR_BASE_COMPLEXITY + (self.min_len as int) * (self.mutator.min_cplx() as int)
                <= u64::MAX,
    {
        self.mutator.lemma_min_le_max();
        assert(0 <= (self.min_len as int) * (self.mutator.min_cplx() as int) && (
        self.min_len as int) * (self.mutator.min_cplx() as int) <= (self.max_len as int) * (
        self.mutator.max_cplx() as int)) by (nonlinear_arith)
            requires
                0 <= self.min_len <= self.max_len,
                0 <= self.mutator.min_cplx() <= self.mutator.max_cplx(),
        ;
    }

    /// The element sum of a valid vector is at least the configured
    /// minimum's share.
    proof fn lemma_rsum_lower(self, vs: Seq<T::V>, cs: Seq<CacheView<T, M>>)
        requires
            self.vwf(),
            rall_valid(self.mutator, vs, cs),
        ensures
            (vs.len() as int) * (self.mutator.min_cplx() as int) <= rsum(self.mutator, vs, cs),
        decreases vs.len(),
    {
        if vs.len() > 0 {
            assert(rall_valid(self.mutator, vs.drop_last(), cs.drop_last()));
            self.lemma_rsum_lower(vs.drop_last(), cs.drop_last());
            self.mutator.lemma_cplx_bounds(vs.last(), cs.last());
            assert((vs.len() as int - 1) * (self.mutator.min_cplx() as int)
                + self.mutator.min_cplx() as int == (vs.len() as int) * (
            self.mutator.min_cplx() as int)) by (nonlinear_arith);
        } else {
            assert((vs.len() as int) * (self.mutator.min_cplx() as int) == 0) by (nonlinear_arith)
                requires
                    vs.len() == 0,
            ;
        }
    }

    /// Builds a fresh vector of the minimum length plus a random number of
    /// extra elements that the budget admits, with its cache.
    fn arbitrary_with_cache(&self, max_cplx: u64) -> (r: (Vec<T>, VecMutatorCache<M::Cache>, u64))
        requires
            self.m_wf(),
        ensures
            self.accepts(r.0.deep_view()),
            self.valid(r.0.deep_view(), r.1.deep_view()),
            r.2 == self.cplx(r.0.deep_view(), r.1.deep_view()),
            r.2 == self.value_cplx(r.0.deep_view()),
            max_cplx >= self.min_cplx() ==> r.2 <= max_cplx,
    {
        proof {
            self.lemma_min_sum_bound();
            self.mutator.lemma_min_le_max();
        }
        let child_min = self.mutator.min_complexity();
        let min_total: u64 = VECTOR_BASE_COMPLEXITY + (self.min_len as u64) * child_min;
        // the number of elements the budget can pay for, at the floor price
        let mut cap: usize = self.max_len;
        if child_min > 0 {
            if max_cplx > VECTOR_BASE_COMPLEXITY {
                let fit: u64 = (max_cplx - VECTOR_BASE_COMPLEXITY) / child_min;
                if fit < cap as u64 {
                    cap = fit as usize;
                }
            } else {
                cap = 0;
            }
        }
        // the minimum length is forced even when the budget is short
        if cap < self.min_len {
            cap = self.min_len;
        }
        let mut n: usize = if cap > self.min_len {
            let span = cap - self.min_len;
            let extra_room = if span < usize::MAX {
                rng_usize(&self.rng, 0, span + 1)
            } else {
                rng_usize(&self.rng, 0, span)
            };
            if extra_room <= self.max_len - self.min_len {
                self.min_len + extra_room
            } else {
                self.max_len
            }
        } else {
            self.min_len
        };
        if n > self.max_len {
            n = self.max_len;
        }
        proof {
            assert(0 <= (n as int) * (child_min as int) <= (self.max_len as int) * (
            self.mutator.max_cplx() as int)) by (nonlinear_arith)
                requires
                    0 <= n <= self.max_len,
                    0 <= child_min <= self.mutator.max_cplx(),
            ;
        }
        let mut base_total: u64 = VECTOR_BASE_COMPLEXITY + (n as u64) * child_min;
        // never start above a budget that admits at least the minimum
        if base_total > max_cplx && max_cplx >= min_total {
            n = self.min_len;
            base_total = min_total;
        }
        proof {
            if max_cplx >= self.min_cplx() {
                assert(min_total == self.min_cplx());
                assert(base_total <= max_cplx);
            }
        }
        let extra: u64 = if max_cplx >= base_total {
            max_cplx - base_total
        } else {
            0
        };
        let mut used_extra: u64 = 0;
        let mut out: Vec<T> = Vec::new();
        let mut inner: Vec<M::Cache> = Vec::new();
        let mut sum: u64 = VECTOR_BASE_COMPLEXITY;
        let mut i: usize = 0;
        while i < n
            invariant
                self.m_wf(),
                child_min == self.mutator.min_cplx(),
                self.min_len <= n <= self.max_len,
                0 <= i <= n,
                out.deep_view().len() == i,
                inner.deep_view().len() == i,
                used_extra <= extra,
                max_cplx >= base_total ==> extra == max_cplx - base_total,
                max_cplx < base_total ==> extra == 0,
                base_total == VECTOR_BASE_COMPLEXITY + (n as int) * (child_min as int),
                max_cplx >= self.min_cplx() ==> base_total <= max_cplx,
                rall_valid(self.mutator, out.deep_view(), inner.deep_view()),
                forall|j: int| 0 <= j < i ==> self.mutator.accepts(#[trigger] out.deep_view()[j]),
                sum == VECTOR_BASE_COMPLEXITY + rsum(
                    self.mutator,
                    out.deep_view(),
                    inner.deep_view(),
                ),
                rsum(self.mutator, out.deep_view(), inner.deep_view()) == rsum_value(
                    self.mutator,
                    out.deep_view(),
                ),
                sum <= VECTOR_BASE_COMPLEXITY + (i as int) * (child_min as int) + used_extra,
                rsum(self.mutator, out.deep_view(), inner.deep_view()) <= (i as int) * (
                self.mutator.max_cplx() as int),
            decreases n - i,
        {
            let avail: u64 = extra - used_extra;
            let budget: u64 = if avail > u64::MAX - child_min {
                u64::MAX
            } else {
                child_min + avail
            };
            let (x, cx) = self.mutator.random_arbitrary(budget);
            let c = match self.mutator.validate_value(&x) {
                Some(c) => c,
                None => {
                    proof {
                        assert(false);
                    }
                    unreached()
                },
            };
            let cx_extra: u64 = if cx > child_min {
                cx - child_min
            } else {
                0
            };
            proof {
                assert(budget >= child_min);
                assert(cx <= budget);
                assert(cx_extra <= avail);
                assert(cx <= child_min + cx_extra);
                self.mutator.lemma_cplx_bounds(x.deep_view(), c.deep_view());
                lemma_rsum_push(
                    self.mutator,
                    out.deep_view(),
                    inner.deep_view(),
                    x.deep_view(),
                    c.deep_view(),
                );
                lemma_rsum_nonneg(self.mutator, out.deep_view(), inner.deep_view());
                assert((i as int) * (self.mutator.max_cplx() as int)
                    + self.mutator.max_cplx() as int == (i + 1) * (self.mutator.max_cplx() as int))
                    by (nonlinear_arith);
                assert((i + 1) * (self.mutator.max_cplx() as int) <= (self.max_len as int) * (
                self.mutator.max_cplx() as int)) by (nonlinear_arith)
                    requires
                        0 <= i + 1 <= self.max_len,
                        0 <= self.mutator.max_cplx(),
                ;
                assert((i as int) * (child_min as int) + child_min as int == (i + 1) * (
                child_min as int)) by (nonlinear_arith);
                assert((i + 1) * (child_min as int) <= (n as int) * (child_min as int))
                    by (nonlinear_arith)
                    requires
                        0 <= i + 1 <= n,
                        0 <= child_min,
                ;
            }
            sum = sum + cx;
            used_extra = used_extra + cx_extra;
            let ghost pout = out.deep_view();
            let ghost pinner = inner.deep_view();
            let ghost xv = x.deep_view();
            let ghost cv = c.deep_view();
            out.push(x);
            inner.push(c);
            proof {
                assert(out.deep_view() =~= pout.push(xv));
                assert(inner.deep_view() =~= pinner.push(cv));
                assert(rsum_value(self.mutator, out.deep_view()) == rsum_value(self.mutator, pout)
                    + self.mutator.value_cplx(xv)) by {
                    assert(out.deep_view().drop_last() =~= pout);
                }
            }
            i = i + 1;
        }
        proof {
            if max_cplx >= self.min_cplx() {
                assert(base_total <= max_cplx);
                assert(sum <= base_total + extra);
            }
            assert(rsum_value(self.mutator, out.deep_view()) == rsum(
                self.mutator,
                out.deep_view(),
                inner.deep_view(),
            ));
            lemma_rsum_nonneg(self.mutator, out.deep_view(), inner.deep_view());
        }
        (out, VecMutatorCache { inner, sum_cplx: sum }, sum)
    }

    /// Applies one child token to the element at `idx`, keeping the sum
    /// exact.
    fn unmutate_element(
        &self,
        value: &mut Vec<T>,
        cache: &mut VecMutatorCache<M::Cache>,
        idx: usize,
        tk: M::UnmutateToken,
    )
        requires
            self.m_wf(),
            self.valid(old(value).deep_view(), old(cache).deep_view()),
            velem_ok(
                self.mutator,
                self.min_len,
                self.max_len,
                old(value).deep_view(),
                old(cache).deep_view(),
                idx as int,
                tk.deep_view(),
            ),
        ensures
            self.valid(final(value).deep_view(), final(cache).deep_view()),
            (final(value).deep_view(), final(cache).deep_view()) == vunmut_elem(
                self.mutator,
                old(value).deep_view(),
                old(cache).deep_view(),
                idx as int,
                tk.deep_view(),
            ),
    {
        let ghost vsv0 = old(value).deep_view();
        let ghost csv0 = old(cache).deep_view();
        proof {
            assert(vsv0[idx as int] == value[idx as int].deep_view());
            assert(csv0.inner[idx as int] == cache.inner[idx as int].deep_view());
            lemma_rsum_element_le(self.mutator, vsv0, csv0.inner, idx as int);
        }
        let old_el_cplx = self.mutator.complexity(&value[idx], &cache.inner[idx]);
        let sum0 = cache.sum_cplx;
        let el = &mut value[idx];
        let el_cache = &mut cache.inner[idx];
        self.mutator.unmutate(el, el_cache, tk);
        let restored_cplx = self.mutator.complexity(&value[idx], &cache.inner[idx]);
        proof {
            lemma_rsum_update(
                self.mutator,
                vsv0,
                csv0.inner,
                idx as int,
                value.deep_view()[idx as int],
                cache.inner.deep_view()[idx as int],
            );
            assert(value.deep_view() =~= vsv0.update(idx as int, value.deep_view()[idx as int]));
            assert(cache.inner.deep_view() =~= csv0.inner.update(
                idx as int,
                cache.inner.deep_view()[idx as int],
            ));
            assert(rall_valid(self.mutator, value.deep_view(), cache.inner.deep_view()));
            self.lemma_sum_in_range(value.deep_view(), cache.inner.deep_view());
            lemma_rsum_nonneg(self.mutator, value.deep_view(), cache.inner.deep_view());
        }
        let new_sum: u64 = (sum0 - old_el_cplx) + restored_cplx;
        cache.sum_cplx = new_sum;
        proof {
            let applied = vunmut_elem(self.mutator, vsv0, csv0, idx as int, tk.deep_view());
            assert(value.deep_view() =~= applied.0);
            assert(cache.inner.deep_view() =~= applied.1.inner);
            assert(cache.deep_view().sum_cplx == applied.1.sum_cplx);
            assert(cache.deep_view() == applied.1);
        }
    }

    /// Runs the child's random mutation on the element at `idx`.
    fn mutate_element(
        &self,
        value: &mut Vec<T>,
        cache: &mut VecMutatorCache<M::Cache>,
        idx: usize,
        spare_cplx: u64,
    ) -> (r: (UnmutateVecToken<T, M>, u64))
        requires
            self.m_wf(),
            self.valid(old(value).deep_view(), old(cache).deep_view()),
            idx < old(value)@.len(),
        ensures
            (r.0 matches UnmutateVecToken::Element(i2, _) && i2 == idx),
            self.valid(final(value).deep_view(), final(cache).deep_view()),
            r.1 == self.cplx(final(value).deep_view(), final(cache).deep_view()),
            self.token_ok(final(value).deep_view(), final(cache).deep_view(), r.0.deep_view()),
            self.unmutate_spec(final(value).deep_view(), final(cache).deep_view(), r.0.deep_view())
                == (old(value).deep_view(), old(cache).deep_view()),
    {
        let ghost vsv0 = old(value).deep_view();
        let ghost csv0 = old(cache).deep_view();
        proof {
            assert(vsv0[idx as int] == value[idx as int].deep_view());
            assert(csv0.inner[idx as int] == cache.inner[idx as int].deep_view());
            lemma_rsum_element_le(self.mutator, vsv0, csv0.inner, idx as int);
            lemma_rsum_nonneg(self.mutator, vsv0, csv0.inner);
        }
        let old_el_cplx = self.mutator.complexity(&value[idx], &cache.inner[idx]);
        let budget: u64 = if spare_cplx > u64::MAX - old_el_cplx {
            u64::MAX
        } else {
            spare_cplx + old_el_cplx
        };
        let sum0 = cache.sum_cplx;
        let el = &mut value[idx];
        let el_cache = &mut cache.inner[idx];
        let tc = self.mutator.random_mutate(el, el_cache, budget);
        let new_el_cplx = tc.1;
        proof {
            lemma_rsum_update(
                self.mutator,
                vsv0,
                csv0.inner,
                idx as int,
                value.deep_view()[idx as int],
                cache.inner.deep_view()[idx as int],
            );
            assert(value.deep_view() =~= vsv0.update(idx as int, value.deep_view()[idx as int]));
            assert(cache.inner.deep_view() =~= csv0.inner.update(
                idx as int,
                cache.inner.deep_view()[idx as int],
            ));
            assert(rall_valid(self.mutator, value.deep_view(), cache.inner.deep_view()));
            self.lemma_sum_in_range(value.deep_view(), cache.inner.deep_view());
            lemma_rsum_nonneg(self.mutator, value.deep_view(), cache.inner.deep_view());
        }
        let new_sum: u64 = (sum0 - old_el_cplx) + new_el_cplx;
        cache.sum_cplx = new_sum;
        proof {
            let vsv1 = value.deep_view();
            let csv1i = cache.inner.deep_view();
            let tkv = tc.0.deep_view();
            let restored = self.mutator.unmutate_spec(vsv1[idx as int], csv1i[idx as int], tkv);
            assert(restored == (vsv0[idx as int], csv0.inner[idx as int]));
            assert(vsv1.update(idx as int, restored.0) =~= vsv0);
            assert(csv1i.update(idx as int, restored.1) =~= csv0.inner);
            assert(self.mutator.cplx(restored.0, restored.1) == old_el_cplx);
            assert(self.unmutate_spec(
                vsv1,
                cache.deep_view(),
                UnmutateVecTokenView::Element(idx, tkv),
            ).1 == csv0);
        }
        (UnmutateVecToken::Element(idx, tc.0), new_sum)
    }

    /// Mutates the elements at the given positions in turn, collecting the
    /// child tokens so that applying them front to back undoes the whole
    /// batch.
    pub fn mutate_elements(
        &self,
        value: &mut Vec<T>,
        cache: &mut VecMutatorCache<M::Cache>,
        idcs: &Vec<usize>,
        max_cplx: u64,
    ) -> (r: (UnmutateVecToken<T, M>, u64))
        requires
            self.m_wf(),
            self.valid(old(value).deep_view(), old(cache).deep_view()),
            forall|t: int| 0 <= t < idcs@.len() ==> (#[trigger] idcs@[t]) < old(value)@.len(),
        ensures
            self.valid(final(value).deep_view(), final(cache).deep_view()),
            r.1 == self.cplx(final(value).deep_view(), final(cache).deep_view()),
            self.token_ok(final(value).deep_view(), final(cache).deep_view(), r.0.deep_view()),
            self.unmutate_spec(final(value).deep_view(), final(cache).deep_view(), r.0.deep_view())
                == (old(value).deep_view(), old(cache).deep_view()),
    {
        let ghost vsv0 = old(value).deep_view();
        let ghost csv0 = old(cache).deep_view();
        let mut tokens: Vec<(usize, M::UnmutateToken)> = Vec::new();
        let n = idcs.len();
        let mut k: usize = 0;
        let mut cx: u64 = cache.sum_cplx;
        while k < n
            invariant
                self.m_wf(),
                n == idcs@.len(),
                forall|t: int| 0 <= t < idcs@.len() ==> (#[trigger] idcs@[t]) < vsv0.len(),
                vsv0.len() == value@.len(),
                0 <= k <= n,
                self.valid(value.deep_view(), cache.deep_view()),
                cx == self.cplx(value.deep_view(), cache.deep_view()),
                velems_ok(
                    self.mutator,
                    self.min_len,
                    self.max_len,
                    value.deep_view(),
                    cache.deep_view(),
                    tokens.deep_view(),
                ),
                vunmut_elems(
                    self.mutator,
                    value.deep_view(),
                    cache.deep_view(),
                    tokens.deep_view(),
                ) == (vsv0, csv0),
            decreases n - k,
        {
            let idx = idcs[k];
            let current = cache.sum_cplx;
            let spare: u64 = if max_cplx > current {
                max_cplx - current
            } else {
                0
            };
            let ghost vs_pre = value.deep_view();
            let ghost cs_pre = cache.deep_view();
            let ghost toks_pre = tokens.deep_view();
            let tc = self.mutate_element(value, cache, idx, spare);
            let ghost tokv = tc.0.deep_view();
            match tc.0 {
                UnmutateVecToken::Element(i2, tk) => {
                    let ghost tkv = tk.deep_view();
                    proof {
                        assert(tokv == UnmutateVecTokenView::<
                            T::V,
                            TokenView<T, M>,
                            CacheView<T, M>,
                        >::Element(i2, tkv));
                    }
                    tokens.insert(0, (i2, tk));
                    cx = tc.1;
                    proof {
                        assert(tokens.deep_view() =~= toks_pre.insert(0, (i2, tkv)));
                        let toks1 = tokens.deep_view();
                        assert(toks1[0] == (i2, tkv));
                        assert(toks1.drop_first() =~= toks_pre);
                        assert(velem_ok(
                            self.mutator,
                            self.min_len,
                            self.max_len,
                            value.deep_view(),
                            cache.deep_view(),
                            i2 as int,
                            tkv,
                        ));
                        assert(self.unmutate_spec(value.deep_view(), cache.deep_view(), tokv)
                            == (vs_pre, cs_pre));
                        assert(self.unmutate_spec(value.deep_view(), cache.deep_view(), tokv)
                            == vunmut_elem(
                            self.mutator,
                            value.deep_view(),
                            cache.deep_view(),
                            i2 as int,
                            tkv,
                        ));
                    }
                },
                _ => {
                    proof {
                        assert(false);
                    }
                },
            }
            k = k + 1;
        }
        (UnmutateVecToken::Elements(tokens), cx)
    }

    /// Inserts one freshly generated element at a random position.
    fn insert_mutation(
        &self,
        value: &mut Vec<T>,
        cache: &mut VecMutatorCache<M::Cache>,
        spare_cplx: u64,
    ) -> (r: (UnmutateVecToken<T, M>, u64))
        requires
            self.m_wf(),
            self.valid(old(value).deep_view(), old(cache).deep_view()),
            old(value)@.len() < self.max_len,
        ensures
            self.valid(final(value).deep_view(), final(cache).deep_view()),
            r.1 == self.cplx(final(value).deep_view(), final(cache).deep_view()),
            self.token_ok(final(value).deep_view(), final(cache).deep_view(), r.0.deep_view()),
            self.unmutate_spec(final(value).deep_view(), final(cache).deep_view(), r.0.deep_view())
                == (old(value).deep_view(), old(cache).deep_view()),
    {
        let ghost vsv0 = old(value).deep_view();
        let ghost csv0 = old(cache).deep_view();
        let (x, cx) = self.mutator.random_arbitrary(spare_cplx);
        let c = match self.mutator.validate_value(&x) {
            Some(c) => c,
            None => {
                proof {
                    assert(false);
                }
                unreached()
            },
        };
        let idx = rng_usize(&self.rng, 0, value.len() + 1);
        proof {
            self.mutator.lemma_cplx_bounds(x.deep_view(), c.deep_view());
            lemma_rsum_insert(
                self.mutator,
                vsv0,
                csv0.inner,
                idx as int,
                x.deep_view(),
                c.deep_view(),
            );
            assert(rall_valid(
                self.mutator,
                vsv0.insert(idx as int, x.deep_view()),
                csv0.inner.insert(idx as int, c.deep_view()),
            )) by {
                let nvs = vsv0.insert(idx as int, x.deep_view());
                let ncs = csv0.inner.insert(idx as int, c.deep_view());
                assert(forall|j: int|
                    0 <= j < nvs.len() ==> self.mutator.valid(#[trigger] nvs[j], ncs[j]));
            }
            self.lemma_sum_in_range(
                vsv0.insert(idx as int, x.deep_view()),
                csv0.inner.insert(idx as int, c.deep_view()),
            );
            lemma_rsum_nonneg(self.mutator, vsv0, csv0.inner);
        }
        let el_cplx = self.mutator.complexity(&x, &c);
        value.insert(idx, x);
        cache.inner.insert(idx, c);
        let new_sum = cache.sum_cplx + el_cplx;
        cache.sum_cplx = new_sum;
        proof {
            assert(value.deep_view() =~= vsv0.insert(idx as int, value.deep_view()[idx as int]));
            assert(cache.inner.deep_view() =~= csv0.inner.insert(
                idx as int,
                cache.inner.deep_view()[idx as int],
            ));
            assert(value.deep_view().remove(idx as int) =~= vsv0);
            assert(cache.inner.deep_view().remove(idx as int) =~= csv0.inner);
            lemma_rsum_remove(
                self.mutator,
                value.deep_view(),
                cache.inner.deep_view(),
                idx as int,
            );
        }
        (UnmutateVecToken::Remove(idx), new_sum)
    }

    /// Removes the element at a random position; the token carries it.
    fn remove_mutation(&self, value: &mut Vec<T>, cache: &mut VecMutatorCache<M::Cache>) -> (r: (
        UnmutateVecToken<T, M>,
        u64,
    ))
        requires
            self.m_wf(),
            self.valid(old(value).deep_view(), old(cache).deep_view()),
            old(value)@.len() > self.min_len,
            old(value)@.len() >= 1,
        ensures
            self.valid(final(value).deep_view(), final(cache).deep_view()),
            r.1 == self.cplx(final(value).deep_view(), final(cache).deep_view()),
            self.token_ok(final(value).deep_view(), final(cache).deep_view(), r.0.deep_view()),
            self.unmutate_spec(final(value).deep_view(), final(cache).deep_view(), r.0.deep_view())
                == (old(value).deep_view(), old(cache).deep_view()),
    {
        let ghost vsv0 = old(value).deep_view();
        let ghost csv0 = old(cache).deep_view();
        let idx = rng_usize(&self.rng, 0, value.len());
        proof {
            assert(vsv0[idx as int] == value[idx as int].deep_view());
            assert(csv0.inner[idx as int] == cache.inner[idx as int].deep_view());
            lemma_rsum_element_le(self.mutator, vsv0, csv0.inner, idx as int);
            lemma_rsum_remove(self.mutator, vsv0, csv0.inner, idx as int);
        }
        let el_cplx = self.mutator.complexity(&value[idx], &cache.inner[idx]);
        let removed = value.remove(idx);
        let removed_cache = cache.inner.remove(idx);
        let new_sum = cache.sum_cplx - el_cplx;
        cache.sum_cplx = new_sum;
        proof {
            assert(value.deep_view() =~= vsv0.remove(idx as int));
            assert(cache.inner.deep_view() =~= csv0.inner.remove(idx as int));
            assert(rall_valid(self.mutator, value.deep_view(), cache.inner.deep_view())) by {
                assert(forall|j: int|
                    0 <= j < value.deep_view().len() ==> self.mutator.valid(
                        #[trigger] value.deep_view()[j],
                        cache.inner.deep_view()[j],
                    ));
            }
            assert(removed.deep_view() == vsv0[idx as int]);
            assert(removed_cache.deep_view() == csv0.inner[idx as int]);
            assert(value.deep_view().insert(idx as int, removed.deep_view()) =~= vsv0);
            assert(cache.inner.deep_view().insert(idx as int, removed_cache.deep_view())
                =~= csv0.inner);
            lemma_rsum_insert(
                self.mutator,
                value.deep_view(),
                cache.inner.deep_view(),
                idx as int,
                removed.deep_view(),
                removed_cache.deep_view(),
            );
        }
        (UnmutateVecToken::Insert(idx, removed, removed_cache), new_sum)
    }

    /// Replaces the whole vector with a freshly generated one; the token
    /// returns the previous value and cache.
    fn replace_mutation(
        &self,
        value: &mut Vec<T>,
        cache: &mut VecMutatorCache<M::Cache>,
        max_cplx: u64,
    ) -> (r: (UnmutateVecToken<T, M>, u64))
        requires
            self.m_wf(),
            self.valid(old(value).deep_view(), old(cache).deep_view()),
        ensures
            self.valid(final(value).deep_view(), final(cache).deep_view()),
            r.1 == self.cplx(final(value).deep_view(), final(cache).deep_view()),
            self.token_ok(final(value).deep_view(), final(cache).deep_view(), r.0.deep_view()),
            self.unmutate_spec(final(value).deep_view(), final(cache).deep_view(), r.0.deep_view())
                == (old(value).deep_view(), old(cache).deep_view()),
    {
        let rc = self.arbitrary_with_cache(max_cplx);
        let mut v = rc.0;
        let mut c = rc.1;
        core::mem::swap(value, &mut v);
        core::mem::swap(cache, &mut c);
        (UnmutateVecToken::Replace(v, c), rc.2)
    }
}

} // verus!
