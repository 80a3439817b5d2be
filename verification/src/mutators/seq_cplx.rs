//! Specification-level sums of child complexities over sequences, shared by
//! the vector mutators, with the induction lemmas that the proofs need.

use vstd::prelude::*;

use crate::traits::{CacheView, Mutator};

verus! {

/// Sum of the minimum complexities of a sequence of mutators.
pub open spec fn sum_min_cplx<T: DeepView, M: Mutator<T>>(ms: Seq<M>) -> int
    decreases ms.len(),
{
    if ms.len() == 0 {
        0
    } else {
        sum_min_cplx(ms.drop_last()) + ms.last().min_cplx()
    }
}

/// Sum of the maximum complexities of a sequence of mutators.
pub open spec fn sum_max_cplx<T: DeepView, M: Mutator<T>>(ms: Seq<M>) -> int
    decreases ms.len(),
{
    if ms.len() == 0 {
        0
    } else {
        sum_max_cplx(ms.drop_last()) + ms.last().max_cplx()
    }
}

/// Sum of the cache-read complexities of the values, element by element.
pub open spec fn sum_cplx<T: DeepView, M: Mutator<T>>(ms: Seq<M>, vs: Seq<T::V>, cs: Seq<CacheView<T, M>>) -> int
    decreases vs.len(),
{
    if vs.len() == 0 {
        0
    } else {
        sum_cplx(ms.drop_last(), vs.drop_last(), cs.drop_last())
            + ms.last().cplx(vs.last(), cs.last())
    }
}

/// Sum of the value-walk complexities of the values, element by element.
pub open spec fn sum_value_cplx<T: DeepView, M: Mutator<T>>(ms: Seq<M>, vs: Seq<T::V>) -> int
    decreases vs.len(),
{
    if vs.len() == 0 {
        0
    } else {
        sum_value_cplx(ms.drop_last(), vs.drop_last()) + ms.last().value_cplx(vs.last())
    }
}

/// Every element of the sequence of mutators is well formed.
pub open spec fn all_wf<T: DeepView, M: Mutator<T>>(ms: Seq<M>) -> bool {
    forall|i: int| 0 <= i < ms.len() ==> (#[trigger] ms[i]).m_wf()
}

/// Every value is synchronized with its cache under its mutator.
pub open spec fn all_valid<T: DeepView, M: Mutator<T>>(ms: Seq<M>, vs: Seq<T::V>, cs: Seq<CacheView<T, M>>) -> bool {
    &&& vs.len() == ms.len()
    &&& cs.len() == ms.len()
    &&& forall|i: int| 0 <= i < ms.len() ==> (#[trigger] ms[i]).valid(vs[i], cs[i])
}

/// The element sums lie between the sum of minima and the sum of maxima.
pub proof fn lemma_sum_cplx_bounds<T: DeepView, M: Mutator<T>>(ms: Seq<M>, vs: Seq<T::V>, cs: Seq<CacheView<T, M>>)
    requires
        all_wf(ms),
        all_valid(ms, vs, cs),
    ensures
        sum_min_cplx(ms) <= sum_cplx(ms, vs, cs) <= sum_max_cplx(ms),
    decreases ms.len(),
{
    if ms.len() > 0 {
        assert(all_wf(ms.drop_last()));
        assert(all_valid(ms.drop_last(), vs.drop_last(), cs.drop_last()));
        lemma_sum_cplx_bounds(ms.drop_last(), vs.drop_last(), cs.drop_last());
        ms.last().lemma_cplx_bounds(vs.last(), cs.last());
    }
}

/// The sum of minima never exceeds the sum of maxima.
pub proof fn lemma_sum_min_le_max<T: DeepView, M: Mutator<T>>(ms: Seq<M>)
    requires
        all_wf(ms),
    ensures
        0 <= sum_min_cplx(ms) <= sum_max_cplx(ms),
    decreases ms.len(),
{
    if ms.len() > 0 {
        assert(all_wf(ms.drop_last()));
        lemma_sum_min_le_max::<T, M>(ms.drop_last());
        ms.last().lemma_min_le_max();
    }
}

/// Replacing one element's value and cache changes the sum by exactly the
/// difference of the two element complexities.
pub proof fn lemma_sum_cplx_update<T: DeepView, M: Mutator<T>>(
    ms: Seq<M>,
    vs: Seq<T::V>,
    cs: Seq<CacheView<T, M>>,
    i: int,
    v: T::V,
    c: CacheView<T, M>,
)
    requires
        vs.len() == ms.len(),
        cs.len() == ms.len(),
        0 <= i < ms.len(),
    ensures
        sum_cplx(ms, vs.update(i, v), cs.update(i, c)) == sum_cplx(ms, vs, cs)
            - ms[i].cplx(vs[i], cs[i]) + ms[i].cplx(v, c),
    decreases ms.len(),
{
    let n = ms.len() - 1;
    if i == n {
        assert(vs.update(i, v).drop_last() =~= vs.drop_last());
        assert(cs.update(i, c).drop_last() =~= cs.drop_last());
        assert(vs.update(i, v).last() == v);
        assert(cs.update(i, c).last() == c);
    } else {
        assert(vs.update(i, v).drop_last() =~= vs.drop_last().update(i, v));
        assert(cs.update(i, c).drop_last() =~= cs.drop_last().update(i, c));
        assert(vs.update(i, v).last() == vs.last());
        assert(cs.update(i, c).last() == cs.last());
        lemma_sum_cplx_update(ms.drop_last(), vs.drop_last(), cs.drop_last(), i, v, c);
    }
}

/// One element's contribution never exceeds the whole sum.
pub proof fn lemma_sum_cplx_element_le<T: DeepView, M: Mutator<T>>(
    ms: Seq<M>,
    vs: Seq<T::V>,
    cs: Seq<CacheView<T, M>>,
    i: int,
)
    requires
        all_wf(ms),
        all_valid(ms, vs, cs),
        0 <= i < ms.len(),
    ensures
        0 <= ms[i].cplx(vs[i], cs[i]) <= sum_cplx(ms, vs, cs),
    decreases ms.len(),
{
    let n = ms.len() - 1;
    ms[i].lemma_cplx_bounds(vs[i], cs[i]);
    if i == n {
        lemma_sum_cplx_nonneg(ms.drop_last(), vs.drop_last(), cs.drop_last());
    } else {
        assert(all_wf(ms.drop_last()));
        assert(all_valid(ms.drop_last(), vs.drop_last(), cs.drop_last()));
        lemma_sum_cplx_element_le(ms.drop_last(), vs.drop_last(), cs.drop_last(), i);
        ms.last().lemma_cplx_bounds(vs.last(), cs.last());
    }
}

/// Sums of complexities are nonnegative.
pub proof fn lemma_sum_cplx_nonneg<T: DeepView, M: Mutator<T>>(ms: Seq<M>, vs: Seq<T::V>, cs: Seq<CacheView<T, M>>)
    ensures
        0 <= sum_cplx(ms, vs, cs),
    decreases vs.len(),
{
    if vs.len() > 0 {
        lemma_sum_cplx_nonneg(ms.drop_last(), vs.drop_last(), cs.drop_last());
    }
}

} // verus!
