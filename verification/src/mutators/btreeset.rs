//! An ordered set of 64-bit integers, as the plain representation behind
//! the vector conversions.

use vstd::prelude::*;

use crate::mutators::btreemap::KeySortedMap;

verus! {

broadcast use vstd::std_specs::vec::group_vec_axioms;

/// An ordered set: a key-sorted map with no payloads.
pub struct KeySortedSet {
    pub inner: KeySortedMap<()>,
}

impl KeySortedSet {
    /// The keys are strictly increasing.
    pub open spec fn wf(self) -> bool {
        self.inner.wf()
    }

    /// The set holds the element.
    pub open spec fn has(self, k: u64) -> bool {
        self.inner.has_key(k)
    }

    /// An empty set.
    pub fn new() -> (r: KeySortedSet)
        ensures
            r.wf(),
            r.inner.entries@.len() == 0,
    {
        KeySortedSet { inner: KeySortedMap::new() }
    }

    /// Inserts one element, keeping the elements sorted and unique.
    pub fn insert_element(&mut self, k: u64)
        requires
            old(self).wf(),
        ensures
            final(self).wf(),
            final(self).has(k),
            forall|q: u64| q != k ==> (final(self).has(q) <==> old(self).has(q)),
    {
        self.inner.insert_entry(k, ());
    }
}

/// The elements of an ordered set, in order.
pub fn avec_from_btreeset(btree: KeySortedSet) -> (r: Option<Vec<u64>>)
    ensures
        (r matches Option::Some(v) ==> v@.len() == btree.inner.entries@.len()),
        (r matches Option::Some(v) ==> forall|i: int|
            0 <= i < v@.len() ==> (#[trigger] v@[i]) == btree.inner.entries@[i].0),
        r is Some,
{
    let mut out: Vec<u64> = Vec::new();
    let n = btree.inner.entries.len();
    let mut i: usize = 0;
    while i < n
        invariant
            n == btree.inner.entries@.len(),
            0 <= i <= n,
            out@.len() == i,
            forall|t: int| 0 <= t < i ==> (#[trigger] out@[t]) == btree.inner.entries@[t].0,
        decreases n - i,
    {
        out.push(btree.inner.entries[i].0);
        i = i + 1;
    }
    Some(out)
}

/// An ordered set built from a vector of elements; duplicates collapse.
pub fn btreeset_from_avec(avec: Vec<u64>) -> (r: KeySortedSet)
    ensures
        r.wf(),
        forall|q: u64| r.has(q) <==> avec@.contains(q),
{
    let ghost av = avec@;
    let mut out = KeySortedSet::new();
    let n = avec.len();
    let mut i: usize = 0;
    while i < n
        invariant
            n == av.len(),
            av == avec@,
            0 <= i <= n,
            out.wf(),
            forall|q: u64| out.has(q) <==> av.take(i as int).contains(q),
        decreases n - i,
    {
        out.insert_element(avec[i]);
        proof {
            assert(av.take(i + 1) =~= av.take(i as int).push(av[i as int]));
            assert forall|q: u64| #[trigger] out.has(q) <==> av.take(i + 1).contains(q) by {
                if q == av[i as int] {
                    assert(av.take(i + 1)[i as int] == q);
                    assert(av.take(i + 1).contains(q));
                } else {
                    assert forall|t: int|
                        0 <= t < av.take(i + 1).len() && (#[trigger] av.take(i + 1)[t]) == q
                        implies av.take(i as int).contains(q) by {
                        assert(av.take(i as int)[t] == q);
                    }
                    if av.take(i as int).contains(q) {
                        let t = choose|t: int|
                            0 <= t < av.take(i as int).len() && av.take(i as int)[t] == q;
                        assert(av.take(i + 1)[t] == q);
                    }
                }
            }
        }
        i = i + 1;
    }
    proof {
        assert(av.take(n as int) =~= av);
    }
    out
}

} // verus!
