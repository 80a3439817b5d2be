//! An ordered map keyed by 64-bit integers, as the plain representation
//! behind the associative-vector conversions.

use vstd::prelude::*;

verus! {

broadcast use vstd::std_specs::vec::group_vec_axioms;

/// An ordered map: entries sorted by strictly increasing key.
pub struct KeySortedMap<V> {
    pub entries: Vec<(u64, V)>,
}

impl<V> KeySortedMap<V> {
    /// The keys are strictly increasing.
    pub open spec fn wf(self) -> bool {
        forall|i: int, j: int|
            0 <= i < j < self.entries@.len() ==> (#[trigger] self.entries@[i]).0 < (
            #[trigger] self.entries@[j]).0
    }

    /// The map holds the key.
    pub open spec fn has_key(self, k: u64) -> bool {
        exists|i: int| 0 <= i < self.entries@.len() && (#[trigger] self.entries@[i]).0 == k
    }

    /// An empty map.
    pub fn new() -> (r: KeySortedMap<V>)
        ensures
            r.wf(),
            r.entries@.len() == 0,
    {
        KeySortedMap { entries: Vec::new() }
    }

    /// Inserts one entry, keeping the keys sorted; an entry with the same
    /// key is replaced.
    pub fn insert_entry(&mut self, k: u64, v: V)
        requires
            old(self).wf(),
        ensures
            final(self).wf(),
            final(self).has_key(k),
            forall|q: u64| q != k ==> (final(self).has_key(q) <==> old(self).has_key(q)),
    {
        let n = self.entries.len();
        let mut i: usize = 0;
        while i < n
            invariant
                self.wf(),
                *self == *old(self),
                n == self.entries@.len(),
                0 <= i <= n,
                forall|t: int| 0 <= t < i ==> (#[trigger] self.entries@[t]).0 < k,
            decreases n - i,
        {
            let ki = self.entries[i].0;
            if ki == k {
                // replace in place
                let ghost pre = self.entries@;
                let el = &mut self.entries[i];
                el.1 = v;
                proof {
                    assert(self.entries@ =~= pre.update(i as int, self.entries@[i as int]));
                    assert(self.entries@[i as int].0 == k);
                    assert forall|q: u64| q != k implies (self.has_key(q) <==> old(
                        self,
                    ).has_key(q)) by {
                        if old(self).has_key(q) {
                            let t = choose|t: int|
                                0 <= t < pre.len() && (#[trigger] pre[t]).0 == q;
                            assert(self.entries@[t].0 == q);
                        }
                        if self.has_key(q) {
                            let t = choose|t: int|
                                0 <= t < self.entries@.len() && (#[trigger] self.entries@[t]).0
                                    == q;
                            assert(pre[t].0 == q);
                        }
                    }
                }
                return;
            }
            if ki > k {
                let ghost pre = self.entries@;
                self.entries.insert(i, (k, v));
                proof {
                    assert(self.entries@ =~= pre.insert(i as int, (k, v)));
                    assert(self.entries@[i as int].0 == k);
                    assert forall|t1: int, t2: int|
                        0 <= t1 < t2 < self.entries@.len() implies (
                    #[trigger] self.entries@[t1]).0 < (#[trigger] self.entries@[t2]).0 by {
                        let s1 = if t1 < i { t1 } else { t1 - 1 };
                        let s2 = if t2 < i { t2 } else { t2 - 1 };
                        if t1 != i && t2 != i {
                            assert(self.entries@[t1] == pre[s1]);
                            assert(self.entries@[t2] == pre[s2]);
                        } else if t1 == i {
                            assert(self.entries@[t2] == pre[s2]);
                        } else {
                            assert(self.entries@[t1] == pre[s1]);
                        }
                    }
                    assert forall|q: u64| q != k implies (self.has_key(q) <==> old(
                        self,
                    ).has_key(q)) by {
                        if old(self).has_key(q) {
                            let t = choose|t: int|
                                0 <= t < pre.len() && (#[trigger] pre[t]).0 == q;
                            if t < i {
                                assert(self.entries@[t].0 == q);
                            } else {
                                assert(self.entries@[t + 1].0 == q);
                            }
                        }
                        if self.has_key(q) {
                            let t = choose|t: int|
                                0 <= t < self.entries@.len() && (#[trigger] self.entries@[t]).0
                                    == q;
                            if t < i {
                                assert(pre[t].0 == q);
                            } else {
                                assert(pre[t - 1].0 == q);
                            }
                        }
                    }
                }
                return;
            }
            i = i + 1;
        }
        let ghost pre = self.entries@;
        self.entries.push((k, v));
        proof {
            assert(self.entries@ =~= pre.push((k, v)));
            assert(self.entries@[pre.len() as int].0 == k);
            assert forall|q: u64| q != k implies (self.has_key(q) <==> old(self).has_key(q)) by {
                if old(self).has_key(q) {
                    let t = choose|t: int| 0 <= t < pre.len() && (#[trigger] pre[t]).0 == q;
                    assert(self.entries@[t].0 == q);
                }
                if self.has_key(q) {
                    let t = choose|t: int|
                        0 <= t < self.entries@.len() && (#[trigger] self.entries@[t]).0 == q;
                    assert(t < pre.len());
                    assert(pre[t].0 == q);
                }
            }
        }
    }
}

/// The entries of an ordered map, in key order. Mirrors the associative
/// vector that the map mutator works on.
pub fn avec_from_btreemap<V>(btree: KeySortedMap<V>) -> (r: Option<Vec<(u64, V)>>)
    ensures
        (r matches Option::Some(v) && v == btree.entries),
{
    Some(btree.entries)
}

/// An ordered map built from an associative vector; a later entry with the
/// same key replaces an earlier one.
pub fn btreemap_from_avec<V>(avec: Vec<(u64, V)>) -> (r: KeySortedMap<V>)
    ensures
        r.wf(),
        forall|q: u64|
            r.has_key(q) <==> exists|i: int|
                0 <= i < avec@.len() && (#[trigger] avec@[i]).0 == q,
{
    let ghost av = avec@;
    let mut out: KeySortedMap<V> = KeySortedMap::new();
    let n = avec.len();
    let mut consumed = avec;
    let mut i: usize = 0;
    while i < n
        invariant
            n == av.len(),
            consumed@ == av.skip(i as int),
            0 <= i <= n,
            out.wf(),
            forall|q: u64|
                out.has_key(q) <==> exists|t: int| 0 <= t < i && (#[trigger] av[t]).0 == q,
        decreases n - i,
    {
        let pair = consumed.remove(0);
        proof {
            assert(av.skip(i as int)[0] == av[i as int]);
            assert(av.skip(i as int).remove(0) =~= av.skip(i + 1));
            assert(pair == av[i as int]);
        }
        let ghost had = |q: u64| out.has_key(q);
        out.insert_entry(pair.0, pair.1);
        proof {
            assert forall|q: u64|
                out.has_key(q) <==> exists|t: int|
                    0 <= t < i + 1 && (#[trigger] av[t]).0 == q by {
                if q == av[i as int].0 {
                    assert(out.has_key(q));
                    assert(av[i as int].0 == q);
                }
            }
        }
        i = i + 1;
    }
    out
}

} // verus!
