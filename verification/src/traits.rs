//! The value-parametric mutator contract.
//!
//! Contracts are stated over the deep views of the values, caches and
//! unmutate tokens, so that structural equality ("restored bit for bit")
//! is meaningful for every value shape, vectors included.

use vstd::prelude::*;

verus! {

/// The deep view of a mutator's cache.
pub type CacheView<V, M> = <<M as Mutator<V>>::Cache as DeepView>::V;

/// The deep view of a mutator's unmutate token.
pub type TokenView<V, M> = <<M as Mutator<V>>::UnmutateToken as DeepView>::V;

/**
A `Mutator<V>` generates and incrementally transforms values of type `V`.

Every mutator keeps, for each value, a [`Cache`](Mutator::Cache) of
precomputed information (typically the value's complexity), a
[`MutationStep`](Mutator::MutationStep) cursor that enumerates deterministic
mutations without repetition, and it describes each mutation it performs with
an [`UnmutateToken`](Mutator::UnmutateToken) that reverses the mutation.

The contract is carried by specification functions over the deep views of
values, caches and tokens:

- `m_wf` says that the mutator itself is well formed;
- `accepts` is the mutator's domain: exactly the values that
  [`validate_value`](Mutator::validate_value) accepts;
- `valid` says that a cache is synchronized with a value;
- `cplx` is the complexity recorded for a value and its cache, and
  `value_cplx` the complexity obtained by walking the value alone; on every
  cache produced by `validate_value` the two agree;
- `unmutate_spec` says what [`unmutate`](Mutator::unmutate) does to a
  mutated value: both mutation methods promise that applying it to their
  result restores the value and cache they were handed, which is the
  round-trip law.
*/
pub trait Mutator<V: DeepView>: Sized {
    /// Per-value data that makes complexity and mutation cheap to compute.
    type Cache: DeepView;
    /// Cursor over the deterministic mutations of one value.
    type MutationStep;
    /// Cursor over the values that `ordered_arbitrary` generates.
    type ArbitraryStep;
    /// Reversible record of a single mutation.
    type UnmutateToken: DeepView;
    /// Cursor used to yield sub-values of a value.
    type RecursingPartIndex;

    /// The mutator itself is well formed.
    spec fn m_wf(&self) -> bool;

    /// The domain of the mutator: the values `validate_value` accepts.
    spec fn accepts(&self, value: V::V) -> bool;

    /// The cache is synchronized with the value.
    spec fn valid(&self, value: V::V, cache: CacheView<V, Self>) -> bool;

    /// The complexity of a value, read with the help of its cache.
    spec fn cplx(&self, value: V::V, cache: CacheView<V, Self>) -> u64;

    /// The complexity of a value, read from the value alone.
    spec fn value_cplx(&self, value: V::V) -> u64;

    /// Constant lower bound on the complexity of produced values.
    spec fn min_cplx(&self) -> u64;

    /// Constant upper bound on the complexity of produced values.
    spec fn max_cplx(&self) -> u64;

    /// The token `t` can be applied to `value` and `cache`.
    spec fn token_ok(&self, value: V::V, cache: CacheView<V, Self>, t: TokenView<V, Self>) -> bool;

    /// What `unmutate` does: the value and cache restored by applying `t`.
    spec fn unmutate_spec(&self, value: V::V, cache: CacheView<V, Self>, t: TokenView<V, Self>) -> (
        V::V,
        CacheView<V, Self>,
    );

    /// The lower complexity bound never exceeds the upper one.
    proof fn lemma_min_le_max(&self)
        requires
            self.m_wf(),
        ensures
            self.min_cplx() <= self.max_cplx(),
    ;

    /// A synchronized cache reads a complexity within the mutator's bounds.
    proof fn lemma_cplx_bounds(&self, value: V::V, cache: CacheView<V, Self>)
        requires
            self.m_wf(),
            self.valid(value, cache),
        ensures
            self.min_cplx() <= self.cplx(value, cache),
            self.cplx(value, cache) <= self.max_cplx(),
    ;

    /// The first cursor to pass to `ordered_arbitrary`.
    fn default_arbitrary_step(&self) -> Self::ArbitraryStep
        requires
            self.m_wf(),
    ;

    /// Accepts or rejects a value; acceptance yields a synchronized cache
    /// whose recorded complexity equals the complexity of walking the value.
    fn validate_value(&self, value: &V) -> (r: Option<Self::Cache>)
        requires
            self.m_wf(),
        ensures
            (match r {
                Option::Some(cache) => self.accepts(value.deep_view()) && self.valid(
                    value.deep_view(),
                    cache.deep_view(),
                ) && self.cplx(value.deep_view(), cache.deep_view()) == self.value_cplx(
                    value.deep_view(),
                ),
                Option::None => !self.accepts(value.deep_view()),
            }),
    ;

    /// The first mutation cursor for a value and its cache.
    fn default_mutation_step(&self, value: &V, cache: &Self::Cache) -> Self::MutationStep
        requires
            self.m_wf(),
            self.valid(value.deep_view(), cache.deep_view()),
    ;

    /// The constant upper complexity bound.
    fn max_complexity(&self) -> (r: u64)
        requires
            self.m_wf(),
        ensures
            r == self.max_cplx(),
    ;

    /// The constant lower complexity bound.
    fn min_complexity(&self) -> (r: u64)
        requires
            self.m_wf(),
        ensures
            r == self.min_cplx(),
    ;

    /// The complexity of the value, read through the cache.
    fn complexity(&self, value: &V, cache: &Self::Cache) -> (r: u64)
        requires
            self.m_wf(),
            self.valid(value.deep_view(), cache.deep_view()),
        ensures
            r == self.cplx(value.deep_view(), cache.deep_view()),
    ;

    /// Deterministically generates a fresh value within the budget, or
    /// reports exhaustion. A budget below the minimum complexity admits no
    /// value.
    fn ordered_arbitrary(&self, step: &mut Self::ArbitraryStep, max_cplx: u64) -> (r: Option<
        (V, u64),
    >)
        requires
            self.m_wf(),
        ensures
            (match r {
                Option::Some(vc) => self.accepts(vc.0.deep_view()) && vc.1 == self.value_cplx(
                    vc.0.deep_view(),
                ) && vc.1 <= max_cplx,
                Option::None => true,
            }),
            max_cplx < self.min_cplx() ==> r is None,
    ;

    /// Generates a fresh value; stays within the budget whenever the budget
    /// admits any value at all.
    fn random_arbitrary(&self, max_cplx: u64) -> (r: (V, u64))
        requires
            self.m_wf(),
        ensures
            self.accepts(r.0.deep_view()),
            r.1 == self.value_cplx(r.0.deep_view()),
            max_cplx >= self.min_cplx() ==> r.1 <= max_cplx,
    ;

    /// The deterministic next mutation of the value, or exhaustion. On
    /// success the returned token reverses the mutation exactly.
    fn ordered_mutate(
        &self,
        value: &mut V,
        cache: &mut Self::Cache,
        step: &mut Self::MutationStep,
        max_cplx: u64,
    ) -> (r: Option<(Self::UnmutateToken, u64)>)
        requires
            self.m_wf(),
            self.valid(old(value).deep_view(), old(cache).deep_view()),
        ensures
            (match r {
                Option::Some(tc) => {
                    &&& self.valid(final(value).deep_view(), final(cache).deep_view())
                    &&& tc.1 == self.cplx(final(value).deep_view(), final(cache).deep_view())
                    &&& self.token_ok(
                        final(value).deep_view(),
                        final(cache).deep_view(),
                        tc.0.deep_view(),
                    )
                    &&& self.unmutate_spec(
                        final(value).deep_view(),
                        final(cache).deep_view(),
                        tc.0.deep_view(),
                    ) == (old(value).deep_view(), old(cache).deep_view())
                },
                Option::None => final(value).deep_view() == old(value).deep_view()
                    && final(cache).deep_view() == old(cache).deep_view(),
            }),
    ;

    /// Mutates the value; always produces. The returned token reverses the
    /// mutation exactly.
    fn random_mutate(&self, value: &mut V, cache: &mut Self::Cache, max_cplx: u64) -> (r: (
        Self::UnmutateToken,
        u64,
    ))
        requires
            self.m_wf(),
            self.valid(old(value).deep_view(), old(cache).deep_view()),
        ensures
            self.valid(final(value).deep_view(), final(cache).deep_view()),
            r.1 == self.cplx(final(value).deep_view(), final(cache).deep_view()),
            self.token_ok(final(value).deep_view(), final(cache).deep_view(), r.0.deep_view()),
            self.unmutate_spec(
                final(value).deep_view(),
                final(cache).deep_view(),
                r.0.deep_view(),
            ) == (old(value).deep_view(), old(cache).deep_view()),
    ;

    /// Undoes the mutation described by `t`: the exact reverse of the call
    /// that produced the token.
    fn unmutate(&self, value: &mut V, cache: &mut Self::Cache, t: Self::UnmutateToken)
        requires
            self.m_wf(),
            self.valid(old(value).deep_view(), old(cache).deep_view()),
            self.token_ok(old(value).deep_view(), old(cache).deep_view(), t.deep_view()),
        ensures
            final(value).deep_view() == self.unmutate_spec(
                old(value).deep_view(),
                old(cache).deep_view(),
                t.deep_view(),
            ).0,
            final(cache).deep_view() == self.unmutate_spec(
                old(value).deep_view(),
                old(cache).deep_view(),
                t.deep_view(),
            ).1,
    ;

    /// The first cursor to pass to `recursing_part`.
    fn default_recursing_part_index(&self, value: &V, cache: &Self::Cache) -> Self::RecursingPartIndex
        requires
            self.m_wf(),
            self.valid(value.deep_view(), cache.deep_view()),
    ;

    /// Yields a reference to a sub-value of `value` of type `T`, viewed
    /// through another mutator, or reports that the cursor is exhausted.
    fn recursing_part<'a, T, N>(
        &self,
        parent: &N,
        value: &'a V,
        index: &mut Self::RecursingPartIndex,
    ) -> Option<&'a T>
        requires
            self.m_wf(),
    ;
}

/// Law: a mutation followed by its unmutation restores the value, the cache
/// and hence the complexity, bit for bit (at the level of deep views).
///
/// `ordered_mutate` and `random_mutate` promise of their result exactly the
/// premise below: applying `unmutate_spec` to the mutated state and the
/// returned token yields the pre-mutation state. `unmutate` promises that it
/// computes `unmutate_spec`. Composed, the two calls restore the original
/// value, cache and complexity.
pub proof fn lemma_unmutate_round_trip<V: DeepView, M: Mutator<V>>(
    m: M,
    orig_value: V::V,
    orig_cache: CacheView<V, M>,
    mutated_value: V::V,
    mutated_cache: CacheView<V, M>,
    t: TokenView<V, M>,
)
    requires
        m.m_wf(),
        m.valid(orig_value, orig_cache),
        m.unmutate_spec(mutated_value, mutated_cache, t) == (orig_value, orig_cache),
    ensures
        m.unmutate_spec(mutated_value, mutated_cache, t).0 == orig_value,
        m.unmutate_spec(mutated_value, mutated_cache, t).1 == orig_cache,
        m.cplx(
            m.unmutate_spec(mutated_value, mutated_cache, t).0,
            m.unmutate_spec(mutated_value, mutated_cache, t).1,
        ) == m.cplx(orig_value, orig_cache),
{
}


/// A stable identifier of a test case owned by the fuzzer's storage. Pools
/// point at inputs through it without copying them.
#[derive(Clone, Copy, Debug, PartialEq, Eq, Hash, Structural)]
pub struct PoolStorageIndex(pub usize);

impl PoolStorageIndex {
    /// Builds an index directly; meant for tests and for the storage owner.
    pub fn mock(idx: usize) -> (r: PoolStorageIndex)
        ensures
            r.0 == idx,
    {
        PoolStorageIndex(idx)
    }
}

/// An event the fuzzer reports after processing observations.
#[derive(Clone, Copy, Debug, PartialEq, Eq, Structural)]
pub enum FuzzerEvent {
    /// Nothing changed.
    NoChange,
    /// Some test cases were added and some removed: (added, removed).
    Replace(usize, usize),
}

/// Encodes and decodes values into bytes.
pub trait Serializer {
    type Value;

    /// The extension of the file holding a serialized value.
    fn extension(&self) -> &'static str;

    /// Decodes a value from bytes; failures are reported as `None`.
    fn from_data(&self, data: &Vec<u8>) -> Option<Self::Value>;

    /// Encodes the value into bytes.
    fn to_data(&self, value: &Self::Value) -> Vec<u8>;
}

/// Converts between a mutator's inner value type and the value type shown
/// to the outside.
pub trait MutatorValueConverter {
    type InnerValue: DeepView;

    type Value: DeepView;

    /// The conversion from inner values, at the level of views.
    spec fn from_inner_spec(&self, inner: <Self::InnerValue as DeepView>::V) -> <Self::Value as DeepView>::V;

    /// The conversion to inner values, at the level of views.
    spec fn to_inner_spec(&self, value: <Self::Value as DeepView>::V) -> <Self::InnerValue as DeepView>::V;

    /// A value accepted by the converter round-trips through the inner
    /// representation.
    spec fn converter_accepts(&self, value: <Self::Value as DeepView>::V) -> bool;

    proof fn lemma_round_trip(&self, value: <Self::Value as DeepView>::V)
        requires
            self.converter_accepts(value),
        ensures
            self.from_inner_spec(self.to_inner_spec(value)) == value,
    ;

    /// A converted inner value is accepted and converts back to itself.
    proof fn lemma_inner_round_trip(&self, inner: <Self::InnerValue as DeepView>::V)
        ensures
            self.converter_accepts(self.from_inner_spec(inner)),
            self.to_inner_spec(self.from_inner_spec(inner)) == inner,
    ;

    fn from_inner_value_ref(&self, inner_value: &Self::InnerValue) -> (r: Self::Value)
        ensures
            r.deep_view() == self.from_inner_spec(inner_value.deep_view()),
    ;

    fn to_inner_value_ref(&self, value: &Self::Value) -> (r: Self::InnerValue)
        requires
            self.converter_accepts(value.deep_view()),
        ensures
            r.deep_view() == self.to_inner_spec(value.deep_view()),
    ;

    /// Converts to the inner value where the value is in the converter's
    /// domain, and reports the values outside it.
    fn try_to_inner(&self, value: &Self::Value) -> (r: Option<Self::InnerValue>)
        ensures
            (match r {
                Option::Some(f) => self.converter_accepts(value.deep_view()) && f.deep_view()
                    == self.to_inner_spec(value.deep_view()),
                Option::None => !self.converter_accepts(value.deep_view()),
            }),
    ;
}

/// One field of a CSV record: an integer or a string.
#[derive(Clone, Debug, PartialEq, Eq)]
pub enum CSVField {
    Integer(i64),
    String(String),
}

/// The decimal digits of a number, as bytes.
pub open spec fn dec_digits(n: nat) -> Seq<u8>
    decreases n,
{
    if n < 10 {
        seq![(48 + n) as u8]
    } else {
        dec_digits(n / 10).push((48 + n % 10) as u8)
    }
}

/// One character as a CSV byte: ASCII verbatim, anything else a question
/// mark.
pub open spec fn ascii_byte(c: char) -> u8 {
    if (c as u32) < 128 {
        c as u8
    } else {
        63u8
    }
}

/// The bytes of one CSV field: a signed decimal for an integer, and the
/// text between double quotes for a string, ASCII characters verbatim and
/// every other character as a question mark.
pub open spec fn csv_field_bytes(f: CSVField) -> Seq<u8> {
    match f {
        CSVField::Integer(n) => if n >= 0 {
            dec_digits(n as nat)
        } else {
            seq![45u8] + dec_digits((-(n as int)) as nat)
        },
        CSVField::String(s) => seq![34u8] + s@.map_values(
            |c: char| ascii_byte(c)) + seq![34u8],
    }
}

/// The bytes of a whole CSV record: each field followed by a comma, then a
/// newline.
pub open spec fn csv_record_bytes(fields: Seq<CSVField>) -> Seq<u8>
    decreases fields.len(),
{
    if fields.len() == 0 {
        seq![10u8]
    } else {
        csv_field_bytes(fields[0]) + seq![44u8] + csv_record_bytes(fields.drop_first())
    }
}

/// Appends the decimal digits of `n` to `out`.
fn push_dec(out: &mut Vec<u8>, n: u64)
    ensures
        final(out)@ == old(out)@ + dec_digits(n as nat),
    decreases n,
{
    if n >= 10 {
        push_dec(out, n / 10);
        out.push((48 + (n % 10) as u8) as u8);
        proof {
            assert(final(out)@ =~= old(out)@ + dec_digits(n as nat));
        }
    } else {
        out.push((48 + n) as u8);
        proof {
            assert(final(out)@ =~= old(out)@ + dec_digits(n as nat));
        }
    }
}

impl CSVField {
    /// Serializes the fields as one CSV record: each field followed by a
    /// comma, then a newline.
    pub fn to_bytes(fields: &Vec<CSVField>) -> (r: Vec<u8>)
        ensures
            r@ == csv_record_bytes(fields@),
    {
        let mut bytes: Vec<u8> = Vec::new();
        let n = fields.len();
        let mut i: usize = 0;
        proof {
            assert(fields@.skip(0) =~= fields@);
            assert(bytes@ + csv_record_bytes(fields@) =~= csv_record_bytes(fields@));
        }
        while i < n
            invariant
                n == fields@.len(),
                0 <= i <= n,
                bytes@ + csv_record_bytes(fields@.skip(i as int)) == csv_record_bytes(fields@),
            decreases n - i,
        {
            proof {
                assert(fields@.skip(i as int)[0] == fields@[i as int]);
                assert(fields@.skip(i as int).drop_first() =~= fields@.skip(i + 1));
            }
            match &fields[i] {
                CSVField::Integer(n_ref) => {
                    let v: i64 = *n_ref;
                    if v >= 0 {
                        push_dec(&mut bytes, v as u64);
                    } else {
                        bytes.push(45);
                        let mag: u64 = if v == i64::MIN {
                            9223372036854775808u64
                        } else {
                            (-v) as u64
                        };
                        push_dec(&mut bytes, mag);
                    }
                },
                CSVField::String(st) => {
                    bytes.push(34);
                    let ghost b0 = bytes@;
                    let ghost sv = st@;
                    let cn = st.as_str().unicode_len();
                    let mut j: usize = 0;
                    while j < cn
                        invariant
                            cn == sv.len(),
                            sv == st@,
                            0 <= j <= cn,
                            bytes@ == b0 + sv.take(j as int).map_values(
                                |c: char| ascii_byte(c)),
                        decreases cn - j,
                    {
                        let c = st.as_str().get_char(j);
                        let b: u8 = if (c as u32) < 128 {
                            c as u8
                        } else {
                            63
                        };
                        bytes.push(b);
                        proof {
                            assert(bytes@ =~= b0 + sv.take(j + 1).map_values(
                                |c: char| ascii_byte(c)));
                        }
                        j = j + 1;
                    }
                    proof {
                        assert(sv.take(cn as int) =~= sv);
                        assert(sv.map_values(
                            |c: char| ascii_byte(c)) =~= sv.take(cn as int).map_values(
                            |c: char| ascii_byte(c)));
                    }
                    bytes.push(34);
                },
            }
            bytes.push(44);
            proof {
                assert(bytes@ + csv_record_bytes(fields@.skip(i + 1)) =~= csv_record_bytes(
                    fields@,
                ));
            }
            i = i + 1;
        }
        proof {
            assert(fields@.skip(n as int) =~= Seq::<CSVField>::empty());
        }
        bytes.push(10);
        proof {
            assert(bytes@ =~= csv_record_bytes(fields@));
        }
        bytes
    }
}

/// A change in a pool's content, to be mirrored to the corpus on the file
/// system.
#[derive(Clone, Debug, PartialEq, Eq)]
pub struct CorpusDelta {
    /// The subfolder of the corpus where the affected test cases reside.
    pub path: String,
    /// Whether the test case at hand was added to the pool.
    pub add: bool,
    /// The test cases that were removed.
    pub remove: Vec<PoolStorageIndex>,
}

/// How many additions a list of deltas reports.
pub open spec fn count_adds(deltas: Seq<CorpusDelta>) -> int
    decreases deltas.len(),
{
    if deltas.len() == 0 {
        0
    } else {
        count_adds(deltas.drop_last()) + if deltas.last().add {
            1int
        } else {
            0int
        }
    }
}

/// How many removals a list of deltas reports.
pub open spec fn count_removes(deltas: Seq<CorpusDelta>) -> int
    decreases deltas.len(),
{
    if deltas.len() == 0 {
        0
    } else {
        count_removes(deltas.drop_last()) + deltas.last().remove@.len()
    }
}

impl CorpusDelta {
    /// Summarizes a list of deltas as one fuzzer event: no change when
    /// nothing was added or removed, otherwise the two counts.
    pub fn fuzzer_event(deltas: &Vec<CorpusDelta>) -> (r: FuzzerEvent)
        requires
            count_adds(deltas@) <= usize::MAX,
            count_removes(deltas@) <= usize::MAX,
        ensures
            (count_adds(deltas@) == 0 && count_removes(deltas@) == 0) ==> r == FuzzerEvent::NoChange,
            !(count_adds(deltas@) == 0 && count_removes(deltas@) == 0) ==> r == (FuzzerEvent::Replace(
                count_adds(deltas@) as usize,
                count_removes(deltas@) as usize,
            )),
    {
        let mut add: usize = 0;
        let mut remove: usize = 0;
        let n = deltas.len();
        let mut i: usize = 0;
        while i < n
            invariant
                n == deltas@.len(),
                0 <= i <= n,
                add == count_adds(deltas@.take(i as int)),
                remove == count_removes(deltas@.take(i as int)),
                count_adds(deltas@) <= usize::MAX,
                count_removes(deltas@) <= usize::MAX,
            decreases n - i,
        {
            proof {
                assert(deltas@.take(i + 1).drop_last() =~= deltas@.take(i as int));
                assert(deltas@.take(i + 1).last() == deltas@[i as int]);
                lemma_count_adds_prefix(deltas@, i + 1);
                lemma_count_removes_prefix(deltas@, i + 1);
                lemma_count_adds_nonneg(deltas@.take(i as int));
                lemma_count_removes_nonneg(deltas@.take(i as int));
            }
            if deltas[i].add {
                add = add + 1;
            }
            remove = remove + deltas[i].remove.len();
            i = i + 1;
        }
        proof {
            assert(deltas@.take(n as int) =~= deltas@);
        }
        if add == 0 && remove == 0 {
            FuzzerEvent::NoChange
        } else {
            FuzzerEvent::Replace(add, remove)
        }
    }
}

/// Counts over a prefix never exceed counts over the whole.
proof fn lemma_count_adds_prefix(deltas: Seq<CorpusDelta>, k: int)
    requires
        0 <= k <= deltas.len(),
    ensures
        count_adds(deltas.take(k)) <= count_adds(deltas),
    decreases deltas.len(),
{
    if k == deltas.len() {
        assert(deltas.take(k) =~= deltas);
    } else if deltas.len() > 0 {
        assert(deltas.take(k) =~= deltas.drop_last().take(k));
        lemma_count_adds_prefix(deltas.drop_last(), k);
    }
}

proof fn lemma_count_removes_prefix(deltas: Seq<CorpusDelta>, k: int)
    requires
        0 <= k <= deltas.len(),
    ensures
        count_removes(deltas.take(k)) <= count_removes(deltas),
    decreases deltas.len(),
{
    if k == deltas.len() {
        assert(deltas.take(k) =~= deltas);
    } else if deltas.len() > 0 {
        assert(deltas.take(k) =~= deltas.drop_last().take(k));
        lemma_count_removes_prefix(deltas.drop_last(), k);
    }
}

proof fn lemma_count_adds_nonneg(deltas: Seq<CorpusDelta>)
    ensures
        count_adds(deltas) >= 0,
    decreases deltas.len(),
{
    if deltas.len() > 0 {
        lemma_count_adds_nonneg(deltas.drop_last());
    }
}

proof fn lemma_count_removes_nonneg(deltas: Seq<CorpusDelta>)
    ensures
        count_removes(deltas) >= 0,
    decreases deltas.len(),
{
    if deltas.len() > 0 {
        lemma_count_removes_nonneg(deltas.drop_last());
    }
}

/// Records information while the test function runs; a pool then judges
/// the recorded observations.
pub trait Sensor: Sized {
    type Observations;

    /// Prepare to record observations.
    fn start_recording(&mut self);

    /// Stop recording observations.
    fn stop_recording(&mut self);

    /// Hand out the recorded observations.
    fn get_observations(&mut self) -> Self::Observations;
}

/// Serialization of statistics as rows of a CSV file.
pub trait ToCSV {
    /// The headers of the CSV file.
    fn csv_headers(&self) -> Vec<CSVField>;

    /// One CSV record, shaped like the headers.
    fn to_csv_record(&self) -> Vec<CSVField>;
}

/// Statistics a pool reports for display and logging.
pub trait Stats: ToCSV + Sized {

}

/// Saves content to the statistics folder written after a fuzzing run:
/// a list of relative file paths with the bytes to write there.
pub trait SaveToStatsFolder {
    fn save_to_stats_folder(&self) -> Vec<(String, Vec<u8>)>;
}

/// The scale in which pool weights are counted: a configured weight of one
/// is this many units.
pub const WEIGHT_SCALE: u64 = 65536;

/// Ranks test cases based on the observations a sensor records.
pub trait Pool: SaveToStatsFolder + Sized {
    type Stats: Stats;

    /// The pool's statistics.
    fn stats(&self) -> Self::Stats;

    /// The index of a test case to mutate next, if the pool holds any.
    fn get_random_index(&mut self) -> Option<PoolStorageIndex>;

    /// The relative importance of the pool, in units of
    /// [`WEIGHT_SCALE`].
    spec fn weight_spec(&self) -> u64;

    fn weight(&self) -> (r: u64)
        ensures
            r == self.weight_spec(),
    ;
}

/// How a pool handles the observations of a specific sensor: judging
/// whether they are interesting and adding the test case if they are. The
/// returned deltas tell the world layer which test cases to persist or
/// unpersist.
pub trait CompatibleWithObservations<O>: Pool {
    fn process(&mut self, input_id: PoolStorageIndex, observations: &O, complexity: u64) -> Vec<
        CorpusDelta,
    >;
}


/// A type that is a basic wrapper over a mutator and exposes the wrapped
/// one.
pub trait MutatorWrapper {
    type Wrapped;

    /// The mutator this type wraps.
    fn wrapped_mutator(&self) -> &Self::Wrapped;
}

} // verus!
