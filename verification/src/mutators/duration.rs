//! A mutator for durations, derived from the 64-bit integer mutator by a
//! projection: the duration's whole seconds are the mutated value.

use vstd::prelude::*;

use crate::mutators::integer::U64Mutator;
use crate::mutators::map::{MapMutator, Projection};
use crate::traits::Mutator;

verus! {

/// A span of time: whole seconds and a nanosecond remainder below one
/// second.
#[derive(Clone, Copy, Debug, PartialEq, Eq, Structural)]
pub struct Duration {
    pub secs: u64,
    pub nanos: u32,
}

impl DeepView for Duration {
    type V = Duration;

    open spec fn deep_view(&self) -> Duration {
        *self
    }
}

impl Duration {
    /// A duration of whole seconds.
    pub fn from_secs(secs: u64) -> (r: Duration)
        ensures
            r.secs == secs,
            r.nanos == 0,
    {
        Duration { secs, nanos: 0 }
    }

    /// The whole seconds of the duration.
    pub fn as_secs(&self) -> (r: u64)
        ensures
            r == self.secs,
    {
        self.secs
    }
}

/// The seconds of a whole-second duration; durations with a nanosecond
/// remainder are outside the projection's domain.
pub fn u64_from_duration(d: &Duration) -> (r: Option<u64>)
    ensures
        d.nanos == 0 ==> r == Some(d.secs),
        d.nanos != 0 ==> r is None,
{
    if d.nanos == 0 {
        Some(d.secs)
    } else {
        None
    }
}

/// The whole-second duration of a seconds count.
pub fn duration_from_u64(u: &u64) -> (r: Duration)
    ensures
        r.secs == u,
        r.nanos == 0,
{
    Duration { secs: *u, nanos: 0 }
}

/// The projection between seconds counts and whole-second durations.
pub struct DurationProjection {}

impl Projection for DurationProjection {
    type Inner = u64;

    type Outer = Duration;

    open spec fn p_wf(&self) -> bool {
        true
    }

    open spec fn parse_spec(&self, t: Duration) -> Option<u64> {
        if t.nanos == 0 {
            Some(t.secs)
        } else {
            None
        }
    }

    open spec fn map_spec(&self, f: u64) -> Duration {
        Duration { secs: f, nanos: 0 }
    }

    proof fn lemma_parse_sound(&self, t: Duration) {
    }

    proof fn lemma_map_parses(&self, f: u64) {
    }

    fn parse(&self, t: &Duration) -> (r: Option<u64>) {
        u64_from_duration(t)
    }

    fn map(&self, f: &u64) -> (r: Duration) {
        duration_from_u64(f)
    }
}

/// The mutator for whole-second durations.
pub type DurationMutator = MapMutator<DurationProjection, U64Mutator>;

/// Builds the duration mutator over the 64-bit integer mutator.
pub fn new_duration_mutator() -> (r: DurationMutator)
    ensures
        r.m_wf(),
{
    MapMutator::new(U64Mutator::new(), DurationProjection {})
}

} // verus!
