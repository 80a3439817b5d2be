//! Randomness for the mutators and pools, drawn from the `fastrand`
//! generator behind trusted wrappers. Nothing is assumed of the drawn
//! numbers beyond their range.

use vstd::prelude::*;

verus! {

#[verifier::external_type_specification]
#[verifier::external_body]
pub struct ExRng(fastrand::Rng);

/// Relies on fastrand::Rng::new: builds a generator seeded from the
/// thread-local one.
#[verifier::external_body]
pub fn rng_new() -> fastrand::Rng {
    fastrand::Rng::new()
}

/// Relies on fastrand::Rng::usize: a draw from `lo..hi` lies in `lo..hi`.
#[verifier::external_body]
pub fn rng_usize(rng: &fastrand::Rng, lo: usize, hi: usize) -> (r: usize)
    requires
        lo < hi,
    ensures
        lo <= r < hi,
{
    rng.usize(lo..hi)
}

/// Relies on fastrand::Rng::u64: a full-range draw.
#[verifier::external_body]
pub fn rng_u64(rng: &fastrand::Rng) -> u64 {
    rng.u64(..)
}

/// Relies on fastrand::u64: a full-range draw from the thread-local
/// generator.
#[verifier::external_body]
pub fn random_u64() -> u64 {
    fastrand::u64(..)
}

} // verus!
