//! Randomness for initial particle placement and attraction-matrix
//! regeneration, supplied by the `rand` crate behind trusted wrappers.
//!
//! Nothing is assumed of a drawn value beyond its range: every
//! consumer of a random number is verified for all values in that
//! range.

use vstd::prelude::*;

verus! {

/// `rand::rngs::ThreadRng`, the thread-local generator handle.  Opaque
/// to the verifier; values of it are only created and consumed by the
/// wrappers below.
#[verifier::external_type_specification]
#[verifier::external_body]
pub struct ExThreadRng(rand::rngs::ThreadRng);

/// Relies on `rand::thread_rng`: returns a handle to the lazily
/// initialized thread-local generator.  Nothing is promised of it.
#[verifier::external_body]
pub(crate) fn fresh_rng() -> rand::rngs::ThreadRng {
    rand::thread_rng()
}

/// Relies on `rand::Rng::gen_range`: samples uniformly from the given
/// range and panics only when the range is empty, which the
/// precondition rules out.  Only the range of the result is assumed;
/// which value comes back is not.
#[verifier::external_body]
pub(crate) fn rng_range_i64(rng: &mut rand::rngs::ThreadRng, lo: i64, hi: i64) -> (r: i64)
    requires
        lo <= hi,
    ensures
        lo <= r <= hi,
{
    rand::Rng::gen_range(rng, lo..=hi)
}

/// Draw one integer uniformly from the closed interval `[lo, hi]`.
pub fn rand_in(lo: i64, hi: i64) -> (r: i64)
    requires
        lo <= hi,
    ensures
        lo <= r <= hi,
{
    let mut rng = fresh_rng();
    rng_range_i64(&mut rng, lo, hi)
}

} // verus!
