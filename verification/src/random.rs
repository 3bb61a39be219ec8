//! The process-level random source, as far as the engine draws from it.
//!
//! The contracts in this file are not proved: they restate what the `rand`
//! crate documents of the functions that the bodies call.

use vstd::prelude::*;

verus! {

/// The handle to the random generator of the calling thread. Its state is
/// hidden: nothing can be said of the values that it will give.
#[verifier::external_type_specification]
#[verifier::external_body]
pub struct ExThreadRng(rand::rngs::ThreadRng);

/// Calls `rand::rng`, which hands out a handle to the lazily seeded
/// generator of the calling thread. Nothing is claimed of the handle. The
/// call fails only where the operating system has no entropy to seed the
/// generator with.
#[verifier::external_body]
pub(crate) fn thread_rng() -> (rng: rand::rngs::ThreadRng) {
    rand::rng()
}

/// Calls `rand::Rng::random_range` with the range `0..bound`. That function
/// panics on an empty range, so `bound` must be positive; the value that it
/// returns lies in the range. Which value comes is left open.
#[verifier::external_body]
pub(crate) fn random_below(rng: &mut rand::rngs::ThreadRng, bound: u64) -> (r: u64)
    requires
        bound > 0,
    ensures
        r < bound,
{
    rand::Rng::random_range(rng, 0..bound)
}

/// Calls `rand::Rng::random` for one byte, which may be any of the 256
/// values.
#[verifier::external_body]
pub(crate) fn random_byte(rng: &mut rand::rngs::ThreadRng) -> (b: u8) {
    rand::Rng::random(rng)
}

} // verus!
