//! Trusted boundary to the system random number generator. Everything the
//! simulation decides from a draw is done by verified code that takes the
//! drawn value as an argument.

use vstd::prelude::*;

verus! {

/// rand's thread-local generator, declared so a handle to it can cross
/// this library's signatures; its internals stay opaque.
#[verifier::external_type_specification]
#[verifier::external_body]
pub struct ExThreadRng(rand::rngs::ThreadRng);

/// Relies on rand::thread_rng: hands back the calling thread's generator.
/// Nothing is assumed about its state.
#[verifier::external_body]
pub(crate) fn new_rng() -> rand::rngs::ThreadRng {
    rand::thread_rng()
}

/// Relies on rand::Rng::gen_range over a half-open integer range: the
/// sample is uniform in `[lo, hi)`, so in particular it lies in that
/// range. The call panics only on an empty range, which the precondition
/// rules out.
#[verifier::external_body]
pub(crate) fn sample_range(rng: &mut rand::rngs::ThreadRng, lo: i32, hi: i32) -> (r: i32)
    requires
        lo < hi,
    ensures
        lo <= r < hi,
{
    rand::Rng::gen_range(rng, lo..hi)
}

} // verus!
