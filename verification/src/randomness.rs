//! Random draws, made with the thread-local generator of `rand`.
use vstd::prelude::*;
use rand::Rng;

verus! {

/// The thread-local random number generator of `rand`, opaque to verification.
#[verifier::external_type_specification]
#[verifier::external_body]
pub struct ExThreadRng(rand::rngs::ThreadRng);

/// Calls `rand::Rng::gen_range` with the inclusive range `low..=high`, which
/// panics on an empty range and otherwise returns a value inside the range.
/// Which value comes out is left unsaid: it rests on chance.
#[verifier::external_body]
pub(crate) fn gen_range_inclusive(rng: &mut rand::rngs::ThreadRng, low: u64, high: u64) -> (r: u64)
    requires
        low <= high,
    ensures
        low <= r <= high,
{
    rng.gen_range(low..=high)
}

/// Calls `rand::Rng::gen::<u64>`; any `u64` may come out, so nothing is stated.
#[verifier::external_body]
pub(crate) fn gen_u64(rng: &mut rand::rngs::ThreadRng) -> u64 {
    rng.gen::<u64>()
}

/// Calls `rand::Rng::gen::<u8>`; any `u8` may come out, so nothing is stated.
#[verifier::external_body]
pub(crate) fn gen_u8(rng: &mut rand::rngs::ThreadRng) -> u8 {
    rng.gen::<u8>()
}

} // verus!
