//! The crate's only source of randomness: thin wrappers around `rand`.
//!
//! Every randomized routine in the library first gathers plain integer
//! draws through these wrappers and then hands them to a fully verified
//! function, so the logic is checked for every possible outcome of a draw.

use vstd::prelude::*;

verus! {

/// Relies on `rand::Rng::gen::<u32>` on the thread-local generator: a
/// uniform random 32-bit value. Nothing can be promised of the value
/// itself.
#[verifier::external_body]
pub(crate) fn random_u32() -> u32 {
    rand::Rng::gen::<u32>(&mut rand::thread_rng())
}

/// Relies on `rand::Rng::gen_range` on the thread-local generator: a
/// uniform draw from `0..bound`, which lies below `bound` and panics only
/// on an empty range (excluded by the precondition).
#[verifier::external_body]
pub(crate) fn random_below(bound: usize) -> (r: usize)
    requires
        bound >= 1,
    ensures
        r < bound,
{
    rand::Rng::gen_range(&mut rand::thread_rng(), 0..bound)
}

} // verus!
