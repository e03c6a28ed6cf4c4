//! Uniform random draws, taken from the `rand` crate.
//!
//! The resampling engine consumes one uniform draw per acceptance decision.
//! Nothing is assumed about the value of a draw beyond its range: every
//! contract downstream states what holds for any draw.

use vstd::prelude::*;

verus! {

/// The thread-local generator of the `rand` crate, used for every draw.
#[verifier::external_type_specification]
#[verifier::external_body]
pub struct ExThreadRng(rand::rngs::ThreadRng);

/// Relies on rand::RngExt::random_range over `0..n`: a draw in `[0, n)`,
/// uniform for a well-seeded generator.  The range is non-empty, so the call
/// does not panic.
#[verifier::external_body]
pub(crate) fn draw_below(rng: &mut rand::rngs::ThreadRng, n: u64) -> (r: u64)
    requires
        n > 0,
    ensures
        r < n,
{
    rand::RngExt::random_range(rng, 0..n)
}

} // verus!
