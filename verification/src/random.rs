//! The source of chance.

use vstd::prelude::*;

verus! {

/// Draws a number from the generator that `fastrand` keeps for the running
/// thread, by `fastrand::usize` on the range `..bound`.
///
/// Taken on trust: the number lies below `bound`. Which one comes is left
/// open, and two draws may differ. `fastrand::usize` panics on an empty range,
/// so `bound` must not be zero.
#[verifier::external_body]
pub(crate) fn random_below(bound: usize) -> (r: usize)
    requires
        bound > 0,
    ensures
        r < bound,
{
    fastrand::usize(..bound)
}

} // verus!
