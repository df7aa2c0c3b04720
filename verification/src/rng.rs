//! Randomness for the spawn controller, drawn from the `rand` crate behind
//! one trusted wrapper.  No seeding is promised: callers take the draw as
//! an arbitrary value and are verified for every outcome.

use vstd::prelude::*;

verus! {

/// Relies on `rand::random`: a fresh draw of a uniformly distributed
/// `u64`.  Nothing is promised of the value; verified callers reduce it to
/// the range they need and hold for every outcome.
#[verifier::external_body]
pub(crate) fn random_u64() -> u64 {
    rand::random::<u64>()
}

/// A random fixed-point scalar in `[0, UNIT)`, the unit draw that spawn
/// positions and directions are built from.
pub fn uniform_scalar() -> (r: i64)
    ensures
        0 <= r < 1000,
{
    let d: u64 = random_u64();
    (d % 1000) as i64
}

} // verus!
