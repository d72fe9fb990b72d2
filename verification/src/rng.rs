//! The one place where the simulation draws randomness: enemy attack
//! cooldowns and the scatter applied to explosion effects.

use vstd::prelude::*;

verus! {

/// Relies on rand::random_range: a uniform sample from the half-open
/// range `lo..hi`, which panics only when the range is empty.
#[verifier::external_body]
pub(crate) fn sample_range_i32(lo: i32, hi: i32) -> (r: i32)
    requires
        lo < hi,
    ensures
        lo <= r < hi,
{
    rand::random_range(lo..hi)
}

} // verus!
