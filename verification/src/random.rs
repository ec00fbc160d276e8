//! Chance. The one place where the engine asks for a random number.

use vstd::prelude::*;

verus! {

/// Calls `nannou::rand::random_range` on two `i32` bounds. That function
/// puts the bounds in order and draws from the thread's generator a number
/// that is at least the lower bound and below the upper one; it panics
/// where the two are equal, which the precondition rules out. Nothing is
/// claimed about which number of the range comes back.
#[verifier::external_body]
pub(crate) fn random_between(min: i32, max: i32) -> (r: i32)
    requires
        min != max,
    ensures
        min < max ==> min <= r < max,
        max < min ==> max <= r < min,
{
    nannou::rand::random_range(min, max)
}

} // verus!
