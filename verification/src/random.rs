//! The one place where the library asks for a random number.

use rand::distributions::{Distribution, Uniform};
use vstd::prelude::*;

verus! {

/// One draw from `rand`'s `Uniform::new(low, high)`, sampled with the
/// generator of the calling thread.
///
/// Not proved: that the draw lies in `[low, high)`. `rand` promises it for
/// the primitive integers, and panics where `low >= high`, which `requires`
/// leaves out. Nothing is said of which value of the range comes back. The
/// generator is seeded by the system when a thread first asks for it, and
/// `rand` panics where the system has no seed to give.
#[verifier::external_body]
pub(crate) fn uniform_between(low: i64, high: i64) -> (draw: i64)
    requires
        low < high,
    ensures
        low <= draw < high,
{
    Uniform::new(low, high).sample(&mut rand::thread_rng())
}

} // verus!
