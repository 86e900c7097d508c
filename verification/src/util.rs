//! One update of a bare particle set from the positions of observer and target.

use crate::filter::{assimilated, Filter, Resampling, UpdateStatus};
use crate::geometry::{distance_spec, Point};
use crate::measurement::generate_measurement;
use vstd::prelude::*;

verus! {

/// The standard deviation of the noise that `update_filter` moves every
/// particle by: half a unit of length.
pub const STEP_NOISE: u32 = 500_000;

/// Takes one reading of the range between `drone` and `animal`, with noise of
/// the standard deviation `stddev`, and updates `filter` from it, drawing by
/// weight. Every particle is moved by noise of the standard deviation
/// `STEP_NOISE`.
pub fn update_filter<L, G>(
    filter: &mut Filter<Point>,
    drone: Point,
    animal: Point,
    stddev: u32,
    likelihood: &L,
    gaussian: &G,
) -> (status: UpdateStatus) where L: Fn(u64) -> u64, G: Fn(u32) -> i32
    requires
        stddev > 0,
        forall|z: u64| likelihood.requires((z,)),
        gaussian.requires((stddev,)),
        gaussian.requires((STEP_NOISE,)),
    ensures
        exists|noise: i32| #[trigger]
            gaussian.ensures((stddev,), noise) && assimilated(
                old(filter)@,
                final(filter)@,
                status,
                drone,
                (distance_spec(drone, animal) + noise) as i64,
                stddev,
                STEP_NOISE,
                Resampling::Weighted,
                likelihood,
                gaussian,
            ),
{
    let measurement = generate_measurement(drone, animal, stddev, gaussian);
    filter.assimilate(
        drone,
        measurement,
        stddev,
        STEP_NOISE,
        Resampling::Weighted,
        likelihood,
        gaussian,
    )
}

} // verus!
