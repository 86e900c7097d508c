//! The range sensor: what it reads, and how well a particle explains a reading.
//!
//! A reading is the distance between observer and target with noise added.
//! A particle is scored by how many standard deviations lie between the
//! reading and the particle's own distance to the observer. The likelihood
//! that maps this score to a weight, and the source of the noise, are handed
//! in by the caller.

use crate::geometry::{distance, distance_spec, Point};
use vstd::prelude::*;

verus! {

/// The fixed-point value that stands for a score of one standard deviation.
pub const SCORE_UNIT: u64 = 1_000_000;

/// How far the reading `measurement` lies from the distance `range`.
pub open spec fn deviation(range: nat, measurement: i64) -> nat {
    if range >= measurement {
        (range - measurement) as nat
    } else {
        (measurement - range) as nat
    }
}

/// The deviation `dev` in standard deviations, in steps of `1 / SCORE_UNIT`,
/// rounded down and held to the range of `u64`.
pub open spec fn score_of(dev: nat, stddev: u32) -> u64 {
    if dev * SCORE_UNIT as nat / (stddev as nat) > u64::MAX {
        u64::MAX
    } else {
        (dev * SCORE_UNIT as nat / (stddev as nat)) as u64
    }
}

/// The score of `particle` against the reading `measurement` taken at
/// `drone`: the distance between the reading and the particle's own range, in
/// standard deviations.
pub open spec fn z_score_spec(drone: Point, particle: Point, measurement: i64, stddev: u32) -> u64 {
    score_of(deviation(distance_spec(drone, particle), measurement), stddev)
}

/// `likelihood` gives no greater weight to a greater score.
pub open spec fn non_increasing<L: Fn(u64) -> u64>(likelihood: &L) -> bool {
    forall|z1: u64, z2: u64, w1: u64, w2: u64|
        z1 <= z2 && #[trigger] likelihood.ensures((z1,), w1) && #[trigger] likelihood.ensures(
            (z2,),
            w2,
        ) ==> w1 >= w2
}

/// A greater deviation never scores less.
pub proof fn lemma_score_monotone(dev1: nat, dev2: nat, stddev: u32)
    requires
        stddev > 0,
        dev1 <= dev2,
    ensures
        score_of(dev1, stddev) <= score_of(dev2, stddev),
        score_of(0, stddev) == 0,
{
    let s = stddev as int;
    let a = dev1 as int * SCORE_UNIT as int;
    let b = dev2 as int * SCORE_UNIT as int;
    assert(a <= b) by (nonlinear_arith)
        requires
            a == dev1 as int * SCORE_UNIT as int,
            b == dev2 as int * SCORE_UNIT as int,
            dev1 <= dev2,
    ;
    vstd::arithmetic::div_mod::lemma_div_is_ordered(a, b, s);
    vstd::arithmetic::div_mod::lemma_div_pos_is_pos(a, s);
    assert(0nat * SCORE_UNIT as nat / (stddev as nat) == 0) by {
        assert(0nat * SCORE_UNIT as nat == 0);
        vstd::arithmetic::div_mod::lemma_div_basics(s);
    }
}

/// The score of `particle` against the reading `measurement` taken at `drone`.
pub fn z_score(drone: Point, particle: Point, measurement: i64, stddev: u32) -> (z: u64)
    requires
        stddev > 0,
    ensures
        z == z_score_spec(drone, particle, measurement, stddev),
{
    let range: i128 = distance(drone, particle) as i128;
    let reading: i128 = measurement as i128;
    let dev: u128 = if range >= reading {
        (range - reading) as u128
    } else {
        (reading - range) as u128
    };
    assert(dev * SCORE_UNIT <= 0x1_0000_0000_0000_0000 * SCORE_UNIT) by (nonlinear_arith)
        requires
            dev <= 0x1_0000_0000_0000_0000,
    ;
    let scaled: u128 = dev * (SCORE_UNIT as u128) / (stddev as u128);
    if scaled > u64::MAX as u128 {
        u64::MAX
    } else {
        scaled as u64
    }
}

/// The weight of `particle` for the reading `measurement` taken at `drone`:
/// what `likelihood` makes of the particle's score.
pub fn weighting<L>(
    drone: Point,
    particle: Point,
    measurement: i64,
    stddev: u32,
    likelihood: &L,
) -> (weight: u64) where L: Fn(u64) -> u64
    requires
        stddev > 0,
        likelihood.requires((z_score_spec(drone, particle, measurement, stddev),)),
    ensures
        likelihood.ensures((z_score_spec(drone, particle, measurement, stddev),), weight),
{
    let z: u64 = z_score(drone, particle, measurement, stddev);
    likelihood(z)
}

/// The reading of a sensor at `drone` for a target at `animal`, where the
/// noise of this reading is `noise`.
pub fn noisy_range(drone: Point, animal: Point, noise: i32) -> (measurement: i64)
    ensures
        measurement == distance_spec(drone, animal) + noise,
{
    distance(drone, animal) as i64 + noise as i64
}

/// One reading of a sensor at `drone` for a target at `animal`: the distance
/// between them, and added to it one draw of `gaussian`, which is asked for
/// noise of the standard deviation `stddev`.
pub fn generate_measurement<G>(drone: Point, animal: Point, stddev: u32, gaussian: &G) -> (measurement:
    i64) where G: Fn(u32) -> i32
    requires
        gaussian.requires((stddev,)),
    ensures
        exists|noise: i32| #[trigger]
            gaussian.ensures((stddev,), noise) && measurement == distance_spec(drone, animal)
                + noise,
{
    let noise: i32 = gaussian(stddev);
    noisy_range(drone, animal, noise)
}

/// Under a likelihood that gives no greater weight to a greater score, a
/// particle whose range lies nearer to the reading never weighs less.
pub proof fn lemma_nearer_range_weighs_more<L: Fn(u64) -> u64>(
    likelihood: &L,
    drone: Point,
    nearer: Point,
    farther: Point,
    measurement: i64,
    stddev: u32,
    weight_nearer: u64,
    weight_farther: u64,
)
    requires
        stddev > 0,
        non_increasing(likelihood),
        deviation(distance_spec(drone, nearer), measurement) <= deviation(
            distance_spec(drone, farther),
            measurement,
        ),
        likelihood.ensures((z_score_spec(drone, nearer, measurement, stddev),), weight_nearer),
        likelihood.ensures((z_score_spec(drone, farther, measurement, stddev),), weight_farther),
    ensures
        weight_nearer >= weight_farther,
{
    lemma_score_monotone(
        deviation(distance_spec(drone, nearer), measurement),
        deviation(distance_spec(drone, farther), measurement),
        stddev,
    );
}

/// Under a likelihood that gives no greater weight to a greater score, no
/// particle weighs more than one whose range equals the reading; the score of
/// such a particle is zero.
pub proof fn lemma_weight_peaks_at_measurement<L: Fn(u64) -> u64>(
    likelihood: &L,
    drone: Point,
    exact: Point,
    other: Point,
    measurement: i64,
    stddev: u32,
    weight_exact: u64,
    weight_other: u64,
)
    requires
        stddev > 0,
        non_increasing(likelihood),
        distance_spec(drone, exact) == measurement,
        likelihood.ensures((z_score_spec(drone, exact, measurement, stddev),), weight_exact),
        likelihood.ensures((z_score_spec(drone, other, measurement, stddev),), weight_other),
    ensures
        z_score_spec(drone, exact, measurement, stddev) == 0,
        weight_exact >= weight_other,
{
    lemma_score_monotone(0, deviation(distance_spec(drone, other), measurement), stddev);
    lemma_nearer_range_weighs_more(
        likelihood,
        drone,
        exact,
        other,
        measurement,
        stddev,
        weight_exact,
        weight_other,
    );
}

} // verus!
