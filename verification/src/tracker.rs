//! The tracker of one target: a particle set and the estimate it stands for.

use crate::filter::{
    advanced, assimilated, in_box, mean, policy_fits, sampling_weights, status_of, Filter,
    Resampling, UpdateStatus,
};
use crate::geometry::Point;
use crate::sampling::cumulative;
use crate::state::config::ConfigError;
use std::ops::Range;
use vstd::prelude::*;

verus! {

/// The fixed-point value that stands for one second of elapsed time.
pub const TIME_UNIT: u32 = 1_000_000;

/// The standard deviation of the noise that moves the particles in an update
/// after the time `time`: `noise` itself, or, where the noise scales with
/// time, `noise` times the elapsed seconds, rounded down and held to the
/// range of `u32`.
pub open spec fn step_deviation_spec(noise: u32, time: u32, scales: bool) -> u32 {
    if !scales {
        noise
    } else if noise * time / (TIME_UNIT as int) > u32::MAX {
        u32::MAX
    } else {
        (noise * time / (TIME_UNIT as int)) as u32
    }
}

/// The standard deviation of the noise that moves the particles in an update
/// after the time `time`.
pub fn step_deviation(noise: u32, time: u32, scales: bool) -> (deviation: u32)
    ensures
        deviation == step_deviation_spec(noise, time, scales),
{
    if !scales {
        return noise;
    }
    assert(noise * time <= 0xffff_ffff * 0xffff_ffff) by (nonlinear_arith)
        requires
            noise <= 0xffff_ffff,
            time <= 0xffff_ffff,
    ;
    let scaled: u64 = noise as u64 * time as u64 / TIME_UNIT as u64;
    if scaled > u32::MAX as u64 {
        u32::MAX
    } else {
        scaled as u32
    }
}

/// The particle filter that follows one target.
pub struct AnimalTracker {
    /// The estimate of the target's position: the mean of the particles.
    pub est_pos: Point,
    /// The particles.
    pub filter: Filter<Point>,
    /// The standard deviation of the noise that moves every particle once in
    /// each update, or once in each second where the noise scales with time.
    pub noise: u32,
    /// Whether the noise of an update grows with the time since the last.
    pub noise_scales_with_time: bool,
    /// How an update chooses the particles that live on.
    pub resampling: Resampling,
}

/// `after` is what one update from the reading `measurement` taken at
/// `drone_pos` after the time `time` can make of `before`, and `status` is
/// what that update reports: the particles went through one update of the
/// particle set with the tracker's policy and noise, and the estimate is their
/// mean.
pub open spec fn updated<L: Fn(u64) -> u64, G: Fn(u32) -> i32>(
    before: AnimalTracker,
    after: AnimalTracker,
    status: UpdateStatus,
    drone_pos: Point,
    measurement: i64,
    stddev: u32,
    time: u32,
    likelihood: &L,
    gaussian: &G,
) -> bool {
    &&& after.noise == before.noise
    &&& after.noise_scales_with_time == before.noise_scales_with_time
    &&& after.resampling == before.resampling
    &&& after.est_pos == mean(after.filter@.particles)
    &&& assimilated(
        before.filter@,
        after.filter@,
        status,
        drone_pos,
        measurement,
        stddev,
        step_deviation_spec(before.noise, time, before.noise_scales_with_time),
        before.resampling,
        likelihood,
        gaussian,
    )
}

impl AnimalTracker {
    /// A tracker with `particles` particles, each drawn at random from the
    /// box that the two ranges span, and the estimate at their mean. Its
    /// updates draw by weight and move the particles by the same noise
    /// whatever time has passed. A tracker without particles or with an empty
    /// box is refused.
    pub fn new(particles: usize, h_range: Range<i32>, v_range: Range<i32>, noise: u32) -> (tracker:
        Result<AnimalTracker, ConfigError>)
        ensures
            particles == 0 ==> tracker == Err::<AnimalTracker, ConfigError>(
                ConfigError::NoParticles,
            ),
            particles > 0 && (h_range.start >= h_range.end || v_range.start >= v_range.end)
                ==> tracker == Err::<AnimalTracker, ConfigError>(ConfigError::EmptyRegion),
            particles > 0 && h_range.start < h_range.end && v_range.start < v_range.end
                ==> tracker.is_ok(),
            tracker.is_ok() ==> {
                let t = tracker.unwrap();
                &&& t.noise == noise
                &&& !t.noise_scales_with_time
                &&& t.resampling == Resampling::Weighted
                &&& t.filter@.particles.len() == particles
                &&& t.filter@.weights.len() == 0
                &&& forall|i: int|
                    0 <= i < particles ==> in_box(#[trigger] t.filter@.particles[i], h_range, v_range)
                &&& t.est_pos == mean(t.filter@.particles)
            },
    {
        if particles == 0 {
            return Err(ConfigError::NoParticles);
        }
        if h_range.start >= h_range.end || v_range.start >= v_range.end {
            return Err(ConfigError::EmptyRegion);
        }
        let filter = Filter::new_start_box(particles, h_range, v_range);
        let est_pos = filter.guess_position();
        Ok(
            AnimalTracker {
                est_pos,
                filter,
                noise,
                noise_scales_with_time: false,
                resampling: Resampling::Weighted,
            },
        )
    }

    /// One update by weight with everything given: the particles get the
    /// weights `weights`, are drawn anew by `draws` and moved by `steps`, and
    /// the estimate moves to their mean.
    pub fn update_with(&mut self, weights: Vec<u64>, draws: &[u64], steps: &[Point]) -> (status:
        UpdateStatus)
        requires
            weights@.len() == old(self).filter@.particles.len(),
            draws@.len() == old(self).filter@.particles.len(),
            steps@.len() == old(self).filter@.particles.len(),
        ensures
            final(self).filter@.particles == advanced(
                old(self).filter@.particles,
                weights@,
                draws@,
                steps@,
            ),
            final(self).filter@.weights == cumulative(sampling_weights(weights@)),
            final(self).est_pos == mean(final(self).filter@.particles),
            final(self).noise == old(self).noise,
            final(self).noise_scales_with_time == old(self).noise_scales_with_time,
            final(self).resampling == old(self).resampling,
            status == status_of(weights@),
    {
        self.filter.set_weights(weights);
        let status = self.filter.advance(draws, steps);
        self.est_pos = self.filter.guess_position();
        status
    }

    /// One update from the reading `measurement`, taken at `drone_pos` with
    /// noise of the standard deviation `stddev`, the time `time` after the
    /// last: reweighs the particles, chooses those that live on as the
    /// tracker's policy says, moves them, and moves the estimate to their
    /// mean. The noise that moves the particles is the tracker's own, or grows
    /// with `time` where it scales with time.
    pub fn update_filter<L, G>(
        &mut self,
        drone_pos: Point,
        measurement: i64,
        stddev: u32,
        time: u32,
        likelihood: &L,
        gaussian: &G,
    ) -> (status: UpdateStatus) where L: Fn(u64) -> u64, G: Fn(u32) -> i32
        requires
            stddev > 0,
            policy_fits(old(self).resampling, old(self).filter@.particles.len()),
            forall|z: u64| likelihood.requires((z,)),
            gaussian.requires(
                (step_deviation_spec(old(self).noise, time, old(self).noise_scales_with_time),),
            ),
        ensures
            updated(
                *old(self),
                *final(self),
                status,
                drone_pos,
                measurement,
                stddev,
                time,
                likelihood,
                gaussian,
            ),
            final(self).filter@.particles.len() == old(self).filter@.particles.len(),
    {
        let noise = step_deviation(self.noise, time, self.noise_scales_with_time);
        let status = self.filter.assimilate(
            drone_pos,
            measurement,
            stddev,
            noise,
            self.resampling,
            likelihood,
            gaussian,
        );
        self.est_pos = self.filter.guess_position();
        status
    }
}

} // verus!
