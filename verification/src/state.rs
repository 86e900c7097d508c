//! The scheduler: all trackers, their targets and the observer, advanced
//! together once in each tick.

use crate::filter::{advanced, in_box, mean, policy_fits, Resampling, UpdateStatus};
use crate::geometry::{distance_spec, Point};
use crate::measurement::generate_measurement;
use crate::state::animal::Animal;
use crate::state::config::{verdict, Config, ConfigError};
use crate::tracker::{updated, AnimalTracker};
use vstd::prelude::*;

pub mod animal;
pub mod config;

verus! {

/// Everything that a tick reads and changes.
pub struct State {
    /// The position of the observer.
    pub drone_pos: Point,
    /// The trackers, each with the index of its target in `animals`.
    pub trackers: Vec<(AnimalTracker, usize)>,
    /// The targets.
    pub animals: Vec<Animal>,
}

/// `after` with `status` is what one tick after the time `time` can make of
/// the tracker `before` that follows `animal`, seen from `drone_pos`: an
/// update from some reading of the range between the two, with noise that
/// `gaussian` handed out for the target's standard deviation.
pub open spec fn ticked<L: Fn(u64) -> u64, G: Fn(u32) -> i32>(
    before: AnimalTracker,
    after: AnimalTracker,
    status: UpdateStatus,
    drone_pos: Point,
    animal: Animal,
    time: u32,
    likelihood: &L,
    gaussian: &G,
) -> bool {
    exists|noise: i32| #[trigger]
        gaussian.ensures((animal.signal_stddev,), noise) && updated(
            before,
            after,
            status,
            drone_pos,
            (distance_spec(drone_pos, animal.position) + noise) as i64,
            animal.signal_stddev,
            time,
            likelihood,
            gaussian,
        )
}

/// What the update of one tracker reads besides its own particles.
pub struct TickInput {
    /// The weight of every particle.
    pub weights: Seq<u64>,
    /// The draws that select the new particles.
    pub draws: Seq<u64>,
    /// The steps that move them.
    pub steps: Seq<Point>,
}

/// The particle sets of all trackers after a tick in which every tracker is
/// updated from its own input, all at the same time.
pub open spec fn ticked_together(sets: Seq<Seq<Point>>, inputs: Seq<TickInput>) -> Seq<
    Seq<Point>,
> {
    Seq::new(
        sets.len(),
        |i: int| advanced(sets[i], inputs[i].weights, inputs[i].draws, inputs[i].steps),
    )
}

/// The particle sets of all trackers after the tracker `i` alone is updated.
pub open spec fn ticked_one(sets: Seq<Seq<Point>>, inputs: Seq<TickInput>, i: int) -> Seq<
    Seq<Point>,
> {
    sets.update(i, advanced(sets[i], inputs[i].weights, inputs[i].draws, inputs[i].steps))
}

/// The particle sets of all trackers after the first `count` trackers are
/// updated one after another.
pub open spec fn ticked_in_turn(sets: Seq<Seq<Point>>, inputs: Seq<TickInput>, count: int) -> Seq<
    Seq<Point>,
>
    decreases count,
{
    if count <= 0 {
        sets
    } else {
        ticked_one(ticked_in_turn(sets, inputs, count - 1), inputs, count - 1)
    }
}

/// The update of one tracker leaves the particles of every other tracker as
/// they are, so two trackers updated in either order end the same.
pub proof fn lemma_updates_commute(sets: Seq<Seq<Point>>, inputs: Seq<TickInput>, i: int, j: int)
    requires
        0 <= i < sets.len(),
        0 <= j < sets.len(),
        i != j,
    ensures
        ticked_one(ticked_one(sets, inputs, i), inputs, j) == ticked_one(
            ticked_one(sets, inputs, j),
            inputs,
            i,
        ),
        ticked_one(sets, inputs, i)[j] == sets[j],
{
    assert(ticked_one(ticked_one(sets, inputs, i), inputs, j) =~= ticked_one(
        ticked_one(sets, inputs, j),
        inputs,
        i,
    ));
}

/// Trackers updated one after another end with the same particles as
/// trackers updated all at the same time from the same inputs.
pub proof fn lemma_turn_by_turn_is_together(sets: Seq<Seq<Point>>, inputs: Seq<TickInput>)
    ensures
        ticked_in_turn(sets, inputs, sets.len() as int) == ticked_together(sets, inputs),
{
    lemma_ticked_in_turn(sets, inputs, sets.len() as int);
    assert(ticked_in_turn(sets, inputs, sets.len() as int) =~= ticked_together(sets, inputs));
}

/// After the first `count` trackers are updated in turn, these hold what a
/// tick of all trackers together gives them, and the others are untouched.
pub proof fn lemma_ticked_in_turn(sets: Seq<Seq<Point>>, inputs: Seq<TickInput>, count: int)
    requires
        0 <= count <= sets.len(),
    ensures
        ticked_in_turn(sets, inputs, count).len() == sets.len(),
        forall|i: int|
            0 <= i < count ==> #[trigger] ticked_in_turn(sets, inputs, count)[i]
                == ticked_together(sets, inputs)[i],
        forall|i: int|
            count <= i < sets.len() ==> #[trigger] ticked_in_turn(sets, inputs, count)[i]
                == sets[i],
    decreases count,
{
    if count > 0 {
        lemma_ticked_in_turn(sets, inputs, count - 1);
    }
}

impl State {
    /// Every tracker follows a target that exists and can apply its policy,
    /// and no target's readings are free of noise.
    pub open spec fn wf(&self) -> bool {
        &&& forall|i: int|
            0 <= i < self.trackers@.len() ==> {
                &&& (#[trigger] self.trackers@[i]).1 < self.animals@.len()
                &&& policy_fits(
                    self.trackers@[i].0.resampling,
                    self.trackers@[i].0.filter@.particles.len(),
                )
            }
        &&& forall|j: int|
            0 <= j < self.animals@.len() ==> (#[trigger] self.animals@[j]).signal_stddev > 0
    }

    /// Whether every tracker follows a target that exists and can apply its
    /// policy, and no target's readings are free of noise.
    pub fn is_wf(&self) -> (ok: bool)
        ensures
            ok == self.wf(),
    {
        let mut i: usize = 0;
        while i < self.trackers.len()
            invariant
                0 <= i <= self.trackers@.len(),
                forall|k: int|
                    0 <= k < i ==> {
                        &&& (#[trigger] self.trackers@[k]).1 < self.animals@.len()
                        &&& policy_fits(
                            self.trackers@[k].0.resampling,
                            self.trackers@[k].0.filter@.particles.len(),
                        )
                    },
            decreases self.trackers.len() - i,
        {
            if self.trackers[i].1 >= self.animals.len() {
                return false;
            }
            match self.trackers[i].0.resampling {
                Resampling::Weighted => {},
                Resampling::Truncate { survivors } => {
                    if survivors == 0 || survivors > self.trackers[i].0.filter.get_particles().len() {
                        return false;
                    }
                },
            }
            i += 1;
        }
        let mut j: usize = 0;
        while j < self.animals.len()
            invariant
                0 <= j <= self.animals@.len(),
                forall|k: int| 0 <= k < j ==> (#[trigger] self.animals@[k]).signal_stddev > 0,
            decreases self.animals.len() - j,
        {
            if self.animals[j].signal_stddev == 0 {
                return false;
            }
            j += 1;
        }
        true
    }

    /// The state that a run starts in: the observer at the origin, one target
    /// for every entry of the configuration, and for every target a tracker
    /// whose particles are drawn at random from the start box. A
    /// configuration that cannot start a run is refused.
    pub fn new(config: &Config) -> (state: Result<State, ConfigError>)
        ensures
            verdict(config.particle_count, config.init_box, config.stddev).is_err() ==> state
                == Err::<State, ConfigError>(
                verdict(config.particle_count, config.init_box, config.stddev).unwrap_err(),
            ),
            verdict(config.particle_count, config.init_box, config.stddev).is_ok()
                ==> state.is_ok(),
            state.is_ok() ==> {
                let s = state.unwrap();
                &&& s.wf()
                &&& s.drone_pos == (Point { x: 0, y: 0 })
                &&& s.animals@.len() == config.animals_pos@.len()
                &&& s.trackers@.len() == config.animals_pos@.len()
                &&& forall|i: int|
                    0 <= i < s.animals@.len() ==> {
                        &&& (#[trigger] s.animals@[i]).position == (Point {
                            x: config.animals_pos@[i].0[0],
                            y: config.animals_pos@[i].0[1],
                        })
                        &&& s.animals@[i].signal_stddev == config.stddev
                        &&& s.animals@[i].color == config.animals_pos@[i].1
                    }
                &&& forall|i: int|
                    0 <= i < s.trackers@.len() ==> {
                        &&& (#[trigger] s.trackers@[i]).1 == i
                        &&& s.trackers@[i].0.noise == config.noise
                        &&& !s.trackers@[i].0.noise_scales_with_time
                        &&& s.trackers@[i].0.resampling == Resampling::Weighted
                        &&& s.trackers@[i].0.filter@.particles.len() == config.particle_count
                        &&& s.trackers@[i].0.filter@.weights.len() == 0
                        &&& s.trackers@[i].0.est_pos == mean(s.trackers@[i].0.filter@.particles)
                        &&& forall|k: int|
                            0 <= k < config.particle_count ==> in_box(
                                #[trigger] s.trackers@[i].0.filter@.particles[k],
                                config.init_box.h_range,
                                config.init_box.v_range,
                            )
                    }
            },
    {
        match config.validate() {
            Err(e) => {
                return Err(e);
            },
            Ok(()) => {},
        }
        let mut animals: Vec<Animal> = Vec::new();
        let mut trackers: Vec<(AnimalTracker, usize)> = Vec::new();
        let n: usize = config.animals_pos.len();
        let mut i: usize = 0;
        while i < n
            invariant
                0 <= i <= n,
                n == config.animals_pos@.len(),
                verdict(config.particle_count, config.init_box, config.stddev).is_ok(),
                animals@.len() == i,
                trackers@.len() == i,
                forall|j: int|
                    0 <= j < i ==> {
                        &&& (#[trigger] animals@[j]).position == (Point {
                            x: config.animals_pos@[j].0[0],
                            y: config.animals_pos@[j].0[1],
                        })
                        &&& animals@[j].signal_stddev == config.stddev
                        &&& animals@[j].color == config.animals_pos@[j].1
                    },
                forall|j: int|
                    0 <= j < i ==> {
                        &&& (#[trigger] trackers@[j]).1 == j
                        &&& trackers@[j].0.noise == config.noise
                        &&& !trackers@[j].0.noise_scales_with_time
                        &&& trackers@[j].0.resampling == Resampling::Weighted
                        &&& trackers@[j].0.filter@.particles.len() == config.particle_count
                        &&& trackers@[j].0.filter@.weights.len() == 0
                        &&& trackers@[j].0.est_pos == mean(trackers@[j].0.filter@.particles)
                        &&& forall|k: int|
                            0 <= k < config.particle_count ==> in_box(
                                #[trigger] trackers@[j].0.filter@.particles[k],
                                config.init_box.h_range,
                                config.init_box.v_range,
                            )
                    },
            decreases n - i,
        {
            let entry = &config.animals_pos[i];
            let position = Point::new(entry.0[0], entry.0[1]);
            animals.push(Animal::new(position, config.stddev, entry.1));
            let h_range = config.init_box.h_range.start..config.init_box.h_range.end;
            let v_range = config.init_box.v_range.start..config.init_box.v_range.end;
            match AnimalTracker::new(config.particle_count, h_range, v_range, config.noise) {
                Ok(tracker) => {
                    trackers.push((tracker, i));
                },
                Err(e) => {
                    return Err(e);
                },
            }
            i += 1;
        }
        Ok(State { drone_pos: Point::new(0, 0), trackers, animals })
    }

    /// One tick, the time `time` after the last: for every tracker a reading
    /// of the range to its target is taken from the observer's position, and
    /// the tracker is updated from it. The result reports for every tracker how its weights came about.
    /// No tracker's update reads or changes another tracker, and neither the
    /// targets nor the observer change.
    pub fn update<L, G>(&mut self, time: u32, likelihood: &L, gaussian: &G) -> (statuses: Vec<
        UpdateStatus,
    >) where L: Fn(u64) -> u64, G: Fn(u32) -> i32
        requires
            old(self).wf(),
            forall|z: u64| likelihood.requires((z,)),
            forall|s: u32| gaussian.requires((s,)),
        ensures
            final(self).wf(),
            final(self).drone_pos == old(self).drone_pos,
            final(self).animals@ == old(self).animals@,
            final(self).trackers@.len() == old(self).trackers@.len(),
            statuses@.len() == old(self).trackers@.len(),
            forall|i: int|
                0 <= i < old(self).trackers@.len() ==> {
                    &&& (#[trigger] final(self).trackers@[i]).1 == old(self).trackers@[i].1
                    &&& ticked(
                        old(self).trackers@[i].0,
                        final(self).trackers@[i].0,
                        statuses@[i],
                        old(self).drone_pos,
                        old(self).animals@[old(self).trackers@[i].1 as int],
                        time,
                        likelihood,
                        gaussian,
                    )
                },
    {
        let drone_pos = self.drone_pos;
        let n: usize = self.trackers.len();
        let mut statuses: Vec<UpdateStatus> = Vec::with_capacity(n);
        let mut i: usize = 0;
        while i < n
            invariant
                0 <= i <= n,
                n == self.trackers@.len(),
                n == old(self).trackers@.len(),
                statuses@.len() == i,
                old(self).wf(),
                self.drone_pos == old(self).drone_pos,
                drone_pos == self.drone_pos,
                self.animals@ == old(self).animals@,
                forall|z: u64| likelihood.requires((z,)),
                forall|s: u32| gaussian.requires((s,)),
                forall|j: int| i <= j < n ==> self.trackers@[j] == old(self).trackers@[j],
                forall|j: int|
                    0 <= j < i ==> {
                        &&& (#[trigger] self.trackers@[j]).1 == old(self).trackers@[j].1
                        &&& ticked(
                            old(self).trackers@[j].0,
                            self.trackers@[j].0,
                            statuses@[j],
                            old(self).drone_pos,
                            old(self).animals@[old(self).trackers@[j].1 as int],
                            time,
                            likelihood,
                            gaussian,
                        )
                    },
            decreases n - i,
        {
            let id: usize = self.trackers[i].1;
            let animal: Animal = self.animals[id];
            let measurement = generate_measurement(
                drone_pos,
                animal.position,
                animal.signal_stddev,
                gaussian,
            );
            let status = self.trackers[i].0.update_filter(
                drone_pos,
                measurement,
                animal.signal_stddev,
                time,
                likelihood,
                gaussian,
            );
            statuses.push(status);
            i += 1;
        }
        statuses
    }
}

} // verus!
