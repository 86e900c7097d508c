//! The particle set: weighted samples of an unknown position, and the steps
//! that reweight, resample and move them.

use crate::geometry::Point;
use crate::measurement::{weighting, z_score_spec};
use crate::random::uniform_between;
use crate::ranking::{rank, ranking};
use crate::sampling::{
    accumulate, cumulative, equalize, lemma_cumulative_shape, lemma_normalized_total,
    lemma_uniform_total, non_decreasing, normalize, normalized, resampled, select_index, sum,
    total, uniform, WEIGHT_UNIT,
};
use std::ops::Range;
use vstd::prelude::*;

verus! {

/// Why a step of the filter could not be taken.
#[derive(Clone, Copy, Debug, PartialEq, Eq, Structural)]
pub enum FilterError {
    /// The weights add up to zero, so there is nothing to divide by.
    DegenerateWeights,
}

/// How the weights of an update came about.
#[derive(Clone, Copy, Debug, PartialEq, Eq, Structural)]
pub enum UpdateStatus {
    /// The weights added up to more than zero.
    Weighted,
    /// The weights added up to zero. Where the update draws by weight, every
    /// particle was given the same weight in their place.
    Degenerate,
}

/// How an update chooses the particles that live on.
#[derive(Clone, Copy, Debug, PartialEq, Eq, Structural)]
pub enum Resampling {
    /// As many particles are drawn at random, each with a chance in proportion
    /// to its weight.
    Weighted,
    /// The `survivors` heaviest particles live on, and copies of them, taken
    /// in turn, fill the places of the others. Cheaper than drawing by weight,
    /// but biased towards the heaviest.
    Truncate { survivors: usize },
}

/// The policy can be applied to `count` particles: truncation needs at least
/// one survivor and no more survivors than particles.
pub open spec fn policy_fits(policy: Resampling, count: nat) -> bool {
    match policy {
        Resampling::Weighted => true,
        Resampling::Truncate { survivors } => 0 < survivors <= count,
    }
}

/// The particles after truncation: place `i` holds the particle that stands
/// at place `i` modulo `survivors` in `order`.
pub open spec fn refilled<T>(particles: Seq<T>, order: Seq<usize>, survivors: int) -> Seq<T> {
    Seq::new(particles.len(), |i: int| particles[order[i % survivors] as int])
}

/// The weights that an update samples by: `w` normalised, or equal weights
/// where `w` adds up to zero.
pub open spec fn sampling_weights(w: Seq<u64>) -> Seq<u64> {
    if total(w) > 0 {
        normalized(w)
    } else {
        uniform(w.len())
    }
}

/// What an update reports of the weights `w`: degenerate exactly where they
/// add up to zero.
pub open spec fn status_of(w: Seq<u64>) -> UpdateStatus {
    if total(w) > 0 {
        UpdateStatus::Weighted
    } else {
        UpdateStatus::Degenerate
    }
}

/// The weights that an update samples by add up to one, up to rounding: to
/// at most `WEIGHT_UNIT`, and to less than one step short of it for each
/// weight.
pub proof fn lemma_sampling_weights_total(w: Seq<u64>)
    ensures
        sampling_weights(w).len() == w.len(),
        total(sampling_weights(w)) <= WEIGHT_UNIT,
        w.len() > 0 ==> total(sampling_weights(w)) + w.len() > WEIGHT_UNIT,
{
    if total(w) > 0 {
        lemma_normalized_total(w);
    } else if w.len() > 0 {
        lemma_uniform_total(w.len());
    } else {
        assert(total(uniform(0)) == 0);
    }
}

/// A set of particles with their weights.
///
/// Particle `i` belongs to weight `i`. The weights are empty until the set is
/// reweighted, and hold running sums between `set_sampling_weights` and the
/// next reweighting.
#[derive(Clone, Debug)]
pub struct Filter<T: Copy> {
    particles: Vec<T>,
    old_particles: Vec<T>,
    weights: Vec<u64>,
}

/// What a particle set holds.
pub struct FilterView<T> {
    pub particles: Seq<T>,
    pub weights: Seq<u64>,
}

impl<T: Copy> View for Filter<T> {
    type V = FilterView<T>;

    closed spec fn view(&self) -> FilterView<T> {
        FilterView { particles: self.particles@, weights: self.weights@ }
    }
}

impl<T: Copy> Filter<T> {
    /// A set without particles or weights.
    pub fn new() -> (filter: Filter<T>)
        ensures
            filter@.particles.len() == 0,
            filter@.weights.len() == 0,
    {
        Filter { particles: Vec::new(), old_particles: Vec::new(), weights: Vec::new() }
    }

    /// The particles, in order.
    pub fn get_particles(&self) -> (particles: &[T])
        ensures
            particles@ == self@.particles,
    {
        self.particles.as_slice()
    }

    /// The weights, in order.
    pub fn get_weights(&self) -> (weights: &[u64])
        ensures
            weights@ == self@.weights,
    {
        self.weights.as_slice()
    }

    /// A set without particles or weights, with room for `cap` particles.
    pub fn with_capacity(cap: usize) -> (filter: Filter<T>)
        ensures
            filter@.particles.len() == 0,
            filter@.weights.len() == 0,
    {
        Filter {
            particles: Vec::with_capacity(cap),
            old_particles: Vec::with_capacity(cap),
            weights: Vec::with_capacity(cap),
        }
    }

    /// Hands the particles to `func`, which may fill or change them as it
    /// likes. The weights stay.
    pub fn populate_filter<F>(&mut self, func: F) where F: FnOnce(&mut Vec<T>)
        requires
            forall|r: &mut Vec<T>|
                r@ == old(self)@.particles ==> #[trigger] func.requires((r,)),
        ensures
            final(self)@.weights == old(self)@.weights,
            exists|r: &mut Vec<T>|
                r@ == old(self)@.particles && final(r)@ == final(self)@.particles && func.ensures(
                    (r,),
                    (),
                ),
    {
        func(&mut self.particles);
    }

    /// Replaces the particles by those that `draws` select, one for each draw:
    /// draw `k` picks the particle at the first running sum that reaches it,
    /// and the last particle where none does.
    pub fn resample_with(&mut self, draws: &[u64])
        requires
            old(self)@.weights.len() == old(self)@.particles.len(),
            non_decreasing(old(self)@.weights),
            draws@.len() == old(self)@.particles.len(),
        ensures
            final(self)@.particles == resampled(
                old(self)@.particles,
                old(self)@.weights,
                draws@,
            ),
            final(self)@.weights == old(self)@.weights,
    {
        std::mem::swap(&mut self.particles, &mut self.old_particles);
        self.particles.clear();
        let len: usize = self.old_particles.len();
        let mut k: usize = 0;
        while k < len
            invariant
                0 <= k <= len,
                len == draws@.len(),
                len == self.old_particles@.len(),
                len == self.weights@.len(),
                self.old_particles@ == old(self)@.particles,
                self.weights@ == old(self)@.weights,
                non_decreasing(self.weights@),
                self.particles@.len() == k,
                forall|j: int|
                    0 <= j < k ==> self.particles@[j] == resampled(
                        old(self)@.particles,
                        old(self)@.weights,
                        draws@,
                    )[j],
            decreases len - k,
        {
            let index: usize = select_index(self.weights.as_slice(), draws[k]);
            self.particles.push(self.old_particles[index]);
            k += 1;
        }
        proof {
            assert(self.particles@ =~= resampled(
                old(self)@.particles,
                old(self)@.weights,
                draws@,
            ));
        }
    }

    /// Replaces the particles by as many particles drawn from them at random,
    /// each with a chance in proportion to its weight. The weights must hold
    /// running sums, as `set_sampling_weights` leaves them.
    pub fn resample(&mut self)
        requires
            old(self)@.weights.len() == old(self)@.particles.len(),
            non_decreasing(old(self)@.weights),
        ensures
            final(self)@.particles.len() == old(self)@.particles.len(),
            final(self)@.weights == old(self)@.weights,
            exists|draws: Seq<u64>|
                {
                    &&& draws.len() == old(self)@.particles.len()
                    &&& forall|k: int| 0 <= k < draws.len() ==> draws[k] < WEIGHT_UNIT
                    &&& final(self)@.particles == resampled(
                        old(self)@.particles,
                        old(self)@.weights,
                        draws,
                    )
                },
    {
        let len: usize = self.particles.len();
        let mut draws: Vec<u64> = Vec::with_capacity(len);
        let mut k: usize = 0;
        while k < len
            invariant
                0 <= k <= len,
                draws@.len() == k,
                forall|j: int| 0 <= j < k ==> draws@[j] < WEIGHT_UNIT,
            decreases len - k,
        {
            let draw: i64 = uniform_between(0, WEIGHT_UNIT as i64);
            draws.push(draw as u64);
            k += 1;
        }
        self.resample_with(draws.as_slice());
    }

    /// Keeps the `survivors` heaviest particles, heaviest first and particles
    /// of equal weight in their old order, and fills the places behind them
    /// with copies of them, taken in turn. The weights stay as they are.
    pub fn truncate_resample(&mut self, survivors: usize)
        requires
            old(self)@.weights.len() == old(self)@.particles.len(),
            0 < survivors <= old(self)@.particles.len(),
        ensures
            final(self)@.particles == refilled(
                old(self)@.particles,
                ranking(old(self)@.weights),
                survivors as int,
            ),
            final(self)@.weights == old(self)@.weights,
    {
        let order: Vec<usize> = rank(self.weights.as_slice());
        std::mem::swap(&mut self.particles, &mut self.old_particles);
        self.particles.clear();
        let len: usize = self.old_particles.len();
        let mut i: usize = 0;
        while i < len
            invariant
                0 <= i <= len,
                0 < survivors <= len,
                len == self.old_particles@.len(),
                len == order@.len(),
                self.old_particles@ == old(self)@.particles,
                self.weights@ == old(self)@.weights,
                order@ == ranking(old(self)@.weights),
                forall|a: int| 0 <= a < len ==> 0 <= #[trigger] order@[a] < len,
                self.particles@.len() == i,
                forall|j: int|
                    0 <= j < i ==> self.particles@[j] == refilled(
                        old(self)@.particles,
                        ranking(old(self)@.weights),
                        survivors as int,
                    )[j],
            decreases len - i,
        {
            let place: usize = i % survivors;
            self.particles.push(self.old_particles[order[place]]);
            i += 1;
        }
        proof {
            assert(self.particles@ =~= refilled(
                old(self)@.particles,
                ranking(old(self)@.weights),
                survivors as int,
            ));
        }
    }

    /// Replaces every particle by one that `resampler` hands out.
    pub fn reset<F>(&mut self, resampler: F) where F: Fn() -> T
        requires
            resampler.requires(()),
        ensures
            final(self)@.particles.len() == old(self)@.particles.len(),
            forall|i: int|
                0 <= i < final(self)@.particles.len() ==> resampler.ensures(
                    (),
                    #[trigger] final(self)@.particles[i],
                ),
            final(self)@.weights == old(self)@.weights,
    {
        let len: usize = self.particles.len();
        self.particles.clear();
        let mut i: usize = 0;
        while i < len
            invariant
                0 <= i <= len,
                self.particles@.len() == i,
                self.weights@ == old(self)@.weights,
                resampler.requires(()),
                forall|j: int| 0 <= j < i ==> resampler.ensures((), #[trigger] self.particles@[j]),
            decreases len - i,
        {
            let particle = resampler();
            self.particles.push(particle);
            i += 1;
        }
    }

    /// Forgets the weights.
    pub fn clear_weights(&mut self)
        ensures
            final(self)@.weights.len() == 0,
            final(self)@.particles == old(self)@.particles,
    {
        self.weights.clear();
    }

    /// Gives every particle the weight that `func` computes for it.
    pub fn reweight<F>(&mut self, func: F) where F: Fn(&T) -> u64
        requires
            forall|i: int|
                0 <= i < old(self)@.particles.len() ==> func.requires(
                    (&#[trigger] old(self)@.particles[i],),
                ),
        ensures
            final(self)@.particles == old(self)@.particles,
            final(self)@.weights.len() == old(self)@.particles.len(),
            forall|i: int|
                0 <= i < old(self)@.particles.len() ==> func.ensures(
                    (&old(self)@.particles[i],),
                    #[trigger] final(self)@.weights[i],
                ),
    {
        self.clear_weights();
        let len: usize = self.particles.len();
        let mut i: usize = 0;
        while i < len
            invariant
                0 <= i <= len,
                len == self.particles@.len(),
                self.particles@ == old(self)@.particles,
                self.weights@.len() == i,
                forall|j: int|
                    0 <= j < len ==> func.requires((&#[trigger] self.particles@[j],)),
                forall|j: int|
                    0 <= j < i ==> func.ensures(
                        (&self.particles@[j],),
                        #[trigger] self.weights@[j],
                    ),
            decreases len - i,
        {
            let weight: u64 = func(&self.particles[i]);
            self.weights.push(weight);
            i += 1;
        }
    }

    /// Divides every weight by the sum of all weights, so that they add up to
    /// one. Where the sum is zero the weights stay as they are and the error
    /// says so.
    pub fn normalize_weights(&mut self) -> (outcome: Result<(), FilterError>)
        ensures
            outcome.is_ok() == (total(old(self)@.weights) > 0),
            outcome.is_ok() ==> final(self)@.weights == normalized(old(self)@.weights),
            outcome == Err::<(), FilterError>(FilterError::DegenerateWeights) ==> final(self)@.weights
                == old(self)@.weights,
            outcome.is_err() ==> outcome == Err::<(), FilterError>(FilterError::DegenerateWeights),
            outcome.is_ok() ==> total(final(self)@.weights) <= WEIGHT_UNIT && total(
                final(self)@.weights,
            ) + old(self)@.weights.len() > WEIGHT_UNIT,
            final(self)@.particles == old(self)@.particles,
    {
        proof {
            if total(self@.weights) > 0 {
                lemma_normalized_total(self@.weights);
            }
        }
        if normalize(&mut self.weights) {
            Ok(())
        } else {
            Err(FilterError::DegenerateWeights)
        }
    }

    /// Gives every particle the same weight, `WEIGHT_UNIT` divided by the
    /// number of particles.
    pub fn set_uniform_weights(&mut self)
        ensures
            final(self)@.weights == uniform(old(self)@.particles.len()),
            final(self)@.particles == old(self)@.particles,
    {
        self.weights.clear();
        let len: usize = self.particles.len();
        let mut i: usize = 0;
        while i < len
            invariant
                0 <= i <= len,
                len == self.particles@.len(),
                self.particles@ == old(self)@.particles,
                self.weights@.len() == i,
            decreases len - i,
        {
            self.weights.push(0);
            i += 1;
        }
        equalize(&mut self.weights);
    }

    /// Normalises the weights, or gives every particle the same weight where
    /// they add up to zero, and says which of the two it did.
    pub fn normalize_or_uniform(&mut self) -> (status: UpdateStatus)
        requires
            old(self)@.weights.len() == old(self)@.particles.len(),
        ensures
            final(self)@.weights == sampling_weights(old(self)@.weights),
            final(self)@.particles == old(self)@.particles,
            status == status_of(old(self)@.weights),
    {
        match self.normalize_weights() {
            Ok(()) => UpdateStatus::Weighted,
            Err(_) => {
                self.set_uniform_weights();
                UpdateStatus::Degenerate
            },
        }
    }

    /// Replaces the weights by `weights`.
    pub fn set_weights(&mut self, weights: Vec<u64>)
        ensures
            final(self)@.weights == weights@,
            final(self)@.particles == old(self)@.particles,
    {
        self.weights = weights;
    }

    /// The sum of all weights.
    pub fn sum_weights(&self) -> (s: u128)
        ensures
            s == total(self@.weights),
    {
        sum(self.weights.as_slice())
    }

    /// Turns the weights into their running sums, which `resample` reads.
    pub fn set_sampling_weights(&mut self)
        requires
            total(old(self)@.weights) <= u64::MAX,
        ensures
            final(self)@.weights == cumulative(old(self)@.weights),
            final(self)@.particles == old(self)@.particles,
            non_decreasing(final(self)@.weights),
            old(self)@.weights.len() > 0 ==> final(self)@.weights.last() == total(
                old(self)@.weights,
            ),
    {
        proof {
            lemma_cumulative_shape(self@.weights);
        }
        accumulate(&mut self.weights);
    }

    /// Replaces every particle by what `func` makes of it.
    pub fn transition<F>(&mut self, func: F) where F: Fn(T) -> T
        requires
            forall|i: int|
                0 <= i < old(self)@.particles.len() ==> func.requires(
                    (#[trigger] old(self)@.particles[i],),
                ),
        ensures
            final(self)@.particles.len() == old(self)@.particles.len(),
            forall|i: int|
                0 <= i < old(self)@.particles.len() ==> func.ensures(
                    (old(self)@.particles[i],),
                    #[trigger] final(self)@.particles[i],
                ),
            final(self)@.weights == old(self)@.weights,
    {
        let len: usize = self.particles.len();
        let mut i: usize = 0;
        while i < len
            invariant
                0 <= i <= len,
                len == self.particles@.len(),
                len == old(self)@.particles.len(),
                self.weights@ == old(self)@.weights,
                forall|j: int| i <= j < len ==> self.particles@[j] == old(self)@.particles[j],
                forall|j: int|
                    0 <= j < len ==> func.requires((#[trigger] old(self)@.particles[j],)),
                forall|j: int|
                    0 <= j < i ==> func.ensures(
                        (old(self)@.particles[j],),
                        #[trigger] self.particles@[j],
                    ),
            decreases len - i,
        {
            let moved: T = func(self.particles[i]);
            self.particles[i] = moved;
            i += 1;
        }
    }
}

/// The horizontal coordinate of `p`, or the vertical one where `vertical`.
pub open spec fn axis(p: Point, vertical: bool) -> i32 {
    if vertical {
        p.y
    } else {
        p.x
    }
}

/// The sum of one coordinate over all of `particles`.
pub open spec fn axis_sum(particles: Seq<Point>, vertical: bool) -> int
    decreases particles.len(),
{
    if particles.len() == 0 {
        0
    } else {
        axis_sum(particles.drop_last(), vertical) + axis(particles.last(), vertical)
    }
}

/// The mean of one coordinate over `particles`, rounded down, and zero where
/// there are none.
pub open spec fn axis_mean(particles: Seq<Point>, vertical: bool) -> int {
    if particles.len() == 0 {
        0
    } else {
        axis_sum(particles, vertical) / (particles.len() as int)
    }
}

/// The mean of `particles`, coordinate by coordinate, each rounded down; the
/// origin where there are none.
pub open spec fn mean(particles: Seq<Point>) -> Point {
    Point { x: axis_mean(particles, false) as i32, y: axis_mean(particles, true) as i32 }
}

/// `p` lies in the box that the two ranges span.
pub open spec fn in_box(p: Point, h_range: Range<i32>, v_range: Range<i32>) -> bool {
    h_range.start <= p.x < h_range.end && v_range.start <= p.y < v_range.end
}

/// The particles after one update: drawn from `particles` by the running
/// sums of the weights that the update samples by, then moved by `steps`.
pub open spec fn advanced(
    particles: Seq<Point>,
    weights: Seq<u64>,
    draws: Seq<u64>,
    steps: Seq<Point>,
) -> Seq<Point> {
    displaced(resampled(particles, cumulative(sampling_weights(weights)), draws), steps)
}

/// `after` with `status` is what one update from the reading `measurement`
/// taken at `drone` makes of `before`, where the particles are given the
/// weights `weights`, chosen anew as `policy` says (where it draws, by
/// `draws`), and moved by `steps`; and `likelihood` and `gaussian` can have
/// handed out these weights and steps.
pub open spec fn assimilated_by<L: Fn(u64) -> u64, G: Fn(u32) -> i32>(
    before: FilterView<Point>,
    after: FilterView<Point>,
    status: UpdateStatus,
    drone: Point,
    measurement: i64,
    stddev: u32,
    noise: u32,
    policy: Resampling,
    likelihood: &L,
    gaussian: &G,
    weights: Seq<u64>,
    draws: Seq<u64>,
    steps: Seq<Point>,
) -> bool {
    &&& weights.len() == before.particles.len()
    &&& draws.len() == before.particles.len()
    &&& steps.len() == before.particles.len()
    &&& forall|i: int|
        0 <= i < weights.len() ==> likelihood.ensures(
            (z_score_spec(drone, before.particles[i], measurement, stddev),),
            #[trigger] weights[i],
        )
    &&& forall|k: int| 0 <= k < draws.len() ==> #[trigger] draws[k] < WEIGHT_UNIT
    &&& forall|i: int|
        0 <= i < steps.len() ==> gaussian.ensures((noise,), (#[trigger] steps[i]).x)
            && gaussian.ensures((noise,), steps[i].y)
    &&& match policy {
        Resampling::Weighted => {
            &&& after.particles == advanced(before.particles, weights, draws, steps)
            &&& after.weights == cumulative(sampling_weights(weights))
        },
        Resampling::Truncate { survivors } => {
            &&& after.particles == displaced(
                refilled(before.particles, ranking(weights), survivors as int),
                steps,
            )
            &&& after.weights == weights
        },
    }
    &&& status == status_of(weights)
}

/// `after` with `status` is what one update from the reading `measurement`
/// taken at `drone` can make of `before`: the particles were weighed by
/// `likelihood`, chosen anew as `policy` says (where it draws, by some draws
/// below `WEIGHT_UNIT`), and moved by steps that `gaussian` handed out for the
/// standard deviation `noise`.
pub open spec fn assimilated<L: Fn(u64) -> u64, G: Fn(u32) -> i32>(
    before: FilterView<Point>,
    after: FilterView<Point>,
    status: UpdateStatus,
    drone: Point,
    measurement: i64,
    stddev: u32,
    noise: u32,
    policy: Resampling,
    likelihood: &L,
    gaussian: &G,
) -> bool {
    exists|weights: Seq<u64>, draws: Seq<u64>, steps: Seq<Point>|
        #[trigger] assimilated_by(
            before,
            after,
            status,
            drone,
            measurement,
            stddev,
            noise,
            policy,
            likelihood,
            gaussian,
            weights,
            draws,
            steps,
        )
}

/// Every particle moved by the step at its own place.
pub open spec fn displaced(particles: Seq<Point>, steps: Seq<Point>) -> Seq<Point> {
    Seq::new(
        particles.len(),
        |i: int| particles[i].offset_spec(steps[i].x as int, steps[i].y as int),
    )
}

/// The sum over one particle more is the sum so far and that particle's
/// coordinate.
pub proof fn lemma_axis_sum_step(particles: Seq<Point>, vertical: bool, i: int)
    requires
        0 <= i < particles.len(),
    ensures
        axis_sum(particles.take(i + 1), vertical) == axis_sum(particles.take(i), vertical) + axis(
            particles[i],
            vertical,
        ),
{
    assert(particles.take(i + 1).drop_last() =~= particles.take(i));
}

/// The sum of a coordinate lies between the least and the greatest value that
/// as many coordinates can add up to.
pub proof fn lemma_axis_sum_bounds(particles: Seq<Point>, vertical: bool)
    ensures
        particles.len() * i32::MIN <= axis_sum(particles, vertical) <= particles.len() * i32::MAX,
    decreases particles.len(),
{
    if particles.len() > 0 {
        lemma_axis_sum_bounds(particles.drop_last(), vertical);
        let n = particles.len() as int;
        let rest = axis_sum(particles.drop_last(), vertical);
        let last = axis(particles.last(), vertical) as int;
        assert(n * i32::MIN <= rest + last <= n * i32::MAX) by (nonlinear_arith)
            requires
                (n - 1) * i32::MIN <= rest <= (n - 1) * i32::MAX,
                i32::MIN <= last <= i32::MAX,
        ;
    }
}

/// The mean of a coordinate is a coordinate, and the number of particles
/// times the mean misses the sum by less than that number.
pub proof fn lemma_axis_mean_bounds(particles: Seq<Point>, vertical: bool)
    requires
        particles.len() > 0,
    ensures
        i32::MIN <= axis_mean(particles, vertical) <= i32::MAX,
        particles.len() * axis_mean(particles, vertical) <= axis_sum(particles, vertical),
        axis_sum(particles, vertical) < particles.len() * axis_mean(particles, vertical)
            + particles.len(),
{
    lemma_axis_sum_bounds(particles, vertical);
    let n = particles.len() as int;
    let s = axis_sum(particles, vertical);
    let m = s / n;
    vstd::arithmetic::div_mod::lemma_fundamental_div_mod(s, n);
    vstd::arithmetic::div_mod::lemma_mod_bound(s, n);
    assert(i32::MIN <= m <= i32::MAX && n * m <= s && s < n * m + n) by (nonlinear_arith)
        requires
            s == n * m + s % n,
            0 <= s % n < n,
            n * i32::MIN <= s <= n * i32::MAX,
            n > 0,
    ;
}

/// The mean of one coordinate of `particles`, rounded down.
fn mean_coordinate(particles: &[Point], vertical: bool) -> (m: i32)
    ensures
        m == axis_mean(particles@, vertical),
{
    let n: usize = particles.len();
    if n == 0 {
        return 0;
    }
    let mut acc: u128 = 0;
    let mut i: usize = 0;
    while i < n
        invariant
            0 <= i <= n,
            n == particles@.len(),
            acc == axis_sum(particles@.take(i as int), vertical) - i * i32::MIN,
            acc <= i * 0xffff_ffff,
        decreases n - i,
    {
        let value: i32 = if vertical {
            particles[i].y
        } else {
            particles[i].x
        };
        proof {
            lemma_axis_sum_step(particles@, vertical, i as int);
            assert((i + 1) * 0xffff_ffff <= 0xffff_ffff_ffff_ffff * 0xffff_ffff) by (nonlinear_arith)
                requires
                    i + 1 <= 0xffff_ffff_ffff_ffff,
            ;
            assert((i + 1) * i32::MIN == i * i32::MIN + i32::MIN) by (nonlinear_arith);
            assert((i + 1) * 0xffff_ffff == i * 0xffff_ffff + 0xffff_ffff) by (nonlinear_arith);
        }
        let shifted: i64 = value as i64 - i32::MIN as i64;
        acc = acc + shifted as u128;
        i += 1;
    }
    let quotient: u128 = acc / (n as u128);
    proof {
        assert(particles@.take(n as int) =~= particles@);
        let s = axis_sum(particles@, vertical);
        lemma_axis_mean_bounds(particles@, vertical);
        vstd::arithmetic::div_mod::lemma_hoist_over_denominator(s, -(i32::MIN as int), n as nat);
        assert(s + (-(i32::MIN as int)) * n == acc) by (nonlinear_arith)
            requires
                acc == s - n * i32::MIN,
        ;
    }
    (quotient as i64 + i32::MIN as i64) as i32
}

/// One point drawn at random from the box that the two ranges span.
fn draw_in_box(h_range: &Range<i32>, v_range: &Range<i32>) -> (p: Point)
    requires
        h_range.start < h_range.end,
        v_range.start < v_range.end,
    ensures
        in_box(p, *h_range, *v_range),
{
    let x: i64 = uniform_between(h_range.start as i64, h_range.end as i64);
    let y: i64 = uniform_between(v_range.start as i64, v_range.end as i64);
    Point { x: x as i32, y: y as i32 }
}

impl Filter<Point> {
    /// A set of `particles` particles, each drawn at random from the box that
    /// the two ranges span, without weights.
    pub fn new_start_box(particles: usize, h_range: Range<i32>, v_range: Range<i32>) -> (filter:
        Filter<Point>)
        requires
            h_range.start < h_range.end,
            v_range.start < v_range.end,
        ensures
            filter@.particles.len() == particles,
            filter@.weights.len() == 0,
            forall|i: int|
                0 <= i < particles ==> in_box(#[trigger] filter@.particles[i], h_range, v_range),
    {
        let mut filter: Filter<Point> = Filter::with_capacity(particles);
        let mut i: usize = 0;
        while i < particles
            invariant
                0 <= i <= particles,
                h_range.start < h_range.end,
                v_range.start < v_range.end,
                filter.particles@.len() == i,
                filter.weights@.len() == 0,
                forall|j: int|
                    0 <= j < i ==> in_box(#[trigger] filter.particles@[j], h_range, v_range),
            decreases particles - i,
        {
            let pos = draw_in_box(&h_range, &v_range);
            filter.particles.push(pos);
            i += 1;
        }
        filter
    }

    /// Replaces every particle by one drawn at random from the box that the
    /// two ranges span. The weights stay.
    pub fn reset_uniformly(&mut self, h_range: Range<i32>, v_range: Range<i32>)
        requires
            h_range.start < h_range.end,
            v_range.start < v_range.end,
        ensures
            final(self)@.particles.len() == old(self)@.particles.len(),
            final(self)@.weights == old(self)@.weights,
            forall|i: int|
                0 <= i < final(self)@.particles.len() ==> in_box(
                    #[trigger] final(self)@.particles[i],
                    h_range,
                    v_range,
                ),
    {
        let len: usize = self.particles.len();
        self.particles.clear();
        let mut i: usize = 0;
        while i < len
            invariant
                0 <= i <= len,
                h_range.start < h_range.end,
                v_range.start < v_range.end,
                self.particles@.len() == i,
                self.weights@ == old(self)@.weights,
                forall|j: int|
                    0 <= j < i ==> in_box(#[trigger] self.particles@[j], h_range, v_range),
            decreases len - i,
        {
            let pos = draw_in_box(&h_range, &v_range);
            self.particles.push(pos);
            i += 1;
        }
    }

    /// The estimate that the set stands for: the mean of its particles, each
    /// counted once.
    pub fn guess_position(&self) -> (estimate: Point)
        ensures
            estimate == mean(self@.particles),
    {
        Point {
            x: mean_coordinate(self.particles.as_slice(), false),
            y: mean_coordinate(self.particles.as_slice(), true),
        }
    }

    /// Moves every particle by the step at its own place in `steps`.
    pub fn displace(&mut self, steps: &[Point])
        requires
            steps@.len() == old(self)@.particles.len(),
        ensures
            final(self)@.particles == displaced(old(self)@.particles, steps@),
            final(self)@.weights == old(self)@.weights,
    {
        let len: usize = self.particles.len();
        let mut i: usize = 0;
        while i < len
            invariant
                0 <= i <= len,
                len == self.particles@.len(),
                len == old(self)@.particles.len(),
                len == steps@.len(),
                self.weights@ == old(self)@.weights,
                forall|j: int| i <= j < len ==> self.particles@[j] == old(self)@.particles[j],
                forall|j: int|
                    0 <= j < i ==> self.particles@[j] == displaced(
                        old(self)@.particles,
                        steps@,
                    )[j],
            decreases len - i,
        {
            let moved: Point = self.particles[i].offset(steps[i].x, steps[i].y);
            self.particles[i] = moved;
            i += 1;
        }
        proof {
            assert(self.particles@ =~= displaced(old(self)@.particles, steps@));
        }
    }

    /// Moves every particle by a random step: two draws of `gaussian`, which
    /// is asked for noise of the standard deviation `stddev`, one for each
    /// coordinate.
    pub fn random_movement<G>(&mut self, stddev: u32, gaussian: &G) where G: Fn(u32) -> i32
        requires
            gaussian.requires((stddev,)),
        ensures
            final(self)@.weights == old(self)@.weights,
            exists|steps: Seq<Point>|
                {
                    &&& steps.len() == old(self)@.particles.len()
                    &&& forall|i: int|
                        0 <= i < steps.len() ==> gaussian.ensures((stddev,), (#[trigger] steps[i]).x)
                            && gaussian.ensures((stddev,), steps[i].y)
                    &&& final(self)@.particles == displaced(old(self)@.particles, steps)
                },
    {
        let len: usize = self.particles.len();
        let mut steps: Vec<Point> = Vec::with_capacity(len);
        let mut i: usize = 0;
        while i < len
            invariant
                0 <= i <= len,
                steps@.len() == i,
                gaussian.requires((stddev,)),
                forall|j: int|
                    0 <= j < i ==> gaussian.ensures((stddev,), (#[trigger] steps@[j]).x)
                        && gaussian.ensures((stddev,), steps@[j].y),
            decreases len - i,
        {
            let x: i32 = gaussian(stddev);
            let y: i32 = gaussian(stddev);
            steps.push(Point { x, y });
            i += 1;
        }
        self.displace(steps.as_slice());
    }

    /// One update with everything given: the weights that the set holds are
    /// normalised, or replaced by equal ones where they add up to zero; their
    /// running sums and `draws` select the new particles; `steps` move them.
    pub fn advance(&mut self, draws: &[u64], steps: &[Point]) -> (status: UpdateStatus)
        requires
            old(self)@.weights.len() == old(self)@.particles.len(),
            draws@.len() == old(self)@.particles.len(),
            steps@.len() == old(self)@.particles.len(),
        ensures
            final(self)@.particles == advanced(
                old(self)@.particles,
                old(self)@.weights,
                draws@,
                steps@,
            ),
            final(self)@.weights == cumulative(sampling_weights(old(self)@.weights)),
            status == status_of(old(self)@.weights),
    {
        let status = self.normalize_or_uniform();
        proof {
            lemma_sampling_weights_total(old(self)@.weights);
            lemma_cumulative_shape(self@.weights);
        }
        self.set_sampling_weights();
        self.resample_with(draws);
        self.displace(steps);
        status
    }

    /// One update from a reading: every particle is weighed by `weighting`
    /// against the reading `measurement` taken at `drone`; the particles that
    /// live on are chosen as `policy` says; and each is moved by noise of the
    /// standard deviation `noise`. Where the policy draws by weight, weights
    /// that add up to zero are replaced by equal ones.
    pub fn assimilate<L, G>(
        &mut self,
        drone: Point,
        measurement: i64,
        stddev: u32,
        noise: u32,
        policy: Resampling,
        likelihood: &L,
        gaussian: &G,
    ) -> (status: UpdateStatus) where L: Fn(u64) -> u64, G: Fn(u32) -> i32
        requires
            stddev > 0,
            policy_fits(policy, old(self)@.particles.len()),
            forall|z: u64| likelihood.requires((z,)),
            gaussian.requires((noise,)),
        ensures
            assimilated(
                old(self)@,
                final(self)@,
                status,
                drone,
                measurement,
                stddev,
                noise,
                policy,
                likelihood,
                gaussian,
            ),
            final(self)@.particles.len() == old(self)@.particles.len(),
    {
        let weigh = |particle: &Point| -> (weight: u64)
            ensures
                likelihood.ensures(
                    (z_score_spec(drone, *particle, measurement, stddev),),
                    weight,
                ),
            { weighting(drone, *particle, measurement, stddev, likelihood) };
        self.reweight(weigh);
        let ghost weights = self@.weights;
        proof {
            assert forall|i: int| 0 <= i < weights.len() implies likelihood.ensures(
                (z_score_spec(drone, old(self)@.particles[i], measurement, stddev),),
                #[trigger] weights[i],
            ) by {
                assert(weigh.ensures((&old(self)@.particles[i],), weights[i]));
            }
        }
        let status: UpdateStatus;
        let ghost draws: Seq<u64>;
        match policy {
            Resampling::Weighted => {
                status = self.normalize_or_uniform();
                proof {
                    lemma_sampling_weights_total(weights);
                    lemma_cumulative_shape(self@.weights);
                }
                self.set_sampling_weights();
                let ghost sums = self@.weights;
                assert(sums == cumulative(sampling_weights(weights)));
                self.resample();
                proof {
                    draws = choose|draws: Seq<u64>|
                        {
                            &&& draws.len() == old(self)@.particles.len()
                            &&& forall|k: int| 0 <= k < draws.len() ==> draws[k] < WEIGHT_UNIT
                            &&& self@.particles == resampled(old(self)@.particles, sums, draws)
                        };
                    assert(self@.particles == resampled(old(self)@.particles, sums, draws));
                }
            },
            Resampling::Truncate { survivors } => {
                status = if self.sum_weights() > 0 {
                    UpdateStatus::Weighted
                } else {
                    UpdateStatus::Degenerate
                };
                self.truncate_resample(survivors);
                proof {
                    draws = Seq::new(old(self)@.particles.len(), |k: int| 0u64);
                }
            },
        }
        let ghost chosen = self@.particles;
        let ghost held = self@.weights;
        self.random_movement(noise, gaussian);
        proof {
            let steps = choose|steps: Seq<Point>|
                {
                    &&& steps.len() == chosen.len()
                    &&& forall|i: int|
                        0 <= i < steps.len() ==> gaussian.ensures(
                            (noise,),
                            (#[trigger] steps[i]).x,
                        ) && gaussian.ensures((noise,), steps[i].y)
                    &&& self@.particles == displaced(chosen, steps)
                };
            assert(steps.len() == chosen.len());
            assert(self@.particles == displaced(chosen, steps));
            assert(self@.weights == held);
            assert(weights.len() == old(self)@.particles.len());
            assert(draws.len() == old(self)@.particles.len());
            assert(status == status_of(weights));
            assert forall|k: int| 0 <= k < draws.len() implies #[trigger] draws[k] < WEIGHT_UNIT by {}
            match policy {
                Resampling::Weighted => {
                    assert(self@.particles == advanced(
                        old(self)@.particles,
                        weights,
                        draws,
                        steps,
                    ));
                    assert(self@.weights == cumulative(sampling_weights(weights)));
                },
                Resampling::Truncate { survivors } => {
                    assert(held == weights);
                    assert(self@.particles == displaced(
                        refilled(old(self)@.particles, ranking(weights), survivors as int),
                        steps,
                    ));
                },
            }
            assert(assimilated_by(
                old(self)@,
                self@,
                status,
                drone,
                measurement,
                stddev,
                noise,
                policy,
                likelihood,
                gaussian,
                weights,
                draws,
                steps,
            ));
        }
        status
    }

    /// Writes the coordinates of particle `i` to `buffer[i]`, for every
    /// particle. What lies behind them in `buffer` stays.
    pub fn write_particle_pos(&self, buffer: &mut [[i32; 2]])
        requires
            old(buffer)@.len() >= self@.particles.len(),
        ensures
            final(buffer)@.len() == old(buffer)@.len(),
            forall|i: int|
                0 <= i < self@.particles.len() ==> (#[trigger] final(buffer)@[i])[0]
                    == self@.particles[i].x && final(buffer)@[i][1] == self@.particles[i].y,
            forall|i: int|
                self@.particles.len() <= i < old(buffer)@.len() ==> final(buffer)@[i] == old(
                    buffer,
                )@[i],
    {
        let len: usize = self.particles.len();
        let mut i: usize = 0;
        while i < len
            invariant
                0 <= i <= len,
                len == self.particles@.len(),
                buffer@.len() == old(buffer)@.len(),
                buffer@.len() >= len,
                forall|j: int|
                    0 <= j < i ==> (#[trigger] buffer@[j])[0] == self.particles@[j].x
                        && buffer@[j][1] == self.particles@[j].y,
                forall|j: int| len <= j < buffer@.len() ==> buffer@[j] == old(buffer)@[j],
            decreases len - i,
        {
            buffer[i] = [self.particles[i].x, self.particles[i].y];
            i += 1;
        }
    }
}

} // verus!
