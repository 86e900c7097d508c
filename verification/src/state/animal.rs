//! A target as the scheduler knows it.

use crate::geometry::Point;
use vstd::prelude::*;

verus! {

/// A target: where it is, and how noisy the readings of its range are.
#[derive(Clone, Copy, Debug)]
pub struct Animal {
    /// The colour in which the target is drawn: red, green, blue.
    pub color: [u8; 3],
    /// The true position of the target.
    pub position: Point,
    /// The standard deviation of the noise in a reading of the target's range.
    pub signal_stddev: u32,
}

impl Animal {
    /// The target at `position`, drawn in `color`, whose readings carry noise
    /// of the standard deviation `signal_stddev`.
    pub fn new(position: Point, signal_stddev: u32, color: [u8; 3]) -> (animal: Animal)
        ensures
            animal.position == position,
            animal.signal_stddev == signal_stddev,
            animal.color == color,
    {
        Animal { color, position, signal_stddev }
    }
}

} // verus!
