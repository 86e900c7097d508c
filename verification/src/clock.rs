//! The cadence of the ticks: a tick falls due whenever a quarter of a second
//! of elapsed time has gathered.

use vstd::prelude::*;

verus! {

/// The time between two ticks, in steps of `1 / TIME_UNIT` of a second.
pub const TICK_PERIOD: u32 = 250_000;

/// The time that has gathered since the last tick.
#[derive(Clone, Copy, Debug, PartialEq, Eq, Structural)]
pub struct TickTimer {
    /// The gathered time that no tick has used up yet.
    pub pending: u32,
}

/// The time gathered after `elapsed` more has passed, held to the range of
/// `u32`.
pub open spec fn gathered(pending: u32, elapsed: u32) -> u32 {
    if pending + elapsed > u32::MAX {
        u32::MAX
    } else {
        (pending + elapsed) as u32
    }
}

impl TickTimer {
    /// A timer with no time gathered.
    pub fn new() -> (timer: TickTimer)
        ensures
            timer.pending == 0,
    {
        TickTimer { pending: 0 }
    }

    /// Adds `elapsed` to the gathered time. Where a full period has gathered,
    /// a tick is due and uses up one period; what is left stays gathered.
    pub fn advance(&mut self, elapsed: u32) -> (due: bool)
        ensures
            due == (gathered(old(self).pending, elapsed) >= TICK_PERIOD),
            due ==> final(self).pending == gathered(old(self).pending, elapsed) - TICK_PERIOD,
            !due ==> final(self).pending == gathered(old(self).pending, elapsed),
    {
        let sum: u64 = self.pending as u64 + elapsed as u64;
        let held: u32 = if sum > u32::MAX as u64 {
            u32::MAX
        } else {
            sum as u32
        };
        if held >= TICK_PERIOD {
            self.pending = held - TICK_PERIOD;
            true
        } else {
            self.pending = held;
            false
        }
    }
}

} // verus!
