//! What a run is started with.

use crate::geometry::POSITION_UNIT;
use std::ops::Range;
use vstd::prelude::*;

verus! {

/// The name of the file that holds the configuration, as given on the
/// command line.
#[derive(Clone, Debug)]
pub struct CmdInput {
    pub setup_config: String,
}

/// The box from which the first particles of every tracker are drawn.
#[derive(Debug)]
pub struct StartBox {
    pub h_range: Range<i32>,
    pub v_range: Range<i32>,
}

/// The parameters of a run.
#[derive(Debug)]
pub struct Config {
    /// The number of particles of every tracker.
    pub particle_count: usize,
    /// The colour in which particles are drawn: red, green, blue, opacity.
    pub particle_color: [u8; 4],
    /// The standard deviation of the noise in a reading.
    pub stddev: u32,
    /// The standard deviation of the noise that moves the particles.
    pub noise: u32,
    /// Where the first particles are drawn from.
    pub init_box: StartBox,
    /// For every target its position and the colour in which it is drawn.
    pub animals_pos: Vec<([i32; 2], [u8; 3])>,
}

/// Why a configuration cannot start a run.
#[derive(Clone, Copy, Debug, PartialEq, Eq, Structural)]
pub enum ConfigError {
    /// The number of particles is zero.
    NoParticles,
    /// One of the two ranges of the start box holds no coordinate.
    EmptyRegion,
    /// The standard deviation of the readings is zero.
    ZeroDeviation,
}

/// What `validate` says of a configuration with these values.
pub open spec fn verdict(particle_count: usize, init_box: StartBox, stddev: u32) -> Result<
    (),
    ConfigError,
> {
    if particle_count == 0 {
        Err(ConfigError::NoParticles)
    } else if init_box.h_range.start >= init_box.h_range.end || init_box.v_range.start
        >= init_box.v_range.end {
        Err(ConfigError::EmptyRegion)
    } else if stddev == 0 {
        Err(ConfigError::ZeroDeviation)
    } else {
        Ok(())
    }
}

impl Config {
    /// Whether a run can start with this configuration, and if not, the
    /// first reason why.
    pub fn validate(&self) -> (outcome: Result<(), ConfigError>)
        ensures
            outcome == verdict(self.particle_count, self.init_box, self.stddev),
    {
        if self.particle_count == 0 {
            Err(ConfigError::NoParticles)
        } else if self.init_box.h_range.start >= self.init_box.h_range.end
            || self.init_box.v_range.start >= self.init_box.v_range.end {
            Err(ConfigError::EmptyRegion)
        } else if self.stddev == 0 {
            Err(ConfigError::ZeroDeviation)
        } else {
            Ok(())
        }
    }
}

impl Default for Config {
    /// Five hundred red particles in a box of ten units to each side of the
    /// origin, and one white target at the origin; readings with noise of
    /// half a unit, particles moved by noise of a fifth of a unit.
    fn default() -> (config: Config)
        ensures
            config.particle_count == 500,
            config.particle_color == [255u8, 0u8, 0u8, 77u8],
            config.stddev == POSITION_UNIT / 2,
            config.noise == POSITION_UNIT / 5,
            config.init_box.h_range.start == -10 * POSITION_UNIT,
            config.init_box.h_range.end == 10 * POSITION_UNIT,
            config.init_box.v_range.start == -10 * POSITION_UNIT,
            config.init_box.v_range.end == 10 * POSITION_UNIT,
            config.animals_pos@ == seq![([0i32, 0i32], [255u8, 255u8, 255u8])],
            verdict(config.particle_count, config.init_box, config.stddev).is_ok(),
    {
        let mut animals_pos: Vec<([i32; 2], [u8; 3])> = Vec::new();
        animals_pos.push(([0, 0], [255, 255, 255]));
        proof {
            assert(animals_pos@ =~= seq![([0i32, 0i32], [255u8, 255u8, 255u8])]);
        }
        Config {
            particle_count: 500,
            particle_color: [255, 0, 0, 77],
            animals_pos,
            stddev: 500_000,
            noise: 200_000,
            init_box: StartBox { h_range: -10_000_000..10_000_000, v_range: -10_000_000..10_000_000 },
        }
    }
}

} // verus!
