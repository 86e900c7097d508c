//! A particle filter that tracks targets in the plane from noisy range
//! measurements, in fixed-point arithmetic.

pub mod clock;
pub mod filter;
pub mod geometry;
pub mod measurement;
pub mod random;
pub mod ranking;
pub mod sampling;
pub mod state;
pub mod tracker;
pub mod util;
pub mod viewport;
