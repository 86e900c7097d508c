//! Points of the plane in fixed-point coordinates.
//!
//! A coordinate counts in steps of `1 / POSITION_UNIT` of a unit of length.
//! Distances and standard deviations of positions count in the same steps.

use vstd::prelude::*;

verus! {

/// The fixed-point value that stands for one unit of length.
pub const POSITION_UNIT: i32 = 1_000_000;

/// A point of the plane.
#[derive(Clone, Copy, Debug, PartialEq, Eq, Structural)]
pub struct Point {
    pub x: i32,
    pub y: i32,
}

/// `value` held to the range of a coordinate.
pub open spec fn clamp_coordinate(value: int) -> i32 {
    if value < i32::MIN {
        i32::MIN
    } else if value > i32::MAX {
        i32::MAX
    } else {
        value as i32
    }
}

/// The square of the distance between `a` and `b`.
pub open spec fn squared_distance(a: Point, b: Point) -> nat {
    ((a.x - b.x) * (a.x - b.x) + (a.y - b.y) * (a.y - b.y)) as nat
}

/// `root` is the square root of `value`, rounded down.
pub open spec fn is_floor_sqrt(value: nat, root: nat) -> bool {
    root * root <= value < (root + 1) * (root + 1)
}

/// The distance between `a` and `b`, rounded down to a whole step.
pub open spec fn distance_spec(a: Point, b: Point) -> nat {
    choose|d: nat| is_floor_sqrt(squared_distance(a, b), d)
}

/// A number has one rounded-down square root.
pub proof fn lemma_floor_sqrt_unique(value: nat, r1: nat, r2: nat)
    requires
        is_floor_sqrt(value, r1),
        is_floor_sqrt(value, r2),
    ensures
        r1 == r2,
{
    assert(r1 == r2) by (nonlinear_arith)
        requires
            r1 * r1 <= value,
            value < (r1 + 1) * (r1 + 1),
            r2 * r2 <= value,
            value < (r2 + 1) * (r2 + 1),
    ;
}

/// The square root of `value`, rounded down.
pub fn floor_sqrt(value: u128) -> (root: u64)
    requires
        value < 0x4_0000_0000_0000_0000,
    ensures
        is_floor_sqrt(value as nat, root as nat),
        root < 0x2_0000_0000,
{
    let mut lo: u128 = 0;
    let mut hi: u128 = 0x2_0000_0000;
    assert(hi * hi == 0x4_0000_0000_0000_0000) by (nonlinear_arith)
        requires
            hi == 0x2_0000_0000,
    ;
    while hi - lo > 1
        invariant
            lo < hi <= 0x2_0000_0000,
            lo * lo <= value,
            value < hi * hi,
        decreases hi - lo,
    {
        let mid: u128 = lo + (hi - lo) / 2;
        assert(mid * mid < 0x4_0000_0000_0000_0000) by (nonlinear_arith)
            requires
                mid < 0x2_0000_0000,
        ;
        if mid * mid <= value {
            lo = mid;
        } else {
            hi = mid;
        }
    }
    lo as u64
}

impl Point {
    /// The point with the coordinates `x` and `y`.
    pub fn new(x: i32, y: i32) -> (p: Point)
        ensures
            p == (Point { x, y }),
    {
        Point { x, y }
    }

    /// The point moved by `dx` and `dy`. A coordinate that would leave the
    /// range of `i32` stops at the end of the range.
    pub open spec fn offset_spec(self, dx: int, dy: int) -> Point {
        Point { x: clamp_coordinate(self.x + dx), y: clamp_coordinate(self.y + dy) }
    }

    /// The point moved by `dx` and `dy`. A coordinate that would leave the
    /// range of `i32` stops at the end of the range.
    pub fn offset(self, dx: i32, dy: i32) -> (p: Point)
        ensures
            p == self.offset_spec(dx as int, dy as int),
    {
        Point { x: saturating_sum(self.x, dx), y: saturating_sum(self.y, dy) }
    }
}

/// `a + b`, held to the range of a coordinate.
pub fn saturating_sum(a: i32, b: i32) -> (s: i32)
    ensures
        s == clamp_coordinate(a + b),
{
    let wide: i64 = a as i64 + b as i64;
    if wide < i32::MIN as i64 {
        i32::MIN
    } else if wide > i32::MAX as i64 {
        i32::MAX
    } else {
        wide as i32
    }
}

/// The distance between `a` and `b`, rounded down to a whole step.
pub fn distance(a: Point, b: Point) -> (d: u64)
    ensures
        is_floor_sqrt(squared_distance(a, b), d as nat),
        d == distance_spec(a, b),
        d < 0x2_0000_0000,
{
    let dx: i64 = a.x as i64 - b.x as i64;
    let dy: i64 = a.y as i64 - b.y as i64;
    assert(dx * dx <= 0x1_0000_0000_0000_0000 && dx * dx >= 0) by (nonlinear_arith)
        requires
            -0x1_0000_0000 <= dx <= 0x1_0000_0000,
    ;
    assert(dy * dy <= 0x1_0000_0000_0000_0000 && dy * dy >= 0) by (nonlinear_arith)
        requires
            -0x1_0000_0000 <= dy <= 0x1_0000_0000,
    ;
    let sx: u128 = (dx as i128 * dx as i128) as u128;
    let sy: u128 = (dy as i128 * dy as i128) as u128;
    let d = floor_sqrt(sx + sy);
    proof {
        let witness = distance_spec(a, b);
        assert(is_floor_sqrt(squared_distance(a, b), d as nat));
        lemma_floor_sqrt_unique(squared_distance(a, b), d as nat, witness);
    }
    d
}

} // verus!
