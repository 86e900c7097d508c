//! The window as a view of the plane: the window shows the square that
//! reaches `VIEW_EXTENT` from the origin to every side.

use crate::geometry::{clamp_coordinate, Point};
use vstd::prelude::*;

verus! {

/// How far the view reaches from the origin to every side: ten units of
/// length.
pub const VIEW_EXTENT: i32 = 10_000_000;

/// Where in the view a pixel lies along one axis that is `size` pixels long
/// and runs in the direction of the coordinate: the first pixel lies at
/// `-VIEW_EXTENT` and the end of the axis at `VIEW_EXTENT`, rounded down to a
/// whole step and held to the range of a coordinate.
pub open spec fn along_axis(pixel: i32, size: u32) -> i32 {
    clamp_coordinate(pixel * (2 * VIEW_EXTENT) / (size as int) - VIEW_EXTENT)
}

/// The point of the plane that the pixel `cursor` of a window of `width` by
/// `height` pixels shows. Pixels count from the upper left corner, to the
/// right and downwards; the plane's second coordinate points upwards.
pub open spec fn screen_to_world_spec(cursor: Point, width: u32, height: u32) -> Point {
    Point {
        x: along_axis(cursor.x, width),
        y: clamp_coordinate(-(along_axis(cursor.y, height) as int)),
    }
}

/// A quotient rounded down lies between zero and its numerator.
proof fn lemma_quotient_bounds(numerator: int, divisor: int)
    requires
        divisor > 0,
    ensures
        numerator >= 0 ==> 0 <= numerator / divisor <= numerator,
        numerator < 0 ==> numerator <= numerator / divisor < 0,
{
    let q = numerator / divisor;
    let r = numerator % divisor;
    vstd::arithmetic::div_mod::lemma_fundamental_div_mod(numerator, divisor);
    vstd::arithmetic::div_mod::lemma_mod_bound(numerator, divisor);
    assert((numerator >= 0 ==> 0 <= q <= numerator) && (numerator < 0 ==> numerator <= q < 0))
        by (nonlinear_arith)
        requires
            numerator == divisor * q + r,
            0 <= r < divisor,
    ;
}

/// `numerator / divisor`, rounded down.
fn floor_div(numerator: i64, divisor: i64) -> (quotient: i64)
    requires
        divisor > 0,
        numerator > i64::MIN,
    ensures
        quotient == numerator as int / divisor as int,
{
    if numerator >= 0 {
        numerator / divisor
    } else {
        let up: i64 = (-numerator) / divisor;
        let exact: bool = (-numerator) % divisor == 0;
        proof {
            let n = numerator as int;
            let d = divisor as int;
            vstd::arithmetic::div_mod::lemma_fundamental_div_mod(-n, d);
            vstd::arithmetic::div_mod::lemma_mod_bound(-n, d);
            let q = (-n) / d;
            let r = (-n) % d;
            if r == 0 {
                assert(n == (-q) * d + 0) by (nonlinear_arith)
                    requires
                        -n == d * q + r,
                        r == 0,
                ;
                vstd::arithmetic::div_mod::lemma_fundamental_div_mod_converse(n, d, -q, 0);
            } else {
                assert(n == (-q - 1) * d + (d - r)) by (nonlinear_arith)
                    requires
                        -n == d * q + r,
                ;
                vstd::arithmetic::div_mod::lemma_fundamental_div_mod_converse(
                    n,
                    d,
                    -q - 1,
                    d - r,
                );
            }
        }
        if exact {
            -up
        } else {
            -up - 1
        }
    }
}

/// Where in the view a pixel lies along one axis of `size` pixels.
fn pixel_along_axis(pixel: i32, size: u32) -> (coordinate: i32)
    requires
        size > 0,
    ensures
        coordinate == along_axis(pixel, size),
{
    let span: i64 = 2 * (VIEW_EXTENT as i64);
    assert(-0x8000_0000 * 20_000_000 <= pixel * 20_000_000 <= 0x8000_0000 * 20_000_000)
        by (nonlinear_arith)
        requires
            -0x8000_0000 <= pixel <= 0x8000_0000,
    ;
    let scaled: i64 = floor_div(pixel as i64 * span, size as i64);
    proof {
        lemma_quotient_bounds(pixel * 20_000_000, size as int);
    }
    let moved: i64 = scaled - VIEW_EXTENT as i64;
    if moved < i32::MIN as i64 {
        i32::MIN
    } else if moved > i32::MAX as i64 {
        i32::MAX
    } else {
        moved as i32
    }
}

/// The point of the plane that the pixel `cursor` of a window of `width` by
/// `height` pixels shows.
pub fn screen_to_world(cursor: Point, width: u32, height: u32) -> (world: Point)
    requires
        width > 0,
        height > 0,
    ensures
        world == screen_to_world_spec(cursor, width, height),
{
    let x: i32 = pixel_along_axis(cursor.x, width);
    let down: i32 = pixel_along_axis(cursor.y, height);
    let y: i32 = if down == i32::MIN {
        i32::MAX
    } else {
        -down
    };
    Point { x, y }
}

} // verus!
