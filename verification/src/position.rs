//! Points of the playing field and the three things done to them: moving,
//! confining to the window, and measuring against another point.

use vstd::prelude::*;
use crate::constants::{UNIT, UNITS_PER_PIXEL};
use crate::direction::Direction;
use crate::math::{magnitude, saturate, spec_div_toward_zero, spec_saturate};
use crate::window::Window;

verus! {

/// A point of the playing field, in micro-pixels from the lower left corner
/// of the window.
#[derive(Clone, Copy, Debug, PartialEq, Eq, Structural)]
pub struct Position {
    pub x: i64,
    pub y: i64,
}

/// How far a body travels along one axis in `dt` microseconds at `speed`
/// pixels per second, when `component` is the share of that axis in its
/// direction: `component * speed * dt / UNIT` micro-pixels, rounded toward
/// zero.
pub open spec fn spec_travel(component: int, speed: int, dt: int) -> int {
    spec_div_toward_zero(component * speed * dt, UNIT as int)
}

/// The value `v` held to the range from `lo` to `hi`. The lower bound is
/// tested first: where the range is empty, a value below `lo` becomes `lo`
/// and every other value becomes `hi`.
pub open spec fn spec_clamp(v: int, lo: int, hi: int) -> int {
    if v < lo {
        lo
    } else if v > hi {
        hi
    } else {
        v
    }
}

/// The least coordinate at which a body of diameter `size` still lies
/// wholly inside the window: half its size.
pub open spec fn spec_lower_bound(size: u32) -> int {
    size as int / 2
}

/// The greatest coordinate at which a body of diameter `size` still lies
/// wholly inside a window side of the given `length`.
pub open spec fn spec_upper_bound(length: int, size: u32) -> int {
    length - size as int / 2
}

/// Whether a coordinate lies outside the range that a body of diameter
/// `size` may take along a window side of the given `length`.
pub open spec fn spec_out_of_bounds(v: int, length: int, size: u32) -> bool {
    v < spec_lower_bound(size) || v > spec_upper_bound(length, size)
}

/// The distance at which two round bodies of the given diameters touch:
/// the sum of their radii.
pub open spec fn spec_reach(size_a: u32, size_b: u32) -> int {
    size_a as int / 2 + size_b as int / 2
}

/// Computes [`spec_travel`].
fn travel(component: i32, speed: u32, dt: u64) -> (r: i128)
    ensures
        r == spec_travel(component as int, speed as int, dt as int),
        -0x1000_0000_0000_0000_0000_0000_0000 <= r <= 0x1000_0000_0000_0000_0000_0000_0000,
{
    let m: u128 = if component < 0 {
        (-(component as i64)) as u128
    } else {
        component as u128
    };
    assert(m == magnitude(component as int));
    assert(m * speed <= 0x8000_0000 * 0xFFFF_FFFF) by (nonlinear_arith)
        requires
            m <= 0x8000_0000,
            speed <= 0xFFFF_FFFF,
    ;
    let rate: u128 = m * (speed as u128);
    assert(rate * dt <= 0x8000_0000 * 0xFFFF_FFFF * 0xFFFF_FFFF_FFFF_FFFF) by (nonlinear_arith)
        requires
            rate <= 0x8000_0000 * 0xFFFF_FFFF,
            dt <= 0xFFFF_FFFF_FFFF_FFFF,
    ;
    let product: u128 = rate * (dt as u128);
    let quotient: u128 = product / 1_000_000;
    assert(quotient <= 0x1000_0000_0000_0000_0000_0000_0000) by {
        assert(0x8000_0000 * 0xFFFF_FFFF * 0xFFFF_FFFF_FFFF_FFFF
            <= 0x8000_0000_0000_0000_0000_0000_0000_0000) by (nonlinear_arith);
    }
    assert(product == m * speed * dt);
    if component < 0 {
        assert(component * speed * dt == -(m * speed * dt)) by (nonlinear_arith)
            requires
                component == -m,
        ;
        -(quotient as i128)
    } else {
        assert(component * speed * dt == m * speed * dt) by (nonlinear_arith)
            requires
                component == m,
        ;
        quotient as i128
    }
}

impl Position {
    /// The point at the given whole pixels.
    pub fn from_pixels(x: i32, y: i32) -> (p: Position)
        ensures
            p.x == x * UNITS_PER_PIXEL,
            p.y == y * UNITS_PER_PIXEL,
    {
        Position { x: (x as i64) * UNITS_PER_PIXEL, y: (y as i64) * UNITS_PER_PIXEL }
    }

    /// The point reached from this one by travelling along `direction` for
    /// `dt` microseconds at `speed` pixels per second. A coordinate that
    /// would leave the 64-bit range stays at the bound.
    pub open spec fn spec_advanced(self, direction: Direction, speed: u32, dt: u64) -> Position {
        Position {
            x: spec_saturate(self.x + spec_travel(direction@.0, speed as int, dt as int)) as i64,
            y: spec_saturate(self.y + spec_travel(direction@.1, speed as int, dt as int)) as i64,
        }
    }

    /// Moves the point along `direction` for `dt` microseconds at `speed`
    /// pixels per second.
    pub fn advanced(self, direction: Direction, speed: u32, dt: u64) -> (p: Position)
        ensures
            p == self.spec_advanced(direction, speed, dt),
    {
        let step_x: i128 = travel(direction.x(), speed, dt);
        let step_y: i128 = travel(direction.y(), speed, dt);
        Position { x: saturate(self.x as i128 + step_x), y: saturate(self.y as i128 + step_y) }
    }

    /// The point held inside the window, so that a body of diameter `size`
    /// centred on it does not reach over an edge. See [`spec_clamp`] for a
    /// window narrower than the body.
    pub open spec fn spec_confined(self, window: Window, size: u32) -> Position {
        Position {
            x: spec_clamp(
                self.x as int,
                spec_lower_bound(size),
                spec_upper_bound(window.spec_width(), size),
            ) as i64,
            y: spec_clamp(
                self.y as int,
                spec_lower_bound(size),
                spec_upper_bound(window.spec_height(), size),
            ) as i64,
        }
    }

    /// Whether a body of diameter `size` centred on this point lies wholly
    /// inside the window.
    pub open spec fn spec_inside(self, window: Window, size: u32) -> bool {
        &&& !spec_out_of_bounds(self.x as int, window.spec_width(), size)
        &&& !spec_out_of_bounds(self.y as int, window.spec_height(), size)
    }

    /// Clamps the point into the window, leaving room for half of `size` on
    /// every side. In a window that is at least `size` wide and high the
    /// result lies wholly inside.
    pub fn confined(self, window: &Window, size: u32) -> (p: Position)
        ensures
            p == self.spec_confined(*window, size),
            window.spec_width() >= size && window.spec_height() >= size ==> p.spec_inside(
                *window,
                size,
            ),
    {
        let half: i64 = (size / 2) as i64;
        let x_min: i64 = half;
        let x_max: i64 = window.width() - half;
        let y_min: i64 = half;
        let y_max: i64 = window.height() - half;
        let mut p: Position = self;
        if p.x < x_min {
            p.x = x_min;
        } else if p.x > x_max {
            p.x = x_max;
        }
        if p.y < y_min {
            p.y = y_min;
        } else if p.y > y_max {
            p.y = y_max;
        }
        p
    }

    /// Whether the point lies left or right of the range that the window
    /// leaves to the centre of a body of diameter `size`.
    pub fn out_of_bounds_x(self, window: &Window, size: u32) -> (r: bool)
        ensures
            r == spec_out_of_bounds(self.x as int, window.spec_width(), size),
    {
        let half: i64 = (size / 2) as i64;
        self.x < half || self.x > window.width() - half
    }

    /// Whether the point lies below or above the range that the window
    /// leaves to the centre of a body of diameter `size`.
    pub fn out_of_bounds_y(self, window: &Window, size: u32) -> (r: bool)
        ensures
            r == spec_out_of_bounds(self.y as int, window.spec_height(), size),
    {
        let half: i64 = (size / 2) as i64;
        self.y < half || self.y > window.height() - half
    }

    /// The square of the distance between two points.
    pub open spec fn distance_squared(self, other: Position) -> int {
        (self.x - other.x) * (self.x - other.x) + (self.y - other.y) * (self.y - other.y)
    }

    /// Whether two round bodies of the given diameters, centred on the two
    /// points, overlap: whether the distance between the points is less
    /// than the sum of the radii.
    pub open spec fn spec_overlaps(self, size: u32, other: Position, other_size: u32) -> bool {
        self.distance_squared(other) < spec_reach(size, other_size) * spec_reach(size, other_size)
    }

    /// Tests two round bodies for overlap.
    pub fn overlaps(self, size: u32, other: Position, other_size: u32) -> (r: bool)
        ensures
            r == self.spec_overlaps(size, other, other_size),
    {
        let reach: u64 = (size / 2) as u64 + (other_size / 2) as u64;
        let dx: u64 = gap(self.x, other.x);
        let dy: u64 = gap(self.y, other.y);
        assert(dx * dx == (self.x - other.x) * (self.x - other.x)) by (nonlinear_arith)
            requires
                dx == magnitude(self.x - other.x),
        ;
        assert(dy * dy == (self.y - other.y) * (self.y - other.y)) by (nonlinear_arith)
            requires
                dy == magnitude(self.y - other.y),
        ;
        if dx >= reach || dy >= reach {
            assert(dx * dx + dy * dy >= reach * reach) by (nonlinear_arith)
                requires
                    dx >= reach || dy >= reach,
                    0 <= dx,
                    0 <= dy,
                    0 <= reach,
            ;
            return false;
        }
        assert(dx * dx <= 0xFFFF_FFFF * 0xFFFF_FFFF && dy * dy <= 0xFFFF_FFFF * 0xFFFF_FFFF && reach
            * reach <= 0xFFFF_FFFF * 0xFFFF_FFFF) by (nonlinear_arith)
            requires
                dx < reach,
                dy < reach,
                reach <= 0xFFFF_FFFF,
        ;
        (dx as u128) * (dx as u128) + (dy as u128) * (dy as u128) < (reach as u128) * (reach as u128)
    }
}

/// The distance between two coordinates.
fn gap(a: i64, b: i64) -> (d: u64)
    ensures
        d == magnitude(a - b),
{
    if a >= b {
        ((a as i128) - (b as i128)) as u64
    } else {
        ((b as i128) - (a as i128)) as u64
    }
}

} // verus!
