//! Directions of travel: vectors of unit length on a fixed-point grid.

use vstd::prelude::*;
use crate::constants::UNIT;
use crate::math::{
    isqrt, is_isqrt, lemma_isqrt_exists, lemma_isqrt_unique, magnitude, spec_isqrt,
};

verus! {

/// The component along the first axis of the unit vector that points the
/// way of `(a, b)`, scaled by [`UNIT`] and rounded toward zero.
///
/// Its magnitude is the floor of `UNIT * |a| / sqrt(a * a + b * b)`.
pub open spec fn unit_component(a: int, b: int) -> int
    recommends
        a != 0 || b != 0,
{
    let c = spec_isqrt(((UNIT * UNIT * (a * a)) / (a * a + b * b)) as nat) as int;
    if a < 0 {
        -c
    } else {
        c
    }
}

/// Whether the pair `(x, y)` has unit length as far as the grid can tell:
/// it lies on or inside the circle of radius [`UNIT`], and the grid point one
/// step further out along both axes lies outside of it.
pub open spec fn is_unit_pair(x: int, y: int) -> bool {
    &&& x * x + y * y <= UNIT * UNIT
    &&& UNIT * UNIT < (magnitude(x) + 1) * (magnitude(x) + 1) + (magnitude(y) + 1) * (magnitude(
        y,
    ) + 1)
}

/// A direction of travel. Every value has unit length in the sense of
/// [`is_unit_pair`]; the type admits no other.
#[derive(Clone, Copy, Debug, PartialEq, Eq, Structural)]
pub struct Direction {
    x: i32,
    y: i32,
}

impl View for Direction {
    type V = (int, int);

    /// The two components, each between `-UNIT` and `UNIT`.
    closed spec fn view(&self) -> (int, int) {
        (self.x as int, self.y as int)
    }
}

/// The magnitude of a 32-bit integer.
fn magnitude_of(v: i32) -> (m: u64)
    ensures
        m == magnitude(v as int),
        m <= 0x8000_0000,
{
    if v < 0 {
        (-(v as i64)) as u64
    } else {
        v as u64
    }
}

/// The magnitude of one component of the unit vector along `(a, b)`, where
/// `n` is `a * a + b * b`.
fn component_magnitude(a: u64, n: u64) -> (c: u32)
    requires
        a <= 0x8000_0000,
        0 < n,
        a * a <= n,
    ensures
        c == spec_isqrt(((UNIT * UNIT * (a * a)) / (n as int)) as nat),
        c <= UNIT,
        c * c * n <= UNIT * UNIT * (a * a),
        UNIT * UNIT * (a * a) < (c + 1) * (c + 1) * n,
{
    assert(a * a <= 0x4000_0000_0000_0000) by (nonlinear_arith)
        requires
            a <= 0x8000_0000,
    ;
    let square: u128 = (a as u128) * (a as u128);
    assert(1_000_000_000_000 * square <= 1_000_000_000_000 * 0x4000_0000_0000_0000)
        by (nonlinear_arith)
        requires
            square <= 0x4000_0000_0000_0000,
    ;
    let scaled: u128 = 1_000_000_000_000u128 * square;
    let quotient: u128 = scaled / (n as u128);
    assert(UNIT * UNIT == 1_000_000_000_000) by (nonlinear_arith)
        requires
            UNIT == 1_000_000,
    ;
    assert(UNIT * UNIT * (a * a) == scaled) by (nonlinear_arith)
        requires
            UNIT * UNIT == 1_000_000_000_000,
            scaled == 1_000_000_000_000 * square,
            square == a * a,
    ;
    assert(quotient <= 1_000_000_000_000 && quotient * n <= scaled < (quotient + 1) * n)
        by (nonlinear_arith)
        requires
            quotient == scaled / (n as u128),
            scaled == 1_000_000_000_000 * square,
            square <= n,
            0 < n,
    ;
    let c: u32 = isqrt(quotient as u64);
    assert(c <= 1_000_000) by (nonlinear_arith)
        requires
            c * c <= quotient,
            quotient <= 1_000_000_000_000,
    ;
    assert(c * c * n <= scaled) by (nonlinear_arith)
        requires
            c * c <= quotient,
            quotient * n <= scaled,
            0 < n,
    ;
    assert(scaled < (c + 1) * (c + 1) * n) by (nonlinear_arith)
        requires
            quotient < (c + 1) * (c + 1),
            scaled < (quotient + 1) * n,
            0 < n,
    ;
    c
}

/// Two components computed for the same vector form a unit pair, whatever
/// signs they are given.
proof fn lemma_components_form_unit_pair(a: int, b: int, ca: int, cb: int)
    requires
        0 < a * a + b * b,
        0 <= ca,
        0 <= cb,
        ca * ca * (a * a + b * b) <= UNIT * UNIT * (a * a),
        UNIT * UNIT * (a * a) < (ca + 1) * (ca + 1) * (a * a + b * b),
        cb * cb * (a * a + b * b) <= UNIT * UNIT * (b * b),
        UNIT * UNIT * (b * b) < (cb + 1) * (cb + 1) * (a * a + b * b),
    ensures
        is_unit_pair(ca, cb),
        is_unit_pair(-ca, cb),
        is_unit_pair(ca, -cb),
        is_unit_pair(-ca, -cb),
{
    let n = a * a + b * b;
    let u = UNIT * UNIT;
    assert(ca * ca + cb * cb <= u) by (nonlinear_arith)
        requires
            0 < n,
            ca * ca * n <= u * (a * a),
            cb * cb * n <= u * (b * b),
            n == a * a + b * b,
    ;
    assert(u < (ca + 1) * (ca + 1) + (cb + 1) * (cb + 1)) by (nonlinear_arith)
        requires
            0 < n,
            u * (a * a) < (ca + 1) * (ca + 1) * n,
            u * (b * b) < (cb + 1) * (cb + 1) * n,
            n == a * a + b * b,
    ;
    assert((-ca) * (-ca) == ca * ca) by (nonlinear_arith);
    assert((-cb) * (-cb) == cb * cb) by (nonlinear_arith);
}

impl Direction {
    /// Whether the direction has unit length on the grid. This holds of
    /// every direction that a program can hold.
    pub open spec fn is_unit(self) -> bool {
        is_unit_pair(self@.0, self@.1)
    }

    /// The invariant of the type: every direction is a unit direction.
    #[verifier::type_invariant]
    pub open spec fn inv(self) -> bool {
        self.is_unit()
    }

    /// The square of the length, in the scale of the components.
    pub open spec fn length_squared(self) -> int {
        self@.0 * self@.0 + self@.1 * self@.1
    }

    /// The component along the horizontal axis.
    pub fn x(&self) -> (r: i32)
        ensures
            r == self@.0,
    {
        self.x
    }

    /// The component along the vertical axis.
    pub fn y(&self) -> (r: i32)
        ensures
            r == self@.1,
    {
        self.y
    }

    /// The direction along the horizontal axis, toward growing `x`.
    pub fn east() -> (d: Direction)
        ensures
            d@ == (UNIT as int, 0int),
            d == Self::spec_east(),
            d.is_unit(),
    {
        assert(is_unit_pair(UNIT as int, 0)) by (nonlinear_arith)
            requires
                UNIT == 1_000_000,
        ;
        Direction { x: UNIT, y: 0 }
    }

    /// The value that [`Direction::east`] returns.
    pub closed spec fn spec_east() -> Direction {
        Direction { x: UNIT, y: 0 }
    }

    /// The unit vector that points the way of `(x, y)`, or `None` for the
    /// zero vector, which points nowhere.
    pub closed spec fn spec_normalized(x: int, y: int) -> Option<Direction> {
        if x == 0 && y == 0 {
            None
        } else {
            Some(Direction { x: unit_component(x, y) as i32, y: unit_component(y, x) as i32 })
        }
    }

    /// Scales the vector `(x, y)` to unit length, each component rounded
    /// toward zero. The zero vector has no direction and gives `None`.
    pub fn normalized(x: i32, y: i32) -> (r: Option<Direction>)
        ensures
            r == Self::spec_normalized(x as int, y as int),
            r is None <==> x == 0 && y == 0,
            r matches Some(d) ==> d@ == (unit_component(x as int, y as int), unit_component(
                y as int,
                x as int,
            )) && d.is_unit(),
    {
        if x == 0 && y == 0 {
            return None;
        }
        let a: u64 = magnitude_of(x);
        let b: u64 = magnitude_of(y);
        assert(a * a <= 0x4000_0000_0000_0000 && b * b <= 0x4000_0000_0000_0000 && 0 < a * a + b
            * b) by (nonlinear_arith)
            requires
                a <= 0x8000_0000,
                b <= 0x8000_0000,
                a != 0 || b != 0,
        ;
        let n: u64 = a * a + b * b;
        assert(a * a == x * x && b * b == y * y) by (nonlinear_arith)
            requires
                a == magnitude(x as int),
                b == magnitude(y as int),
        ;
        let ca: u32 = component_magnitude(a, n);
        let cb: u32 = component_magnitude(b, n);
        proof {
            assert(b * b + a * a == a * a + b * b);
            assert(y * y + x * x == x * x + y * y);
            lemma_components_form_unit_pair(a as int, b as int, ca as int, cb as int);
        }
        let dx: i32 = if x < 0 {
            -(ca as i32)
        } else {
            ca as i32
        };
        let dy: i32 = if y < 0 {
            -(cb as i32)
        } else {
            cb as i32
        };
        Some(Direction { x: dx, y: dy })
    }

    /// This direction with the chosen components negated.
    pub closed spec fn spec_reflected(self, flip_x: bool, flip_y: bool) -> Direction {
        Direction {
            x: if flip_x {
                (-self.x) as i32
            } else {
                self.x
            },
            y: if flip_y {
                (-self.y) as i32
            } else {
                self.y
            },
        }
    }

    /// Mirrors the direction: negates the horizontal component if `flip_x`
    /// is set and the vertical one if `flip_y` is set. The length is kept.
    pub fn reflected(self, flip_x: bool, flip_y: bool) -> (d: Direction)
        ensures
            d == self.spec_reflected(flip_x, flip_y),
            d@.0 == if flip_x { -self@.0 } else { self@.0 },
            d@.1 == if flip_y { -self@.1 } else { self@.1 },
            d.length_squared() == self.length_squared(),
            d.is_unit(),
    {
        proof {
            use_type_invariant(&self);
            lemma_reflected(self, flip_x, flip_y);
        }
        let x: i32 = if flip_x {
            -self.x
        } else {
            self.x
        };
        let y: i32 = if flip_y {
            -self.y
        } else {
            self.y
        };
        Direction { x, y }
    }
}

/// East is a unit direction, a whole [`UNIT`] along the horizontal axis.
pub proof fn lemma_east()
    ensures
        Direction::spec_east()@ == (UNIT as int, 0int),
        Direction::spec_east().is_unit(),
{
    assert(is_unit_pair(UNIT as int, 0)) by (nonlinear_arith)
        requires
            UNIT == 1_000_000,
    ;
}

/// Two directions with the same components are the same direction.
pub proof fn lemma_equal_components(a: Direction, b: Direction)
    requires
        a@ == b@,
    ensures
        a == b,
{
}

/// The components of a unit direction lie between `-UNIT` and `UNIT`, and its
/// length falls short of `UNIT` by less than two steps of the grid.
pub proof fn lemma_unit_bounds(d: Direction)
    requires
        d.is_unit(),
    ensures
        -UNIT <= d@.0 <= UNIT,
        -UNIT <= d@.1 <= UNIT,
        (UNIT - 2) * (UNIT - 2) < d.length_squared() <= UNIT * UNIT,
{
    let x = d@.0;
    let y = d@.1;
    let a = magnitude(x) as int;
    let b = magnitude(y) as int;
    assert(a * a == x * x && b * b == y * y) by (nonlinear_arith)
        requires
            a == magnitude(x),
            b == magnitude(y),
    ;
    assert(a <= 1_000_000 && b <= 1_000_000) by (nonlinear_arith)
        requires
            0 <= a,
            0 <= b,
            a * a + b * b <= 1_000_000 * 1_000_000,
    ;
    assert(a + b <= 1_999_997) by (nonlinear_arith)
        requires
            0 <= a <= 1_000_000,
            0 <= b <= 1_000_000,
            a * a + b * b <= 1_000_000 * 1_000_000,
    ;
    assert((UNIT - 2) * (UNIT - 2) < a * a + b * b) by (nonlinear_arith)
        requires
            UNIT == 1_000_000,
            a + b <= 1_999_997,
            UNIT * UNIT < (a + 1) * (a + 1) + (b + 1) * (b + 1),
    ;
}

/// Mirroring a unit direction negates the chosen components and changes
/// neither its length nor that it is a unit direction.
pub proof fn lemma_reflected(d: Direction, flip_x: bool, flip_y: bool)
    requires
        d.is_unit(),
    ensures
        d.spec_reflected(flip_x, flip_y)@.0 == if flip_x { -d@.0 } else { d@.0 },
        d.spec_reflected(flip_x, flip_y)@.1 == if flip_y { -d@.1 } else { d@.1 },
        d.spec_reflected(flip_x, flip_y).length_squared() == d.length_squared(),
        d.spec_reflected(flip_x, flip_y).is_unit(),
{
    lemma_unit_bounds(d);
    let x = d@.0;
    let y = d@.1;
    assert((-x) * (-x) == x * x) by (nonlinear_arith);
    assert((-y) * (-y) == y * y) by (nonlinear_arith);
}

/// Mirroring twice about the same axes gives the direction back.
pub proof fn lemma_reflected_twice(d: Direction, flip_x: bool, flip_y: bool)
    requires
        d.is_unit(),
    ensures
        d.spec_reflected(flip_x, flip_y).spec_reflected(flip_x, flip_y) == d,
{
    lemma_reflected(d, flip_x, flip_y);
    lemma_reflected(d.spec_reflected(flip_x, flip_y), flip_x, flip_y);
    lemma_equal_components(d.spec_reflected(flip_x, flip_y).spec_reflected(flip_x, flip_y), d);
}

/// The direction after a series of reflections, each given by the pair of
/// axes that it mirrors, applied from the first to the last.
pub open spec fn after_reflections(d: Direction, flips: Seq<(bool, bool)>) -> Direction
    decreases flips.len(),
{
    if flips.len() == 0 {
        d
    } else {
        after_reflections(d, flips.drop_last()).spec_reflected(flips.last().0, flips.last().1)
    }
}

/// However many times a unit direction is mirrored, and about whichever
/// axes, it stays a unit direction of the very same length.
pub proof fn lemma_reflections_keep_length(d: Direction, flips: Seq<(bool, bool)>)
    requires
        d.is_unit(),
    ensures
        after_reflections(d, flips).is_unit(),
        after_reflections(d, flips).length_squared() == d.length_squared(),
        magnitude(after_reflections(d, flips)@.0) == magnitude(d@.0),
        magnitude(after_reflections(d, flips)@.1) == magnitude(d@.1),
    decreases flips.len(),
{
    if flips.len() > 0 {
        lemma_reflections_keep_length(d, flips.drop_last());
        lemma_reflected(
            after_reflections(d, flips.drop_last()),
            flips.last().0,
            flips.last().1,
        );
    }
}

/// Scaling any vector but the zero vector to unit length gives a unit
/// direction, whose components are the unit components of the vector. The
/// zero vector alone has no direction.
pub proof fn lemma_normalized(x: int, y: int)
    ensures
        Direction::spec_normalized(x, y) is None <==> x == 0 && y == 0,
        Direction::spec_normalized(x, y) matches Some(d) ==> d@ == (
            unit_component(x, y),
            unit_component(y, x),
        ) && d.is_unit(),
{
    if x != 0 || y != 0 {
        lemma_normalized_nonzero(x, y);
    }
}

/// What [`lemma_normalized`] says of a vector that is not the zero vector.
proof fn lemma_normalized_nonzero(x: int, y: int)
    requires
        x != 0 || y != 0,
    ensures
        Direction::spec_normalized(x, y) matches Some(d) && d@ == (
            unit_component(x, y),
            unit_component(y, x),
        ) && d.is_unit(),
{
    let n = x * x + y * y;
    assert(0 < n && 0 <= x * x <= n && 0 <= y * y <= n) by (nonlinear_arith)
        requires
            n == x * x + y * y,
            x != 0 || y != 0,
    ;
    lemma_component(x, n);
    lemma_component(y, n);
    let ca = magnitude(unit_component(x, y)) as int;
    let cb = magnitude(unit_component(y, x)) as int;
    assert(y * y + x * x == n);
    lemma_components_form_unit_pair(x, y, ca, cb);
}

/// The unit components of the eight vectors that the axes of an input can
/// form: a whole [`UNIT`] along a single axis, and `707106` along each axis
/// of a diagonal, which is `UNIT` over the square root of two, rounded
/// down.
pub proof fn lemma_axis_components()
    ensures
        unit_component(1, 0) == UNIT,
        unit_component(-1, 0) == -UNIT,
        unit_component(0, 1) == 0,
        unit_component(0, -1) == 0,
        unit_component(1, 1) == 707106,
        unit_component(1, -1) == 707106,
        unit_component(-1, 1) == -707106,
        unit_component(-1, -1) == -707106,
{
    assert(is_isqrt(1_000_000_000_000, 1_000_000)) by (nonlinear_arith);
    assert(is_isqrt(500_000_000_000, 707106)) by (nonlinear_arith);
    assert(is_isqrt(0, 0)) by (nonlinear_arith);
    lemma_isqrt_unique(1_000_000_000_000, 1_000_000);
    lemma_isqrt_unique(500_000_000_000, 707106);
    lemma_isqrt_unique(0, 0);
    lemma_axis_quotient(1, 0);
    lemma_axis_quotient(-1, 0);
    lemma_axis_quotient(0, 1);
    lemma_axis_quotient(0, -1);
    lemma_axis_quotient(1, 1);
    lemma_axis_quotient(1, -1);
    lemma_axis_quotient(-1, 1);
    lemma_axis_quotient(-1, -1);
}

/// The squared unit component of a vector whose coordinates are axes.
proof fn lemma_axis_quotient(a: int, b: int)
    requires
        -1 <= a <= 1,
        -1 <= b <= 1,
        a != 0 || b != 0,
    ensures
        (UNIT * UNIT * (a * a)) / (a * a + b * b) == if a == 0 {
            0int
        } else if b == 0 {
            1_000_000_000_000int
        } else {
            500_000_000_000int
        },
{
    assert(a * a == if a == 0 { 0int } else { 1int }) by (nonlinear_arith)
        requires
            -1 <= a <= 1,
    ;
    assert(b * b == if b == 0 { 0int } else { 1int }) by (nonlinear_arith)
        requires
            -1 <= b <= 1,
    ;
    assert(UNIT * UNIT == 1_000_000_000_000) by (nonlinear_arith)
        requires
            UNIT == 1_000_000,
    ;
    let scaled = UNIT * UNIT * (a * a);
    assert(scaled == if a == 0 { 0int } else { 1_000_000_000_000int }) by (nonlinear_arith)
        requires
            scaled == UNIT * UNIT * (a * a),
            UNIT * UNIT == 1_000_000_000_000,
            a * a == if a == 0 { 0int } else { 1int },
    ;
    let n = a * a + b * b;
    if n == 1 {
        assert(scaled / n == scaled) by (nonlinear_arith)
            requires
                n == 1,
        ;
    } else {
        assert(scaled / n == scaled / 2) by (nonlinear_arith)
            requires
                n == 2,
        ;
    }
}

/// What the floor of the square root says of one unit component, where `n`
/// is the squared length of the vector.
proof fn lemma_component(a: int, n: int)
    requires
        0 < n,
        a * a <= n,
    ensures
        ({
            let c = spec_isqrt(((UNIT * UNIT * (a * a)) / n) as nat) as int;
            &&& 0 <= c <= UNIT
            &&& c * c * n <= UNIT * UNIT * (a * a)
            &&& UNIT * UNIT * (a * a) < (c + 1) * (c + 1) * n
        }),
{
    let scaled = UNIT * UNIT * (a * a);
    let quotient = scaled / n;
    assert(0 <= quotient <= 1_000_000_000_000 && quotient * n <= scaled < (quotient + 1) * n)
        by (nonlinear_arith)
        requires
            quotient == scaled / n,
            scaled == UNIT * UNIT * (a * a),
            UNIT == 1_000_000,
            a * a <= n,
            0 < n,
    ;
    lemma_isqrt_exists(quotient as nat);
    let c = spec_isqrt(quotient as nat) as int;
    assert(is_isqrt(quotient as nat, c as nat));
    assert(c <= 1_000_000) by (nonlinear_arith)
        requires
            0 <= c,
            c * c <= quotient,
            quotient <= 1_000_000_000_000,
    ;
    assert(c * c * n <= scaled) by (nonlinear_arith)
        requires
            c * c <= quotient,
            quotient * n <= scaled,
            0 < n,
    ;
    assert(scaled < (c + 1) * (c + 1) * n) by (nonlinear_arith)
        requires
            quotient < (c + 1) * (c + 1),
            scaled < (quotient + 1) * n,
            0 < n,
    ;
}

} // verus!
