//! Semantic value types for screen geometry, and the 16.16 fixed-point
//! conversion used by the display server's compositing requests.

use vstd::prelude::*;

verus! {

/// A point on the screen, in signed pixel coordinates.
#[derive(Clone, Copy, Debug, PartialEq, Eq, Structural)]
pub struct Position {
    pub x: i16,
    pub y: i16,
}

/// A width and height in pixels.
#[derive(Clone, Copy, Debug, PartialEq, Eq, Structural)]
pub struct Dimensions {
    pub width: u16,
    pub height: u16,
}

/// A positioned rectangle: the top-left corner and the extent.
#[derive(Clone, Copy, Debug, PartialEq, Eq, Structural)]
pub struct Rect {
    pub x: i16,
    pub y: i16,
    pub width: u16,
    pub height: u16,
}

impl Position {
    pub fn new(x: i16, y: i16) -> (r: Position)
        ensures
            r.x == x,
            r.y == y,
    {
        Position { x, y }
    }
}

impl Dimensions {
    pub fn new(width: u16, height: u16) -> (r: Dimensions)
        ensures
            r.width == width,
            r.height == height,
    {
        Dimensions { width, height }
    }
}

impl Rect {
    pub open spec fn spec_contains_point(self, px: int, py: int) -> bool {
        &&& self.x <= px < self.x + self.width
        &&& self.y <= py < self.y + self.height
    }

    /// Point-in-rectangle test: true exactly when the point lies within
    /// the half-open extent of the rectangle.
    pub fn contains_point(&self, px: i16, py: i16) -> (r: bool)
        ensures
            r == self.spec_contains_point(px as int, py as int),
    {
        let x0: i32 = self.x as i32;
        let y0: i32 = self.y as i32;
        let px32: i32 = px as i32;
        let py32: i32 = py as i32;
        px32 >= x0 && px32 < x0 + self.width as i32 && py32 >= y0 && py32 < y0 + self.height as i32
    }

    pub fn of(pos: Position, dims: Dimensions) -> (r: Rect)
        ensures
            r.x == pos.x,
            r.y == pos.y,
            r.width == dims.width,
            r.height == dims.height,
    {
        Rect { x: pos.x, y: pos.y, width: dims.width, height: dims.height }
    }
}

/// One unit in the display server's 16.16 fixed-point format.
pub open spec fn fixed_one() -> int {
    65536
}

/// Division of `a` by positive `b`, rounded to the nearest integer with
/// halves rounded away from zero.
pub open spec fn round_div(a: int, b: int) -> int
    recommends
        b > 0,
{
    if a >= 0 {
        (2 * a + b) / (2 * b)
    } else {
        -((2 * (-a) + b) / (2 * b))
    }
}

/// The 16.16 fixed-point value of the rational `num / den`.
pub open spec fn spec_to_fixed(num: int, den: int) -> int
    recommends
        den > 0,
{
    round_div(num * fixed_one(), den)
}

/// Converts the rational `num / den` to the 16.16 fixed-point format the
/// display server's render requests use, rounding to the nearest
/// representable value (halves away from zero).
pub fn to_fixed(num: i32, den: i32) -> (r: i32)
    requires
        den > 0,
        -32768 * (den as int) <= num as int <= 32767 * (den as int),
    ensures
        r as int == spec_to_fixed(num as int, den as int),
{
    let b: u64 = den as u64;
    if num >= 0 {
        let a: u64 = (num as u64) * 65536;
        proof {
            assert((num as int) * 65536 <= 32767 * (den as int) * 65536) by (nonlinear_arith)
                requires
                    num as int <= 32767 * (den as int),
            ;
            lemma_round_div_bound_nonneg(a as int, b as int, 32767int * 65536);
        }
        let q: u64 = (2 * a + b) / (2 * b);
        q as i32
    } else {
        let a: u64 = ((-(num as i64)) as u64) * 65536;
        proof {
            assert(-(num as int) * 65536 <= 32768 * (den as int) * 65536) by (nonlinear_arith)
                requires
                    -32768 * (den as int) <= num as int,
            ;
            lemma_round_div_bound_nonneg(a as int, b as int, 32768int * 65536);
        }
        let q: u64 = (2 * a + b) / (2 * b);
        (-(q as i64)) as i32
    }
}

/// For `0 <= a <= bound * b`, the rounded quotient of `a / b` is at most
/// `bound` and at least zero.
proof fn lemma_round_div_bound_nonneg(a: int, b: int, bound: int)
    requires
        b > 0,
        0 <= a,
        0 <= bound,
        a <= bound * b,
    ensures
        0 <= (2 * a + b) / (2 * b) <= bound,
{
    assert(2 * a + b <= 2 * bound * b + b) by (nonlinear_arith)
        requires
            a <= bound * b,
    ;
    assert((2 * a + b) / (2 * b) >= 0) by (nonlinear_arith)
        requires
            b > 0,
            a >= 0,
    ;
    assert((2 * bound * b + b) / (2 * b) <= bound) by (nonlinear_arith)
        requires
            b > 0,
            bound >= 0,
    ;
    assert((2 * a + b) / (2 * b) <= (2 * bound * b + b) / (2 * b)) by (nonlinear_arith)
        requires
            b > 0,
            2 * a + b <= 2 * bound * b + b,
    ;
}

} // verus!
