//! Two-dimensional vectors: positions, sizes, velocities and directions.

use vstd::prelude::*;
use crate::layout::UNIT_LENGTH;
use crate::math::{
    clamp, div_toward_zero, is_sqrt_floor, isqrt, lemma_quot_bounds, lemma_sqrt_floor_exists,
    magnitude, quot, sqrt_floor,
};

verus! {

/// The largest coordinate a vector can hold; the smallest is its negative, so
/// that every vector has a mirror image.
pub const COORD_MAX: i32 = 0x7fff_ffff;

/// `v` held to the range of a coordinate.
pub open spec fn saturate(v: int) -> int {
    clamp(v, -COORD_MAX, COORD_MAX as int)
}

/// A point of the plane with whole coordinates of any size: what a [`Vec2`]
/// stands for.
pub struct Point {
    pub x: int,
    pub y: int,
}

impl Point {
    /// Whether both coordinates fit in a [`Vec2`].
    pub open spec fn in_range(self) -> bool {
        &&& -COORD_MAX <= self.x <= COORD_MAX
        &&& -COORD_MAX <= self.y <= COORD_MAX
    }

    /// The nearest point that a [`Vec2`] can hold.
    pub open spec fn saturate(self) -> Point {
        Point { x: saturate(self.x), y: saturate(self.y) }
    }

    /// The sum of two vectors.
    pub open spec fn plus(self, other: Point) -> Point {
        Point { x: self.x + other.x, y: self.y + other.y }
    }

    /// The mirror image across the vertical axis.
    pub open spec fn flip_x(self) -> Point {
        Point { x: -self.x, y: self.y }
    }

    /// The mirror image across the horizontal axis.
    pub open spec fn flip_y(self) -> Point {
        Point { x: self.x, y: -self.y }
    }

    /// The square of the vector's length.
    pub open spec fn norm_sq(self) -> int {
        self.x * self.x + self.y * self.y
    }

    /// The length of the vector in `UNIT_LENGTH`-ths of a coordinate unit,
    /// rounded down.
    pub open spec fn fine_length(self) -> nat {
        sqrt_floor((self.norm_sq() * UNIT_LENGTH * UNIT_LENGTH) as nat)
    }

    /// The vector of length `UNIT_LENGTH` that points the same way: each
    /// coordinate, taken `UNIT_LENGTH` times in `UNIT_LENGTH`-ths, divided
    /// by the fine length and rounded toward zero. The zero vector has no
    /// direction and stays zero.
    pub open spec fn normalized(self) -> Point {
        if self.x == 0 && self.y == 0 {
            self
        } else {
            Point {
                x: quot(self.x * UNIT_LENGTH * UNIT_LENGTH, self.fine_length() as int),
                y: quot(self.y * UNIT_LENGTH * UNIT_LENGTH, self.fine_length() as int),
            }
        }
    }

    /// The vector stretched by `length / UNIT_LENGTH`, each coordinate
    /// rounded toward zero: applied to a normalized direction, the vector of
    /// that length in that direction.
    pub open spec fn scaled(self, length: int) -> Point {
        Point {
            x: quot(self.x * length, UNIT_LENGTH as int),
            y: quot(self.y * length, UNIT_LENGTH as int),
        }
    }
}

/// A vector with coordinates between `-COORD_MAX` and `COORD_MAX`.
#[derive(Clone, Copy, Debug, PartialEq, Eq, Structural)]
pub struct Vec2 {
    x: i32,
    y: i32,
}

impl View for Vec2 {
    type V = Point;

    closed spec fn view(&self) -> Point {
        Point { x: self.x as int, y: self.y as int }
    }
}

impl Vec2 {
    #[verifier::type_invariant]
    spec fn coordinates_in_range(self) -> bool {
        &&& -COORD_MAX <= self.x <= COORD_MAX
        &&& -COORD_MAX <= self.y <= COORD_MAX
    }

    /// The vector `(x, y)`, each coordinate held to the coordinate range.
    pub fn new(x: i64, y: i64) -> (v: Vec2)
        ensures
            v@ == (Point { x: x as int, y: y as int }).saturate(),
    {
        let lo: i64 = -(COORD_MAX as i64);
        let hi: i64 = COORD_MAX as i64;
        let cx: i64 = if x < lo {
            lo
        } else if x > hi {
            hi
        } else {
            x
        };
        let cy: i64 = if y < lo {
            lo
        } else if y > hi {
            hi
        } else {
            y
        };
        Vec2 { x: cx as i32, y: cy as i32 }
    }

    /// The horizontal coordinate.
    pub fn x(&self) -> (x: i32)
        ensures
            x == self@.x,
            -COORD_MAX <= x <= COORD_MAX,
    {
        proof {
            use_type_invariant(self);
        }
        self.x
    }

    /// The vertical coordinate.
    pub fn y(&self) -> (y: i32)
        ensures
            y == self@.y,
            -COORD_MAX <= y <= COORD_MAX,
    {
        proof {
            use_type_invariant(self);
        }
        self.y
    }

    /// The mirror image across the vertical axis.
    pub fn flip_x(self) -> (v: Vec2)
        ensures
            v@ == self@.flip_x(),
    {
        proof {
            use_type_invariant(self);
        }
        Vec2 { x: -self.x, y: self.y }
    }

    /// The mirror image across the horizontal axis.
    pub fn flip_y(self) -> (v: Vec2)
        ensures
            v@ == self@.flip_y(),
    {
        proof {
            use_type_invariant(self);
        }
        Vec2 { x: self.x, y: -self.y }
    }

    /// The vector of length `UNIT_LENGTH` that points the same way.
    pub fn normalize(self) -> (v: Vec2)
        ensures
            v@ == self@.normalized(),
    {
        let x: i128 = self.x() as i128;
        let y: i128 = self.y() as i128;
        if x == 0 && y == 0 {
            return self;
        }
        let one: i128 = UNIT_LENGTH as i128;
        proof {
            lemma_normalized_fits(self@);
            assert(0 <= x * x <= 0x4000_0000_0000_0000) by (nonlinear_arith)
                requires
                    -0x8000_0000 <= x <= 0x8000_0000,
            ;
            assert(0 <= y * y <= 0x4000_0000_0000_0000) by (nonlinear_arith)
                requires
                    -0x8000_0000 <= y <= 0x8000_0000,
            ;
            assert(-0x8000_0000_0000 <= x * one <= 0x8000_0000_0000) by (nonlinear_arith)
                requires
                    -0x8000_0000 <= x <= 0x8000_0000,
                    one == 65536,
            ;
            assert(-0x8000_0000_0000 <= y * one <= 0x8000_0000_0000) by (nonlinear_arith)
                requires
                    -0x8000_0000 <= y <= 0x8000_0000,
                    one == 65536,
            ;
        }
        let norm_sq: i128 = x * x + y * y;
        let fine_sq: i128 = norm_sq * one * one;
        let len: i128 = isqrt(fine_sq as u128) as i128;
        let nx: i128 = div_toward_zero(x * one * one, len);
        let ny: i128 = div_toward_zero(y * one * one, len);
        Vec2 { x: nx as i32, y: ny as i32 }
    }

    /// The vector stretched by `length / UNIT_LENGTH`, held to the
    /// coordinate range.
    pub fn scale(self, length: i32) -> (v: Vec2)
        ensures
            v@ == self@.scaled(length as int).saturate(),
    {
        let x: i128 = self.x() as i128;
        let y: i128 = self.y() as i128;
        let l: i128 = length as i128;
        proof {
            assert(-0x4000_0000_0000_0000 <= x * l <= 0x4000_0000_0000_0000) by (nonlinear_arith)
                requires
                    -0x8000_0000 <= x <= 0x8000_0000,
                    -0x8000_0000 <= l <= 0x8000_0000,
            ;
            assert(-0x4000_0000_0000_0000 <= y * l <= 0x4000_0000_0000_0000) by (nonlinear_arith)
                requires
                    -0x8000_0000 <= y <= 0x8000_0000,
                    -0x8000_0000 <= l <= 0x8000_0000,
            ;
            lemma_quot_bounds(x * l, UNIT_LENGTH as int);
            lemma_quot_bounds(y * l, UNIT_LENGTH as int);
        }
        let sx: i128 = div_toward_zero(x * l, UNIT_LENGTH as i128);
        let sy: i128 = div_toward_zero(y * l, UNIT_LENGTH as i128);
        Vec2::new(sx as i64, sy as i64)
    }
}

/// Two vectors that stand for the same point are the same vector.
pub proof fn lemma_view_injective(a: Vec2, b: Vec2)
    requires
        a@ == b@,
    ensures
        a == b,
{
}

/// A coordinate of a nonzero vector, taken in `UNIT_LENGTH`-ths, is no
/// longer than the vector itself, and the vector's fine length is at least
/// `UNIT_LENGTH`.
proof fn lemma_fine_length(p: Point)
    requires
        p.x != 0 || p.y != 0,
    ensures
        p.fine_length() >= UNIT_LENGTH,
        magnitude(p.x) * UNIT_LENGTH <= p.fine_length(),
        magnitude(p.y) * UNIT_LENGTH <= p.fine_length(),
        is_sqrt_floor((p.norm_sq() * UNIT_LENGTH * UNIT_LENGTH) as nat, p.fine_length()),
{
    let u = UNIT_LENGTH as int;
    let ax = magnitude(p.x);
    let ay = magnitude(p.y);
    let n = p.norm_sq();
    assert(n == ax * ax + ay * ay && n >= 1 && ax * ax <= n && ay * ay <= n) by (nonlinear_arith)
        requires
            n == p.x * p.x + p.y * p.y,
            ax == magnitude(p.x),
            ay == magnitude(p.y),
            p.x != 0 || p.y != 0,
    ;
    let fine = n * u * u;
    assert(fine >= u * u && fine == n * (u * u)) by (nonlinear_arith)
        requires
            fine == n * u * u,
            n >= 1,
            u > 0,
    ;
    lemma_sqrt_floor_exists(fine as nat);
    let len = p.fine_length() as int;
    assert(len == sqrt_floor(fine as nat));
    assert(len >= u) by (nonlinear_arith)
        requires
            u * u <= fine,
            fine < (len + 1) * (len + 1),
            len >= 0,
            u > 0,
    ;
    assert(ax * u <= len) by (nonlinear_arith)
        requires
            ax * ax <= n,
            fine == n * (u * u),
            fine < (len + 1) * (len + 1),
            len >= 0,
            ax >= 0,
            u > 0,
    ;
    assert(ay * u <= len) by (nonlinear_arith)
        requires
            ay * ay <= n,
            fine == n * (u * u),
            fine < (len + 1) * (len + 1),
            len >= 0,
            ay >= 0,
            u > 0,
    ;
}

/// A normalized vector is no longer than `UNIT_LENGTH` along either axis and
/// points into the same quadrant as the vector it came from.
pub proof fn lemma_normalized_fits(p: Point)
    ensures
        magnitude(p.normalized().x) <= UNIT_LENGTH,
        magnitude(p.normalized().y) <= UNIT_LENGTH,
        p.x >= 0 ==> p.normalized().x >= 0,
        p.x <= 0 ==> p.normalized().x <= 0,
        p.y >= 0 ==> p.normalized().y >= 0,
        p.y <= 0 ==> p.normalized().y <= 0,
        p.x != 0 || p.y != 0 ==> p.fine_length() >= UNIT_LENGTH,
{
    if p.x != 0 || p.y != 0 {
        lemma_fine_length(p);
        let u = UNIT_LENGTH as int;
        let len = p.fine_length() as int;
        lemma_axis_fits(p.x, u, len);
        lemma_axis_fits(p.y, u, len);
        assert(p.x * UNIT_LENGTH * UNIT_LENGTH == p.x * u * u);
        assert(p.y * UNIT_LENGTH * UNIT_LENGTH == p.y * u * u);
    }
}

/// One coordinate of the normalization: if `c` taken `u` times is at most
/// `len`, then `c * u * u / len` is at most `u`, and has the sign of `c`.
proof fn lemma_axis_fits(c: int, u: int, len: int)
    requires
        u > 0,
        len > 0,
        magnitude(c) * u <= len,
    ensures
        magnitude(quot(c * u * u, len)) <= u,
        c >= 0 ==> quot(c * u * u, len) >= 0,
        c <= 0 ==> quot(c * u * u, len) <= 0,
{
    let a = magnitude(c);
    let num = c * u * u;
    assert(magnitude(num) == a * u * u && (c > 0 ==> num > 0) && (c < 0 ==> num < 0) && (c == 0
        ==> num == 0)) by (nonlinear_arith)
        requires
            num == c * u * u,
            a == magnitude(c),
            u > 0,
    ;
    lemma_quot_bounds(num, len);
    assert((a * u * u) / len <= u) by (nonlinear_arith)
        requires
            a * u <= len,
            a >= 0,
            u > 0,
            len > 0,
    ;
}

} // verus!
