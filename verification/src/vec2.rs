//! 2D integer vectors and the saturating arithmetic the simulation uses.
//!
//! Coordinates are `i32` milliunits. Additions that could leave the `i32`
//! range saturate at the type's bounds; products are computed in wider
//! types and stated exactly in the contracts.

use vstd::prelude::*;

use crate::rng::sample_range_i32;

verus! {

/// A product of values within `[-m, m]` and `[-n, n]` lies within `[-m*n, m*n]`.
pub proof fn lemma_mul_bounds(a: int, b: int, m: int, n: int)
    requires
        -m <= a <= m,
        -n <= b <= n,
        0 <= m,
        0 <= n,
    ensures
        -(m * n) <= a * b <= m * n,
{
    assert(-(m * n) <= a * b <= m * n) by (nonlinear_arith)
        requires
            -m <= a <= m,
            -n <= b <= n,
            0 <= m,
            0 <= n,
    ;
}

/// A square is never negative.
pub proof fn lemma_square_nonneg(a: int)
    ensures
        a * a >= 0,
{
    assert(a * a >= 0) by (nonlinear_arith);
}

/// An integer clamped to the `i32` range.
pub open spec fn sat32(v: int) -> int {
    if v > i32::MAX as int {
        i32::MAX as int
    } else if v < i32::MIN as int {
        i32::MIN as int
    } else {
        v
    }
}

/// Clamps a 64-bit value to the `i32` range.
pub fn clamp_to_i32(v: i64) -> (r: i32)
    ensures
        r as int == sat32(v as int),
{
    if v > i32::MAX as i64 {
        i32::MAX
    } else if v < i32::MIN as i64 {
        i32::MIN
    } else {
        v as i32
    }
}

#[derive(Debug, Copy, Clone, PartialEq, Eq, Structural)]
pub struct Vec2 {
    pub x: i32,
    pub y: i32,
}

/// Componentwise sum, saturating at the `i32` bounds.
pub open spec fn vec2_plus(a: Vec2, b: Vec2) -> Vec2 {
    Vec2 { x: sat32(a.x + b.x) as i32, y: sat32(a.y + b.y) as i32 }
}

/// Componentwise difference, saturating at the `i32` bounds.
pub open spec fn vec2_minus(a: Vec2, b: Vec2) -> Vec2 {
    Vec2 { x: sat32(a.x - b.x) as i32, y: sat32(a.y - b.y) as i32 }
}

/// Componentwise scaling, saturating at the `i32` bounds.
pub open spec fn vec2_scaled(a: Vec2, k: i32) -> Vec2 {
    Vec2 { x: sat32(a.x * k) as i32, y: sat32(a.y * k) as i32 }
}

/// The exact mathematical dot product of two vectors.
pub open spec fn vec2_dot(a: Vec2, b: Vec2) -> int {
    a.x * b.x + a.y * b.y
}

/// The exact squared distance between two points.
pub open spec fn vec2_distance_squared(a: Vec2, b: Vec2) -> int {
    (a.x - b.x) * (a.x - b.x) + (a.y - b.y) * (a.y - b.y)
}

/// The floor of the square root: the largest integer whose square does
/// not exceed `n`.
pub fn isqrt(n: u128) -> (r: u64)
    ensures
        (r as int) * (r as int) <= n < (r as int + 1) * (r as int + 1),
{
    let mut lo: u64 = 0;
    let mut hi: u64 = u64::MAX;
    proof {
        lemma_mul_bounds(
            hi as int + 1,
            hi as int + 1,
            0x1_0000_0000_0000_0000,
            0x1_0000_0000_0000_0000,
        );
        assert((hi as int + 1) * (hi as int + 1) > n) by (nonlinear_arith)
            requires
                hi as int + 1 == 0x1_0000_0000_0000_0000,
                n < u128::MAX as int + 1,
        ;
    }
    while lo < hi
        invariant
            lo <= hi,
            (lo as int) * (lo as int) <= n,
            (hi as int + 1) * (hi as int + 1) > n,
        decreases hi - lo,
    {
        let mid: u64 = lo + (hi - lo) / 2 + 1;
        proof {
            assert(lo < mid <= hi);
            lemma_mul_bounds(mid as int, mid as int, u64::MAX as int, u64::MAX as int);
        }
        if (mid as u128) * (mid as u128) <= n {
            lo = mid;
        } else {
            hi = mid - 1;
        }
    }
    lo
}

/// Whether `p` lies within `spread` of `origin` on both axes, up to the
/// saturation at the `i32` bounds.
pub open spec fn vec2_near(p: Vec2, origin: Vec2, spread: i32) -> bool {
    exists|dx: int, dy: int|
        -spread <= dx < spread && -spread <= dy < spread
            && p.x as int == #[trigger] sat32(origin.x + dx)
            && p.y as int == #[trigger] sat32(origin.y + dy)
}

impl Vec2 {
    /// Offsets `origin` by an independent uniform sample in
    /// `[-spread, spread)` on each axis, saturating at the `i32` bounds.
    pub fn randomize(origin: Vec2, spread: i32) -> (r: Vec2)
        requires
            spread > 0,
        ensures
            vec2_near(r, origin, spread),
    {
        let dx = sample_range_i32(-spread, spread);
        let dy = sample_range_i32(-spread, spread);
        let r = Vec2 {
            x: clamp_to_i32(origin.x as i64 + dx as i64),
            y: clamp_to_i32(origin.y as i64 + dy as i64),
        };
        assert(r.x as int == sat32(origin.x + dx as int) && r.y as int == sat32(origin.y + dy as int));
        r
    }

    pub fn dot(&self, rhs: &Vec2) -> (r: i128)
        ensures
            r as int == vec2_dot(*self, *rhs),
    {
        proof {
            lemma_mul_bounds(self.x as int, rhs.x as int, 0x8000_0000, 0x8000_0000);
            lemma_mul_bounds(self.y as int, rhs.y as int, 0x8000_0000, 0x8000_0000);
        }
        (self.x as i128) * (rhs.x as i128) + (self.y as i128) * (rhs.y as i128)
    }

    pub fn right() -> (r: Vec2)
        ensures
            r == (Vec2 { x: 1i32, y: 0i32 }),
    {
        Vec2 { x: 1, y: 0 }
    }

    pub fn left() -> (r: Vec2)
        ensures
            r == (Vec2 { x: -1i32, y: 0i32 }),
    {
        Vec2 { x: -1, y: 0 }
    }

    pub fn up() -> (r: Vec2)
        ensures
            r == (Vec2 { x: 0i32, y: -1i32 }),
    {
        Vec2 { x: 0, y: -1 }
    }

    pub fn down() -> (r: Vec2)
        ensures
            r == (Vec2 { x: 0i32, y: 1i32 }),
    {
        Vec2 { x: 0, y: 1 }
    }

    /// Componentwise sum, saturating at the `i32` bounds.
    pub fn plus(self, other: Vec2) -> (r: Vec2)
        ensures
            r == vec2_plus(self, other),
    {
        Vec2 {
            x: clamp_to_i32(self.x as i64 + other.x as i64),
            y: clamp_to_i32(self.y as i64 + other.y as i64),
        }
    }

    /// Componentwise difference, saturating at the `i32` bounds.
    pub fn minus(self, other: Vec2) -> (r: Vec2)
        ensures
            r == vec2_minus(self, other),
    {
        Vec2 {
            x: clamp_to_i32(self.x as i64 - other.x as i64),
            y: clamp_to_i32(self.y as i64 - other.y as i64),
        }
    }

    /// Componentwise scaling, saturating at the `i32` bounds.
    pub fn scaled(self, k: i32) -> (r: Vec2)
        ensures
            r == vec2_scaled(self, k),
    {
        proof {
            lemma_mul_bounds(self.x as int, k as int, 0x8000_0000, 0x8000_0000);
            lemma_mul_bounds(self.y as int, k as int, 0x8000_0000, 0x8000_0000);
        }
        Vec2 {
            x: clamp_to_i32(self.x as i64 * k as i64),
            y: clamp_to_i32(self.y as i64 * k as i64),
        }
    }

    /// The distance between two points, rounded down to whole milliunits.
    pub fn distance(from: Vec2, to: Vec2) -> (r: u64)
        ensures
            (r as int) * (r as int) <= vec2_distance_squared(from, to) < (r as int + 1) * (r as int
                + 1),
    {
        let d2 = Vec2::distance_squared(from, to);
        isqrt(d2 as u128)
    }

    /// The length of the vector, rounded down to whole milliunits.
    pub fn length(&self) -> (r: u64)
        ensures
            (r as int) * (r as int) <= vec2_dot(*self, *self) < (r as int + 1) * (r as int + 1),
    {
        let d2 = self.squared_length();
        isqrt(d2 as u128)
    }

    pub fn distance_squared(from: Vec2, to: Vec2) -> (r: i128)
        ensures
            r as int == vec2_distance_squared(from, to),
            r >= 0,
    {
        let dx = from.x as i128 - to.x as i128;
        let dy = from.y as i128 - to.y as i128;
        proof {
            lemma_mul_bounds(dx as int, dx as int, 0x1_0000_0000, 0x1_0000_0000);
            lemma_mul_bounds(dy as int, dy as int, 0x1_0000_0000, 0x1_0000_0000);
            lemma_square_nonneg(dx as int);
            lemma_square_nonneg(dy as int);
        }
        dx * dx + dy * dy
    }

    pub fn squared_length(&self) -> (r: i128)
        ensures
            r as int == vec2_dot(*self, *self),
            r >= 0,
    {
        proof {
            lemma_square_nonneg(self.x as int);
            lemma_square_nonneg(self.y as int);
        }
        self.dot(self)
    }
}

} // verus!
