//! Fixed-point scalar and vector arithmetic for the simulation.
//!
//! One world length unit is `SCALE` ticks; every coordinate, length and
//! pointer position is an `i64` number of ticks. Coordinates are confined
//! to the box `[-MAX_COORD, MAX_COORD]`: any computed coordinate saturates
//! at the edge, which keeps every intermediate product inside `i128`.

use vstd::prelude::*;
use vstd::arithmetic::div_mod::lemma_div_nonincreasing;
use vstd::arithmetic::div_mod::lemma_div_pos_is_pos;

verus! {

/// Fixed-point ticks per world length unit.
pub const SCALE: i64 = 1000;

/// Half-width of the world box, in ticks (one million length units).
pub const MAX_COORD: i64 = 1_000_000_000;

/// Truncating division (rounding toward zero) for a positive divisor,
/// the rounding that the executable arithmetic uses throughout.
pub open spec fn tdiv(a: int, d: int) -> int {
    if a >= 0 {
        a / d
    } else {
        -((-a) / d)
    }
}

/// Saturate a coordinate into the world box.
pub open spec fn clamp_spec(v: int) -> int {
    if v < -MAX_COORD {
        -MAX_COORD as int
    } else if v > MAX_COORD {
        MAX_COORD as int
    } else {
        v
    }
}

/// `r` is the integer square root of `n`: the largest integer whose
/// square does not exceed `n`.
pub open spec fn is_isqrt(n: int, r: int) -> bool {
    &&& 0 <= r
    &&& r * r <= n
    &&& n < (r + 1) * (r + 1)
}

/// The integer square root as a function, for use in specifications.
pub open spec fn isqrt_spec(n: int) -> int
    decreases n,
{
    if n <= 0 {
        0
    } else {
        let r = isqrt_spec(n - 1);
        if (r + 1) * (r + 1) <= n {
            r + 1
        } else {
            r
        }
    }
}

/// `isqrt_spec` satisfies the root characterization.
pub proof fn lemma_isqrt_spec_is_isqrt(n: int)
    requires
        0 <= n,
    ensures
        is_isqrt(n, isqrt_spec(n)),
    decreases n,
{
    if n == 0 {
    } else {
        lemma_isqrt_spec_is_isqrt(n - 1);
        let r = isqrt_spec(n - 1);
        if (r + 1) * (r + 1) <= n {
            assert(n == (r + 1) * (r + 1));
            assert((r + 1) * (r + 1) < (r + 2) * (r + 2)) by (nonlinear_arith)
                requires
                    0 <= r,
            ;
        }
    }
}

/// The integer square root of a perfect square is the root's magnitude.
pub proof fn lemma_isqrt_of_square(x: int)
    ensures
        isqrt_spec(x * x) == if x >= 0 {
            x
        } else {
            -x
        },
{
    let a = if x >= 0 {
        x
    } else {
        -x
    };
    assert(0 <= x * x && a * a == x * x && x * x < (a + 1) * (a + 1)) by (nonlinear_arith)
        requires
            a == (if x >= 0 {
                x
            } else {
                -x
            }),
    ;
    lemma_isqrt_spec_is_isqrt(x * x);
    lemma_isqrt_unique(x * x, isqrt_spec(x * x), a);
}

/// Only one integer satisfies the root characterization for a given `n`.
pub proof fn lemma_isqrt_unique(n: int, r1: int, r2: int)
    requires
        is_isqrt(n, r1),
        is_isqrt(n, r2),
    ensures
        r1 == r2,
{
    assert(r1 == r2) by (nonlinear_arith)
        requires
            0 <= r1,
            0 <= r2,
            r1 * r1 <= n,
            n < (r1 + 1) * (r1 + 1),
            r2 * r2 <= n,
            n < (r2 + 1) * (r2 + 1),
    ;
}

/// Saturate a computed coordinate into the world box.
pub fn clamp_coord(v: i128) -> (r: i64)
    ensures
        r == clamp_spec(v as int),
{
    let lo: i128 = -(MAX_COORD as i128);
    let hi: i128 = MAX_COORD as i128;
    if v < lo {
        -MAX_COORD
    } else if v > hi {
        MAX_COORD
    } else {
        v as i64
    }
}

/// Truncating division of a bounded `i128` by a positive divisor.
pub fn tdiv128(a: i128, d: i128) -> (r: i128)
    requires
        1 <= d,
        -0x7fff_ffff_ffff_ffff_ffff_ffff_ffff_ffff <= a,
    ensures
        r == tdiv(a as int, d as int),
        a >= 0 ==> 0 <= r <= a,
        a < 0 ==> a <= r <= 0,
{
    if a >= 0 {
        proof {
            lemma_div_pos_is_pos(a as int, d as int);
            lemma_div_nonincreasing(a as int, d as int);
        }
        let q: u128 = (a as u128) / (d as u128);
        q as i128
    } else {
        let m: i128 = -a;
        proof {
            lemma_div_pos_is_pos(m as int, d as int);
            lemma_div_nonincreasing(m as int, d as int);
        }
        let q: u128 = (m as u128) / (d as u128);
        -(q as i128)
    }
}

/// Integer square root of a `u64`, by bisection.
pub fn isqrt(n: u64) -> (r: u64)
    ensures
        r == isqrt_spec(n as int),
        is_isqrt(n as int, r as int),
{
    proof {
        lemma_isqrt_spec_is_isqrt(n as int);
    }
    if n == 0 {
        proof {
            lemma_isqrt_unique(n as int, isqrt_spec(n as int), 0);
        }
        return 0;
    }
    let mut lo: u64 = 0;
    let mut hi: u64 = 4_294_967_296;
    assert((n as int) < 4_294_967_296int * 4_294_967_296int);
    while lo + 1 < hi
        invariant
            lo < hi <= 4_294_967_296,
            (lo as int) * (lo as int) <= n as int,
            (n as int) < (hi as int) * (hi as int),
        decreases hi - lo,
    {
        let mid: u64 = lo + (hi - lo) / 2;
        assert(lo < mid < hi);
        assert((mid as int) * (mid as int) < 0x1_0000_0000_0000_0000_0000_0000int) by (nonlinear_arith)
            requires
                0 <= mid <= 4_294_967_296,
        ;
        let sq: u128 = (mid as u128) * (mid as u128);
        if sq <= n as u128 {
            lo = mid;
        } else {
            hi = mid;
        }
    }
    proof {
        lemma_isqrt_unique(n as int, isqrt_spec(n as int), lo as int);
    }
    lo
}

/// A 2-D vector in fixed-point ticks.
#[derive(Clone, Copy, PartialEq, Eq, Structural, Debug)]
pub struct Vector2 {
    pub x: i64,
    pub y: i64,
}

/// The vector lies inside the world box.
pub open spec fn in_box(v: Vector2) -> bool {
    &&& -MAX_COORD <= v.x <= MAX_COORD
    &&& -MAX_COORD <= v.y <= MAX_COORD
}

/// Squared magnitude, exactly.
pub open spec fn mag_sq_spec(v: Vector2) -> int {
    v.x * v.x + v.y * v.y
}

/// Squared distance between two vectors, exactly.
pub open spec fn dist_sq_spec(a: Vector2, b: Vector2) -> int {
    (a.x - b.x) * (a.x - b.x) + (a.y - b.y) * (a.y - b.y)
}

impl Vector2 {
    pub fn new(x: i64, y: i64) -> (r: Self)
        ensures
            r == (Vector2 { x, y }),
    {
        Vector2 { x, y }
    }

    /// Build a vector from a coordinate pair already in ticks.
    pub fn from(v: (i64, i64)) -> (r: Self)
        ensures
            r == (Vector2 { x: v.0, y: v.1 }),
    {
        Vector2 { x: v.0, y: v.1 }
    }

    /// Componentwise sum.
    pub fn add(self, rhs: Self) -> (r: Self)
        requires
            i64::MIN <= self.x + rhs.x <= i64::MAX,
            i64::MIN <= self.y + rhs.y <= i64::MAX,
        ensures
            r == (Vector2 { x: (self.x + rhs.x) as i64, y: (self.y + rhs.y) as i64 }),
    {
        Vector2 { x: self.x + rhs.x, y: self.y + rhs.y }
    }

    /// Componentwise difference.
    pub fn sub(self, rhs: Self) -> (r: Self)
        requires
            i64::MIN <= self.x - rhs.x <= i64::MAX,
            i64::MIN <= self.y - rhs.y <= i64::MAX,
        ensures
            r == (Vector2 { x: (self.x - rhs.x) as i64, y: (self.y - rhs.y) as i64 }),
    {
        Vector2 { x: self.x - rhs.x, y: self.y - rhs.y }
    }

    /// Squared magnitude; preferred over `magnitude` for proximity tests,
    /// which never need the root.
    pub fn magnitude_squared(self) -> (r: u64)
        requires
            -3_000_000_000 <= self.x <= 3_000_000_000,
            -3_000_000_000 <= self.y <= 3_000_000_000,
        ensures
            r == mag_sq_spec(self),
    {
        proof {
            assert(0 <= self.x * self.x <= 9_000_000_000_000_000_000
                && 0 <= self.y * self.y <= 9_000_000_000_000_000_000) by (nonlinear_arith)
                requires
                    -3_000_000_000 <= self.x <= 3_000_000_000,
                    -3_000_000_000 <= self.y <= 3_000_000_000,
            ;
        }
        let xx: i128 = (self.x as i128) * (self.x as i128);
        let yy: i128 = (self.y as i128) * (self.y as i128);
        (xx + yy) as u64
    }

    /// Magnitude, rounded down to an integer number of ticks.
    pub fn magnitude(self) -> (r: u64)
        requires
            -3_000_000_000 <= self.x <= 3_000_000_000,
            -3_000_000_000 <= self.y <= 3_000_000_000,
        ensures
            r == isqrt_spec(mag_sq_spec(self)),
            is_isqrt(mag_sq_spec(self), r as int),
    {
        isqrt(self.magnitude_squared())
    }

    /// Distance between two vectors, rounded down to an integer number
    /// of ticks.
    pub fn distance(&self, other: &Vector2) -> (r: u64)
        requires
            in_box(*self),
            in_box(*other),
        ensures
            r == isqrt_spec(dist_sq_spec(*self, *other)),
            is_isqrt(dist_sq_spec(*self, *other), r as int),
    {
        let d = self.sub(*other);
        d.magnitude()
    }
}

impl Default for Vector2 {
    /// The zero vector.
    fn default() -> (r: Self)
        ensures
            r == (Vector2 { x: 0, y: 0 }),
    {
        Vector2 { x: 0, y: 0 }
    }
}

} // verus!
