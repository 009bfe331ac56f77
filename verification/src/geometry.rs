//! Integer points, distances and time-scaled displacements.

use vstd::prelude::*;
use crate::constants::MICROS_PER_SECOND;

verus! {

/// A position on the playfield, or a velocity, by its two components.
#[derive(Clone, Copy, PartialEq, Eq, Structural, Debug)]
pub struct Point {
    pub x: i32,
    pub y: i32,
}

/// `v` limited to the interval from `lo` to `hi`.
pub open spec fn clamp(v: int, lo: int, hi: int) -> int {
    if v < lo {
        lo
    } else if v > hi {
        hi
    } else {
        v
    }
}

/// `v` limited to the range of a coordinate.
pub open spec fn saturate(v: int) -> int {
    clamp(v, i32::MIN as int, i32::MAX as int)
}

/// The quotient of `a` by a positive `b`, rounded toward zero.
pub open spec fn trunc_div(a: int, b: int) -> int {
    if a >= 0 {
        a / b
    } else {
        -((-a) / b)
    }
}

/// The distance covered at `speed` per second during `dt` microseconds.
pub open spec fn displacement(speed: int, dt: int) -> int {
    trunc_div(speed * dt, MICROS_PER_SECOND as int)
}

/// The squared Euclidean distance between two points.
pub open spec fn dist_sq(a: Point, b: Point) -> int {
    (a.x - b.x) * (a.x - b.x) + (a.y - b.y) * (a.y - b.y)
}

/// Whether `a` lies in the closed disc of the given radius around `b`.
pub open spec fn within(a: Point, b: Point, radius: int) -> bool {
    within_reach(a.x - b.x, a.y - b.y, radius)
}

/// Whether the displacement with the given components is no longer than
/// `radius`.
pub open spec fn within_reach(dx: int, dy: int, radius: int) -> bool {
    dx * dx + dy * dy <= radius * radius
}

/// Whether `r` is the integer part of the square root of `n`.
pub open spec fn is_floor_sqrt(r: int, n: int) -> bool {
    0 <= r && r * r <= n && n < (r + 1) * (r + 1)
}

/// The integer part of the square root of a non-negative `n`.
pub open spec fn floor_sqrt(n: int) -> int {
    choose|r: int| is_floor_sqrt(r, n)
}

/// The Euclidean distance between two points, rounded down.
pub open spec fn dist(a: Point, b: Point) -> int {
    floor_sqrt(dist_sq(a, b))
}

/// The point reached from `p` after moving at `velocity` for `dt`
/// microseconds; each coordinate stops at the end of its range.
pub open spec fn moved(p: Point, velocity: Point, dt: int) -> Point {
    Point {
        x: saturate(p.x + displacement(velocity.x as int, dt)) as i32,
        y: saturate(p.y + displacement(velocity.y as int, dt)) as i32,
    }
}

/// The time from `since` to `now`, zero if `now` is the earlier.
pub open spec fn elapsed(now: u64, since: u64) -> int {
    if now >= since {
        now - since
    } else {
        0
    }
}

/// At most one integer is the floor of a square root.
pub proof fn lemma_floor_sqrt_unique(r1: int, r2: int, n: int)
    requires
        is_floor_sqrt(r1, n),
        is_floor_sqrt(r2, n),
    ensures
        r1 == r2,
{
    if r1 < r2 {
        assert((r1 + 1) * (r1 + 1) <= r2 * r2) by (nonlinear_arith)
            requires
                0 <= r1,
                r1 + 1 <= r2,
        ;
    } else if r2 < r1 {
        assert((r2 + 1) * (r2 + 1) <= r1 * r1) by (nonlinear_arith)
            requires
                0 <= r2,
                r2 + 1 <= r1,
        ;
    }
}

/// A witnessed floor of a square root is the floor.
pub proof fn lemma_floor_sqrt_is(r: int, n: int)
    requires
        is_floor_sqrt(r, n),
    ensures
        floor_sqrt(n) == r,
{
    lemma_floor_sqrt_unique(r, floor_sqrt(n), n);
}

/// The rounded-down distance between two points fits in 33 bits.
pub proof fn lemma_distance_bound(a: Point, b: Point)
    ensures
        0 <= dist(a, b) < 0x2_0000_0000,
{
    let dx = a.x - b.x;
    let dy = a.y - b.y;
    assert(0 <= dx * dx <= 0xFFFF_FFFF * 0xFFFF_FFFF) by (nonlinear_arith)
        requires
            -0xFFFF_FFFF <= dx <= 0xFFFF_FFFF,
    ;
    assert(0 <= dy * dy <= 0xFFFF_FFFF * 0xFFFF_FFFF) by (nonlinear_arith)
        requires
            -0xFFFF_FFFF <= dy <= 0xFFFF_FFFF,
    ;
    let n = dist_sq(a, b);
    lemma_floor_sqrt_exists(n);
    let r = floor_sqrt(n);
    if r >= 0x2_0000_0000 {
        assert(r * r >= 0x2_0000_0000 * 0x2_0000_0000) by (nonlinear_arith)
            requires
                r >= 0x2_0000_0000,
        ;
    }
}

/// Every non-negative integer has a floor of its square root.
pub proof fn lemma_floor_sqrt_exists(n: int)
    requires
        0 <= n,
    ensures
        is_floor_sqrt(floor_sqrt(n), n),
    decreases n,
{
    if n == 0 {
        assert(is_floor_sqrt(0, 0));
    } else {
        lemma_floor_sqrt_exists(n - 1);
        let r = floor_sqrt(n - 1);
        if (r + 1) * (r + 1) <= n {
            assert(n < (r + 2) * (r + 2)) by (nonlinear_arith)
                requires
                    n - 1 < (r + 1) * (r + 1),
                    0 <= r,
            ;
            assert(is_floor_sqrt(r + 1, n));
        } else {
            assert(is_floor_sqrt(r, n));
        }
    }
}

/// Limits `v` to the interval from `lo` to `hi`.
pub fn clamp_i64(v: i64, lo: i64, hi: i64) -> (r: i64)
    ensures
        r == clamp(v as int, lo as int, hi as int),
{
    if v < lo {
        lo
    } else if v > hi {
        hi
    } else {
        v
    }
}

/// A product is bounded by the product of the bounds of its factors.
pub proof fn lemma_mul_bound(a: int, b: int, bound_a: int, bound_b: int)
    by (nonlinear_arith)
    requires
        -bound_a <= a <= bound_a,
        -bound_b <= b <= bound_b,
    ensures
        -(bound_a * bound_b) <= a * b <= bound_a * bound_b,
{
}

/// Limits `v` to the range of a coordinate.
pub fn saturate_i128(v: i128) -> (r: i32)
    ensures
        r == saturate(v as int),
{
    if v < i32::MIN as i128 {
        i32::MIN
    } else if v > i32::MAX as i128 {
        i32::MAX
    } else {
        v as i32
    }
}

/// Limits `v` to the range of a coordinate.
pub fn saturate_i64(v: i64) -> (r: i32)
    ensures
        r == saturate(v as int),
{
    if v < i32::MIN as i64 {
        i32::MIN
    } else if v > i32::MAX as i64 {
        i32::MAX
    } else {
        v as i32
    }
}

/// The distance covered at `speed` per second during `dt` microseconds,
/// rounded toward zero.
pub fn travel(speed: i32, dt: u32) -> (d: i64)
    ensures
        d == displacement(speed as int, dt as int),
        -0x1000_0000_0000 <= d <= 0x1000_0000_0000,
{
    assert(-0x8000_0000 * 0xFFFF_FFFF <= speed * dt <= 0x8000_0000 * 0xFFFF_FFFF)
        by (nonlinear_arith)
        requires
            -0x8000_0000 <= speed <= 0x8000_0000,
            0 <= dt <= 0xFFFF_FFFF,
    ;
    let product: i64 = (speed as i64) * (dt as i64);
    product / MICROS_PER_SECOND
}

/// Whether the displacement with the given components, each the difference
/// of two coordinates, is no longer than `radius`.
pub fn is_within_reach(dx: i64, dy: i64, radius: i32) -> (b: bool)
    requires
        -0xFFFF_FFFF <= dx <= 0xFFFF_FFFF,
        -0xFFFF_FFFF <= dy <= 0xFFFF_FFFF,
    ensures
        b == within_reach(dx as int, dy as int, radius as int),
{
    let r: i64 = radius as i64;
    proof {
        lemma_mul_bound(dx as int, dx as int, 0xFFFF_FFFF, 0xFFFF_FFFF);
        lemma_mul_bound(dy as int, dy as int, 0xFFFF_FFFF, 0xFFFF_FFFF);
        lemma_mul_bound(r as int, r as int, 0x8000_0000, 0x8000_0000);
        assert(dx * dx >= 0 && dy * dy >= 0 && r * r >= 0) by (nonlinear_arith);
    }
    (dx as i128) * (dx as i128) + (dy as i128) * (dy as i128) <= (r as i128) * (r as i128)
}

/// The time from `since` to `now`, zero if `now` is the earlier.
pub fn elapsed_micros(now: u64, since: u64) -> (e: u64)
    ensures
        e == elapsed(now, since),
{
    now.saturating_sub(since)
}

/// The integer part of the square root of `n`.
pub fn integer_sqrt(n: u128) -> (r: u64)
    ensures
        is_floor_sqrt(r as int, n as int),
        r == floor_sqrt(n as int),
{
    let mut lo: u128 = 0;
    let mut hi: u128 = 0x1_0000_0000_0000_0000;
    assert(hi * hi > n) by (nonlinear_arith)
        requires
            hi == 0x1_0000_0000_0000_0000,
            n <= u128::MAX,
    ;
    while hi - lo > 1
        invariant
            lo < hi <= 0x1_0000_0000_0000_0000,
            lo * lo <= n,
            n < hi * hi,
        decreases hi - lo,
    {
        let mid: u128 = lo + (hi - lo) / 2;
        assert(mid * mid <= 0xFFFF_FFFF_FFFF_FFFF * 0xFFFF_FFFF_FFFF_FFFF) by (nonlinear_arith)
            requires
                0 <= mid <= 0xFFFF_FFFF_FFFF_FFFF,
        ;
        if mid * mid <= n {
            lo = mid;
        } else {
            hi = mid;
        }
    }
    proof {
        lemma_floor_sqrt_is(lo as int, n as int);
    }
    lo as u64
}

impl Point {
    /// The point with the given coordinates.
    pub fn new(x: i32, y: i32) -> (p: Point)
        ensures
            p.x == x,
            p.y == y,
    {
        Point { x, y }
    }

    /// The squared Euclidean distance to `other`.
    pub fn distance_squared(self, other: Point) -> (d: u128)
        ensures
            d == dist_sq(self, other),
            d <= 0x1_FFFF_FFFC_0000_0002,
    {
        let dx: i64 = self.x as i64 - other.x as i64;
        let dy: i64 = self.y as i64 - other.y as i64;
        assert(0 <= dx * dx <= 0xFFFF_FFFF * 0xFFFF_FFFF) by (nonlinear_arith)
            requires
                -0xFFFF_FFFF <= dx <= 0xFFFF_FFFF,
        ;
        assert(0 <= dy * dy <= 0xFFFF_FFFF * 0xFFFF_FFFF) by (nonlinear_arith)
            requires
                -0xFFFF_FFFF <= dy <= 0xFFFF_FFFF,
        ;
        let sx: i128 = (dx as i128) * (dx as i128);
        let sy: i128 = (dy as i128) * (dy as i128);
        (sx + sy) as u128
    }

    /// Whether this point lies in the closed disc of the given radius around
    /// `center`.
    pub fn is_within(self, center: Point, radius: i32) -> (b: bool)
        ensures
            b == within(self, center, radius as int),
    {
        is_within_reach(
            self.x as i64 - center.x as i64,
            self.y as i64 - center.y as i64,
            radius,
        )
    }

    /// The Euclidean distance to `other`, rounded down.
    pub fn distance(self, other: Point) -> (d: u64)
        ensures
            d == dist(self, other),
            is_floor_sqrt(d as int, dist_sq(self, other)),
    {
        integer_sqrt(self.distance_squared(other))
    }

    /// The point reached after moving at `velocity` for `dt` microseconds.
    pub fn advance(self, velocity: Point, dt: u32) -> (p: Point)
        ensures
            p == moved(self, velocity, dt as int),
    {
        let x: i32 = saturate_i64(self.x as i64 + travel(velocity.x, dt));
        let y: i32 = saturate_i64(self.y as i64 + travel(velocity.y, dt));
        Point { x, y }
    }
}

} // verus!
