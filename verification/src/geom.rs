//! Integer plane geometry used throughout the decision core.
//!
//! All positions are pixel coordinates `(i32, i32)`.  Distances are compared
//! through squared values where possible; where a true Euclidean length is
//! needed the integer square root `isqrt` is used, so every computation is an
//! exact function of its inputs.

use vstd::prelude::*;

verus! {

/// Squared Euclidean distance between two points, as mathematical integers.
pub open spec fn dist_sq(ax: int, ay: int, bx: int, by: int) -> int {
    (ax - bx) * (ax - bx) + (ay - by) * (ay - by)
}

/// Pixel coordinates the geometry works on.  Maps are at most a few thousand
/// pixels wide; this generous bound keeps every intermediate product well
/// inside `i128`.
pub open spec fn coord_ok(p: (i32, i32)) -> bool {
    -0x4000_0000 <= p.0 <= 0x4000_0000 && -0x4000_0000 <= p.1 <= 0x4000_0000
}

/// The floor of the nonnegative square root of `n` (0 for negative `n`).
pub open spec fn sqrt_floor(n: int) -> int
    decreases n,
{
    if n <= 0 {
        0
    } else if (sqrt_floor(n - 1) + 1) * (sqrt_floor(n - 1) + 1) <= n {
        sqrt_floor(n - 1) + 1
    } else {
        sqrt_floor(n - 1)
    }
}

/// `sqrt_floor` is the unique integer whose square brackets `n`.
pub proof fn lemma_sqrt_floor_bounds(n: int)
    requires
        n >= 0,
    ensures
        0 <= sqrt_floor(n),
        sqrt_floor(n) * sqrt_floor(n) <= n,
        n < (sqrt_floor(n) + 1) * (sqrt_floor(n) + 1),
    decreases n,
{
    if n == 0 {
    } else {
        lemma_sqrt_floor_bounds(n - 1);
        let p = sqrt_floor(n - 1);
        if (p + 1) * (p + 1) <= n {
            assert(sqrt_floor(n) == p + 1);
            assert(n - 1 < (p + 1) * (p + 1));
            assert(n < (p + 2) * (p + 2)) by (nonlinear_arith)
                requires n <= (p + 1) * (p + 1), p >= 0;
        } else {
            assert(sqrt_floor(n) == p);
        }
    }
}

/// Any integer whose square brackets `n` equals `sqrt_floor(n)`.
pub proof fn lemma_sqrt_floor_unique(n: int, r: int)
    requires
        n >= 0,
        r >= 0,
        r * r <= n,
        n < (r + 1) * (r + 1),
    ensures
        r == sqrt_floor(n),
{
    lemma_sqrt_floor_bounds(n);
    let s = sqrt_floor(n);
    assert(r == s) by (nonlinear_arith)
        requires
            r >= 0, s >= 0,
            r * r <= n, n < (r + 1) * (r + 1),
            s * s <= n, n < (s + 1) * (s + 1);
}

/// Truncating (round-toward-zero) division, for a positive divisor.
pub open spec fn div_trunc(a: int, b: int) -> int
    recommends b > 0,
{
    if a >= 0 {
        a / b
    } else {
        -((-a) / b)
    }
}

/// Integer square root: the floor of the square root of `n`.
pub fn isqrt(n: u128) -> (r: u64)
    ensures
        r as int == sqrt_floor(n as int),
{
    let mut lo: u64 = 0;
    let mut hi: u64 = 0xFFFF_FFFF_FFFF_FFFF;
    if n < 0xFFFF_FFFF_FFFF_FFFF {
        hi = n as u64;
        proof {
            assert((n as int) < ((hi as int) + 1) * ((hi as int) + 1)) by (nonlinear_arith)
                requires 0 <= (hi as int) && hi as int == n as int;
        }
    } else {
        proof {
            assert((n as int) < ((hi as int) + 1) * ((hi as int) + 1)) by (nonlinear_arith)
                requires
                    (n as int) < 0x1_0000_0000_0000_0000_0000_0000_0000_0000,
                    hi as int == 0xFFFF_FFFF_FFFF_FFFF;
        }
    }
    // binary search keeping lo <= floor(sqrt(n)) <= hi
    while lo < hi
        invariant
            (lo as int) * (lo as int) <= n as int,
            (n as int) < ((hi as int) + 1) * ((hi as int) + 1),
            lo <= hi,
        decreases hi - lo,
    {
        let mid: u64 = hi - (hi - lo) / 2;
        proof {
            assert((mid as int) * (mid as int)
                < 0x1_0000_0000_0000_0000_0000_0000_0000_0000) by (nonlinear_arith)
                requires 0 <= (mid as int) && (mid as int) < 0x1_0000_0000_0000_0000;
        }
        let sq: u128 = (mid as u128) * (mid as u128);
        if sq <= n {
            lo = mid;
        } else {
            hi = mid - 1;
        }
    }
    proof {
        lemma_sqrt_floor_unique(n as int, lo as int);
    }
    lo
}

/// Truncating division with a positive divisor, exact per `div_trunc`.
pub fn div_i128(a: i128, b: i128) -> (r: i128)
    requires
        b > 0,
        a != i128::MIN,
    ensures
        r == div_trunc(a as int, b as int),
{
    if a >= 0 {
        (((a as u128)) / (b as u128)) as i128
    } else {
        let q = ((-a) as u128) / (b as u128);
        proof {
            assert((-a) as u128 as int == -(a as int));
            vstd::arithmetic::div_mod::lemma_div_nonincreasing(-(a as int), b as int);
            vstd::arithmetic::div_mod::lemma_div_pos_is_pos(-(a as int), b as int);
        }
        -(q as i128)
    }
}

/// Squared distance between two pixel positions, exact.
pub fn distance_squared(a: (i32, i32), b: (i32, i32)) -> (r: i128)
    ensures
        r == dist_sq(a.0 as int, a.1 as int, b.0 as int, b.1 as int),
        r >= 0,
{
    let dx: i128 = a.0 as i128 - b.0 as i128;
    let dy: i128 = a.1 as i128 - b.1 as i128;
    proof {
        assert(0 <= dx * dx < 0x1_0000_0000_0000_0000
            && 0 <= dy * dy < 0x1_0000_0000_0000_0000) by (nonlinear_arith)
            requires
                -0x1_0000_0000 < dx < 0x1_0000_0000,
                -0x1_0000_0000 < dy < 0x1_0000_0000;
    }
    dx * dx + dy * dy
}

/// Euclidean distance between two pixel positions, rounded down.
pub fn distance(a: (i32, i32), b: (i32, i32)) -> (r: u64)
    ensures
        r as int == sqrt_floor(dist_sq(a.0 as int, a.1 as int, b.0 as int, b.1 as int)),
{
    let sq = distance_squared(a, b);
    isqrt(sq as u128)
}

/// Whether `p` projects onto the segment `a`-`b` and lies within `threshold`
/// pixels of it.  `threshold` and all coordinates are pixels.
pub open spec fn point_near_segment(
    px: int, py: int, ax: int, ay: int, bx: int, by: int, threshold: int,
) -> bool {
    let len_sq = dist_sq(ax, ay, bx, by);
    let dot = (px - ax) * (bx - ax) + (py - ay) * (by - ay);
    let cross = (bx - ax) * (py - ay) - (by - ay) * (px - ax);
    len_sq >= 1 && 0 <= dot <= len_sq && cross * cross < threshold * threshold * len_sq
}

/// Decides `point_near_segment` exactly: whether the point `(px, py)` projects
/// onto the segment from `(ax, ay)` to `(bx, by)` within `threshold` pixels.
pub fn is_point_between(
    ax: i32, ay: i32, bx: i32, by: i32, px: i32, py: i32, threshold: i32,
) -> (r: bool)
    requires
        0 <= threshold < 0x10000,
        coord_ok((ax, ay)),
        coord_ok((bx, by)),
        coord_ok((px, py)),
    ensures
        r == point_near_segment(
            px as int, py as int, ax as int, ay as int, bx as int, by as int, threshold as int),
{
    let len_sq: i128 = distance_squared((ax, ay), (bx, by));
    if len_sq < 1 {
        return false;
    }
    let dxl: i128 = bx as i128 - ax as i128;
    let dyl: i128 = by as i128 - ay as i128;
    let dxp: i128 = px as i128 - ax as i128;
    let dyp: i128 = py as i128 - ay as i128;
    proof {
        assert(-0x4000_0000_0000_0000 <= dxp * dxl <= 0x4000_0000_0000_0000
            && -0x4000_0000_0000_0000 <= dyp * dyl <= 0x4000_0000_0000_0000
            && -0x4000_0000_0000_0000 <= dxl * dyp <= 0x4000_0000_0000_0000
            && -0x4000_0000_0000_0000 <= dyl * dxp <= 0x4000_0000_0000_0000) by (nonlinear_arith)
            requires
                -0x8000_0000 <= dxl <= 0x8000_0000,
                -0x8000_0000 <= dyl <= 0x8000_0000,
                -0x8000_0000 <= dxp <= 0x8000_0000,
                -0x8000_0000 <= dyp <= 0x8000_0000;
        assert(0 <= len_sq <= 0x8000_0000_0000_0000) by (nonlinear_arith)
            requires
                len_sq == dist_sq(ax as int, ay as int, bx as int, by as int),
                -0x8000_0000 <= (ax as int) - (bx as int) <= 0x8000_0000,
                -0x8000_0000 <= (ay as int) - (by as int) <= 0x8000_0000;
    }
    let dot: i128 = dxp * dxl + dyp * dyl;
    if dot < 0 || dot > len_sq {
        return false;
    }
    let cross: i128 = dxl * dyp - dyl * dxp;
    let thr: i128 = threshold as i128;
    proof {
        assert(cross * cross >= 0
            && cross * cross <= 0x4000_0000_0000_0000_0000_0000_0000_0000) by (nonlinear_arith)
            requires -0x8000_0000_0000_0000 <= cross <= 0x8000_0000_0000_0000;
        assert(0 <= thr * thr < 0x1_0000_0000
            && 0 <= thr * thr * len_sq < 0x4000_0000_0000_0000_0000_0000_0000_0000)
            by (nonlinear_arith)
            requires 0 <= thr < 0x10000, 0 <= len_sq <= 0x8000_0000_0000_0000;
    }
    let cross_sq: i128 = cross * cross;
    cross_sq < thr * thr * len_sq
}

/// The point of the axis-aligned rectangle `[left, right] x [top, bottom]`
/// closest to `p` (component-wise clamp).
pub open spec fn clamp_spec(v: int, lo: int, hi: int) -> int
    recommends lo <= hi,
{
    if v < lo { lo } else if v > hi { hi } else { v }
}

/// Clamps `v` into `[lo, hi]`.
pub fn clamp_i32(v: i32, lo: i32, hi: i32) -> (r: i32)
    requires
        lo <= hi,
    ensures
        r as int == clamp_spec(v as int, lo as int, hi as int),
{
    if v < lo { lo } else if v > hi { hi } else { v }
}

} // verus!
