//! Integer geometry for the DRC engine.
//!
//! All lengths are nanometres held in `i64`; squared distances are held in
//! `i128`. Comparing a Euclidean distance with a threshold is done exactly on
//! squares; where a distance itself must be reported, the floor of the square
//! root is taken with a verified integer square root.

use vstd::prelude::*;

verus! {

/// A point in the plane, in nanometres.
#[derive(Debug, Clone, Copy, PartialEq, Eq, Structural)]
pub struct Point2D {
    pub x: i64,
    pub y: i64,
}

impl Point2D {
    pub fn new(x: i64, y: i64) -> (p: Point2D)
        ensures
            p.x == x,
            p.y == y,
    {
        Point2D { x, y }
    }
}

/// Floor of the square root of a non-negative integer; 0 below 0.
pub open spec fn sqrt_floor(x: int) -> int
    decreases x,
{
    if x <= 0 {
        0
    } else {
        let r = sqrt_floor(x - 1);
        if (r + 1) * (r + 1) <= x {
            r + 1
        } else {
            r
        }
    }
}

pub proof fn lemma_sqrt_floor_bounds(x: int)
    requires
        x >= 0,
    ensures
        sqrt_floor(x) >= 0,
        sqrt_floor(x) * sqrt_floor(x) <= x,
        x < (sqrt_floor(x) + 1) * (sqrt_floor(x) + 1),
    decreases x,
{
    if x == 0 {
    } else {
        lemma_sqrt_floor_bounds(x - 1);
        let r = sqrt_floor(x - 1);
        if (r + 1) * (r + 1) <= x {
            assert(x <= (r + 1) * (r + 1)) by {
                assert(x - 1 < (r + 1) * (r + 1));
            }
            assert(x < ((r + 1) + 1) * ((r + 1) + 1)) by (nonlinear_arith)
                requires
                    r >= 0,
                    x == (r + 1) * (r + 1),
            ;
        }
    }
}

pub proof fn lemma_sqrt_floor_unique(x: int, r: int)
    requires
        x >= 0,
        r >= 0,
        r * r <= x,
        x < (r + 1) * (r + 1),
    ensures
        r == sqrt_floor(x),
{
    lemma_sqrt_floor_bounds(x);
    let s = sqrt_floor(x);
    if r < s {
        assert((r + 1) * (r + 1) <= s * s) by (nonlinear_arith)
            requires
                0 <= r,
                r + 1 <= s,
            ;
    }
    if s < r {
        assert((s + 1) * (s + 1) <= r * r) by (nonlinear_arith)
            requires
                0 <= s,
                s + 1 <= r,
            ;
    }
}

/// Exact integer square root (floor) of a `u128`.
pub fn isqrt_u128(x: u128) -> (r: u64)
    ensures
        r as int == sqrt_floor(x as int),
{
    let mut lo: u128 = 0;
    let mut hi: u128 = 0x1_0000_0000_0000_0000;
    proof {
        assert(x < hi * hi) by (nonlinear_arith)
            requires
                hi == 0x1_0000_0000_0000_0000,
                x <= u128::MAX,
            ;
    }
    while hi - lo > 1
        invariant
            0 <= lo < hi <= 0x1_0000_0000_0000_0000,
            lo * lo <= x,
            x < hi * hi,
        decreases hi - lo,
    {
        let mid = lo + (hi - lo) / 2;
        proof {
            assert(mid * mid <= 0xffff_ffff_ffff_ffff * 0xffff_ffff_ffff_ffffu128) by (nonlinear_arith)
                requires
                    0 <= mid <= 0xffff_ffff_ffff_ffffu128,
            ;
        }
        if mid * mid <= x {
            lo = mid;
        } else {
            hi = mid;
        }
    }
    proof {
        lemma_sqrt_floor_unique(x as int, lo as int);
    }
    lo as u64
}

/// Floor division of an `i64` by two (rounds towards negative infinity).
pub fn div2_floor(d: i64) -> (r: i64)
    ensures
        r as int == (d as int) / 2,
{
    if d >= 0 {
        d / 2
    } else {
        -1 - ((-1 - d) / 2)
    }
}

/// A square is monotone in the magnitude of its argument.
pub proof fn lemma_square_bound(a: int, b: int)
    by (nonlinear_arith)
    requires
        -b <= a <= b,
    ensures
        0 <= a * a <= b * b,
{
}

/// Squared Euclidean distance between two points given by nanometre
/// coordinates.
pub open spec fn spec_dist2(x1: int, y1: int, x2: int, y2: int) -> int {
    (x2 - x1) * (x2 - x1) + (y2 - y1) * (y2 - y1)
}

/// Coordinates small enough that squared distances fit comfortably in `i128`.
pub open spec fn nm_in_range(v: int) -> bool {
    -0x1_0000_0000_0000_000 <= v <= 0x1_0000_0000_0000_000
}

/// Squared distance, exact, for in-range nanometre coordinates.
pub fn dist2(x1: i64, y1: i64, x2: i64, y2: i64) -> (d2: i128)
    requires
        nm_in_range(x1 as int),
        nm_in_range(y1 as int),
        nm_in_range(x2 as int),
        nm_in_range(y2 as int),
    ensures
        d2 as int == spec_dist2(x1 as int, y1 as int, x2 as int, y2 as int),
        0 <= d2 <= 0x8_0000_0000_0000_0000_0000_0000_0000_00,
{
    let dx: i128 = x2 as i128 - x1 as i128;
    let dy: i128 = y2 as i128 - y1 as i128;
    proof {
        lemma_square_bound(dx as int, 0x2_0000_0000_0000_000);
        lemma_square_bound(dy as int, 0x2_0000_0000_0000_000);
    }
    dx * dx + dy * dy
}

/// True when twice the Euclidean distance whose square is `d2` is strictly
/// below `k`, i.e. `2 * sqrt(d2) < k`, stated without square roots.
pub open spec fn twice_dist_lt(d2: int, k: int) -> bool {
    k > 0 && 4 * d2 < k * k
}

/// `sqrt_floor(d2) < k  <==>  d2 < k * k`, the bridge between exact
/// square comparisons and reported floor distances.
pub proof fn lemma_sqrt_floor_lt(d2: int, k: int)
    requires
        d2 >= 0,
        k >= 0,
    ensures
        sqrt_floor(d2) < k <==> d2 < k * k,
{
    lemma_sqrt_floor_bounds(d2);
    let s = sqrt_floor(d2);
    if s < k {
        assert((s + 1) * (s + 1) <= k * k) by (nonlinear_arith)
            requires
                0 <= s,
                s + 1 <= k,
            ;
    } else {
        assert(k * k <= s * s) by (nonlinear_arith)
            requires
                0 <= k <= s,
            ;
    }
}

} // verus!
