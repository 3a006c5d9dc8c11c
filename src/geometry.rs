//! Points of the world plane, distances between them, and integer square roots.
use vstd::prelude::*;

verus! {

/// Largest magnitude of a coordinate that distance tests accept.
pub const QUERY_LIMIT: i64 = 0x1000_0000_0000_0000;

/// A point of the world, in thousandths of a world unit; `y` grows upwards.
#[derive(Clone, Copy, PartialEq, Eq, Structural, Debug)]
pub struct Position {
    pub x: i64,
    pub y: i64,
}

pub open spec fn within_limit(p: Position, limit: int) -> bool {
    -limit <= p.x <= limit && -limit <= p.y <= limit
}

pub open spec fn square(v: int) -> int {
    v * v
}

pub open spec fn dist_sq(a: Position, b: Position) -> int {
    square(a.x - b.x) + square(a.y - b.y)
}

/// Whether `a` lies strictly closer than `d` to `b`.
pub fn closer_than(a: Position, b: Position, d: i64) -> (r: bool)
    requires
        within_limit(a, QUERY_LIMIT as int),
        within_limit(b, QUERY_LIMIT as int),
        0 <= d <= QUERY_LIMIT,
    ensures
        r == (dist_sq(a, b) < square(d as int)),
{
    let dx: i128 = a.x as i128 - b.x as i128;
    let dy: i128 = a.y as i128 - b.y as i128;
    let dd: i128 = d as i128;
    proof {
        lemma_square_bound(dx as int, 0x2000_0000_0000_0000);
        lemma_square_bound(dy as int, 0x2000_0000_0000_0000);
        lemma_square_bound(dd as int, 0x2000_0000_0000_0000);
    }
    dx * dx + dy * dy < dd * dd
}

/// A value of magnitude at most `m` has a square of at most `m * m`.
pub proof fn lemma_square_bound(a: int, m: int)
    requires
        -m <= a <= m,
    ensures
        0 <= a * a <= m * m,
{
    assert(0 <= a * a <= m * m) by (nonlinear_arith)
        requires
            -m <= a <= m,
    ;
}

pub open spec fn is_isqrt(n: int, r: int) -> bool {
    0 <= r && r * r <= n < (r + 1) * (r + 1)
}

/// The integer square root of a non-negative `n`.
pub open spec fn isqrt_spec(n: int) -> int {
    choose|r: int| is_isqrt(n, r)
}

/// Only one value is the integer square root of `n`.
pub proof fn lemma_isqrt_unique(n: int, r: int)
    requires
        is_isqrt(n, r),
    ensures
        isqrt_spec(n) == r,
{
    let c = isqrt_spec(n);
    assert(is_isqrt(n, c));
    if c < r {
        assert((c + 1) * (c + 1) <= r * r) by (nonlinear_arith)
            requires
                0 <= c + 1 <= r,
        ;
    } else if r < c {
        assert((r + 1) * (r + 1) <= c * c) by (nonlinear_arith)
            requires
                0 <= r + 1 <= c,
        ;
    }
}

/// The integer square root: the largest `r` with `r * r <= n`.
pub fn isqrt(n: u64) -> (r: u64)
    ensures
        is_isqrt(n as int, r as int),
        r < 0x1_0000_0000,
{
    let mut lo: u64 = 0;
    let mut hi: u64 = 0x1_0000_0000;
    assert((hi as int) * (hi as int) == 0x1_0000_0000_0000_0000);
    while hi - lo > 1
        invariant
            lo < hi <= 0x1_0000_0000,
            lo * lo <= n,
            (n as int) < (hi as int) * (hi as int),
        decreases hi - lo,
    {
        let mid: u64 = lo + (hi - lo) / 2;
        assert((mid as int) * (mid as int) < 0x1_0000_0000_0000_0000) by (nonlinear_arith)
            requires
                mid < 0x1_0000_0000,
        ;
        if mid * mid <= n {
            lo = mid;
        } else {
            hi = mid;
        }
    }
    assert(hi == lo + 1);
    lo
}

} // verus!
