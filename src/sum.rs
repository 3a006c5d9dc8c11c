//! Finite sums over integer ranges, and the facts about them that the field's
//! contracts and laws use.
use vstd::prelude::*;

verus! {

/// `f(lo) + f(lo + 1) + ... + f(hi - 1)`; zero on an empty range.
pub open spec fn sum_range(lo: int, hi: int, f: spec_fn(int) -> int) -> int
    decreases hi - lo,
{
    if hi <= lo {
        0
    } else {
        sum_range(lo, hi - 1, f) + f(hi - 1)
    }
}

pub proof fn lemma_sum_split(lo: int, mid: int, hi: int, f: spec_fn(int) -> int)
    requires
        lo <= mid <= hi,
    ensures
        sum_range(lo, hi, f) == sum_range(lo, mid, f) + sum_range(mid, hi, f),
    decreases hi - mid,
{
    if hi > mid {
        lemma_sum_split(lo, mid, hi - 1, f);
    }
}

pub proof fn lemma_sum_zero(lo: int, hi: int, f: spec_fn(int) -> int)
    requires
        forall|x: int| lo <= x < hi ==> #[trigger] f(x) == 0,
    ensures
        sum_range(lo, hi, f) == 0,
    decreases hi - lo,
{
    if hi > lo {
        lemma_sum_zero(lo, hi - 1, f);
    }
}

pub proof fn lemma_sum_ext(lo: int, hi: int, f: spec_fn(int) -> int, g: spec_fn(int) -> int)
    requires
        forall|x: int| lo <= x < hi ==> #[trigger] f(x) == g(x),
    ensures
        sum_range(lo, hi, f) == sum_range(lo, hi, g),
    decreases hi - lo,
{
    if hi > lo {
        lemma_sum_ext(lo, hi - 1, f, g);
    }
}

pub proof fn lemma_sum_bounds(lo: int, hi: int, f: spec_fn(int) -> int, b: int)
    requires
        lo <= hi,
        forall|x: int| lo <= x < hi ==> 0 <= #[trigger] f(x) <= b,
    ensures
        0 <= sum_range(lo, hi, f) <= (hi - lo) * b,
    decreases hi - lo,
{
    if hi > lo {
        lemma_sum_bounds(lo, hi - 1, f, b);
        assert((hi - 1 - lo) * b + b == (hi - lo) * b) by (nonlinear_arith);
    } else {
        assert((hi - lo) * b == 0) by (nonlinear_arith)
            requires
                hi == lo,
        ;
    }
}

/// The sum of `f + g` (scaled by `c` and `d`) is the sum of each part.
pub proof fn lemma_sum_linear(
    lo: int,
    hi: int,
    f: spec_fn(int) -> int,
    g: spec_fn(int) -> int,
    h: spec_fn(int) -> int,
    c: int,
    d: int,
)
    requires
        forall|x: int| lo <= x < hi ==> #[trigger] h(x) == c * f(x) + d * g(x),
    ensures
        sum_range(lo, hi, h) == c * sum_range(lo, hi, f) + d * sum_range(lo, hi, g),
    decreases hi - lo,
{
    if hi > lo {
        lemma_sum_linear(lo, hi - 1, f, g, h, c, d);
        let sf = sum_range(lo, hi - 1, f);
        let sg = sum_range(lo, hi - 1, g);
        assert(c * (sf + f(hi - 1)) + d * (sg + g(hi - 1)) == c * sf + d * sg + c * f(hi - 1) + d
            * g(hi - 1)) by (nonlinear_arith);
    }
}

/// A sum of differences of consecutive values of `g` telescopes.
pub proof fn lemma_sum_telescope(lo: int, hi: int, f: spec_fn(int) -> int, g: spec_fn(int) -> int)
    requires
        lo <= hi,
        forall|x: int| lo <= x < hi ==> #[trigger] f(x) == g(x) - g(x + 1),
    ensures
        sum_range(lo, hi, f) == g(lo) - g(hi),
    decreases hi - lo,
{
    if hi > lo {
        lemma_sum_telescope(lo, hi - 1, f, g);
    }
}

} // verus!
