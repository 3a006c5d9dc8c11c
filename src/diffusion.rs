//! Diffusion moves pheromone between neighbouring cells without creating or
//! destroying any: over the interior cells, what changes in one step is what
//! flows in from the border ring, less what rounding down drops.
use vstd::prelude::*;

use crate::config::UNIT;
use crate::sum::{lemma_sum_bounds, lemma_sum_ext, lemma_sum_linear, lemma_sum_telescope, sum_range};
use crate::track::{
    channel_value, diffuse_value, diffused, is_interior, lemma_cell_index, lemma_diffuse_bounds,
    neighbour_sum, track_bounded, Channel, Track, Tracks,
};

verus! {

/// `channel` of cell `(x, y)` of a grid `w` cells wide.
pub open spec fn val(c: Seq<Track>, w: int, ch: Channel, x: int, y: int) -> int {
    channel_value(c[x + y * w], ch)
}

pub open spec fn row_vals(c: Seq<Track>, w: int, ch: Channel, y: int) -> spec_fn(int) -> int {
    |x: int| val(c, w, ch, x, y)
}

/// The sum of `channel` over the interior columns of row `y`.
pub open spec fn row_interior_sum(c: Seq<Track>, w: int, ch: Channel, y: int) -> int {
    sum_range(1, w - 1, row_vals(c, w, ch, y))
}

pub open spec fn row_interior_sums(c: Seq<Track>, w: int, ch: Channel) -> spec_fn(int) -> int {
    |y: int| row_interior_sum(c, w, ch, y)
}

/// The sum of `channel` over the cells that have four neighbours.
pub open spec fn interior_sum(c: Seq<Track>, w: int, h: int, ch: Channel) -> int {
    sum_range(1, h - 1, row_interior_sums(c, w, ch))
}

/// How much the left and right border cells of row `y` exceed their interior neighbours.
pub open spec fn side_flux(c: Seq<Track>, w: int, ch: Channel, y: int) -> int {
    (val(c, w, ch, 0, y) - val(c, w, ch, 1, y)) + (val(c, w, ch, w - 1, y) - val(c, w, ch, w - 2, y))
}

pub open spec fn side_fluxes(c: Seq<Track>, w: int, ch: Channel) -> spec_fn(int) -> int {
    |y: int| side_flux(c, w, ch, y)
}

/// How much the border ring exceeds the interior cells next to it, summed
/// over every such pair: the per-unit-of-`k` flow into the interior.
pub open spec fn border_flux(c: Seq<Track>, w: int, h: int, ch: Channel) -> int {
    if w < 3 || h < 3 {
        0
    } else {
        sum_range(1, h - 1, side_fluxes(c, w, ch)) + (row_interior_sum(c, w, ch, 0)
            - row_interior_sum(c, w, ch, 1)) + (row_interior_sum(c, w, ch, h - 1)
            - row_interior_sum(c, w, ch, h - 2))
    }
}

/// Number of cells that have four neighbours.
pub open spec fn interior_count(w: int, h: int) -> int {
    if w < 3 || h < 3 {
        0
    } else {
        (w - 2) * (h - 2)
    }
}

/// `c * (1 - 4k) + neighbours * k` at cell `(x, y)`, scaled by `UNIT` and not rounded.
pub open spec fn exact_update(c: Seq<Track>, w: int, ch: Channel, k: int, x: int, y: int) -> int {
    val(c, w, ch, x, y) * (UNIT - 4 * k) + k * (val(c, w, ch, x - 1, y) + val(c, w, ch, x + 1, y)
        + val(c, w, ch, x, y - 1) + val(c, w, ch, x, y + 1))
}

pub open spec fn exact_row(c: Seq<Track>, w: int, ch: Channel, k: int, y: int) -> spec_fn(int) -> int {
    |x: int| exact_update(c, w, ch, k, x, y)
}

pub open spec fn exact_rows(c: Seq<Track>, w: int, ch: Channel, k: int) -> spec_fn(int) -> int {
    |y: int| sum_range(1, w - 1, exact_row(c, w, ch, k, y))
}

/// Row `y` of the unrounded update sums to the row's own mass plus `k` times
/// what flows in from its neighbours.
proof fn lemma_exact_row(c: Seq<Track>, w: int, ch: Channel, k: int, y: int)
    requires
        w >= 2,
    ensures
        sum_range(1, w - 1, exact_row(c, w, ch, k, y)) == UNIT * row_interior_sum(c, w, ch, y) + k
            * (side_flux(c, w, ch, y) + row_interior_sum(c, w, ch, y - 1) - 2
            * row_interior_sum(c, w, ch, y) + row_interior_sum(c, w, ch, y + 1)),
{
    let v = row_vals(c, w, ch, y);
    let up = row_vals(c, w, ch, y - 1);
    let down = row_vals(c, w, ch, y + 1);
    let hl = |x: int| val(c, w, ch, x - 1, y) - 2 * val(c, w, ch, x, y) + val(c, w, ch, x + 1, y);
    let g = |x: int| val(c, w, ch, x - 1, y) - val(c, w, ch, x, y);
    lemma_sum_telescope(1, w - 1, hl, g);
    let ud = |x: int| val(c, w, ch, x, y - 1) + val(c, w, ch, x, y + 1);
    lemma_sum_linear(1, w - 1, up, down, ud, 1, 1);
    let lv = |x: int| val(c, w, ch, x, y - 1) - 2 * val(c, w, ch, x, y) + val(c, w, ch, x, y + 1);
    lemma_sum_linear(1, w - 1, ud, v, lv, 1, -2);
    let lap = |x: int| hl(x) + lv(x);
    lemma_sum_linear(1, w - 1, hl, lv, lap, 1, 1);
    let e = exact_row(c, w, ch, k, y);
    assert forall|x: int| 1 <= x < w - 1 implies #[trigger] e(x) == UNIT * v(x) + k * lap(x) by {
        let a = val(c, w, ch, x, y);
        let n = val(c, w, ch, x - 1, y) + val(c, w, ch, x + 1, y) + val(c, w, ch, x, y - 1) + val(
            c,
            w,
            ch,
            x,
            y + 1,
        );
        assert(a * (UNIT - 4 * k) + k * n == UNIT * a + k * (n - 4 * a)) by (nonlinear_arith);
    }
    lemma_sum_linear(1, w - 1, v, lap, e, UNIT as int, k);
}

/// The mass of the interior cells changes in one diffusion step by `k` times
/// the flow from the border ring, less what rounding each cell down drops
/// (under one millionth of a unit per interior cell): scaled by `UNIT`, the
/// interior mass after the step lies within that rounding of the mass before
/// plus the border flow.
pub proof fn lemma_diffusion_conserves(before: Tracks, after: Tracks, k: int, ch: Channel)
    requires
        before.wf(),
        after.wf(),
        after.w() == before.w(),
        after.h() == before.h(),
        0 <= 4 * k < UNIT,
        forall|i: int|
            0 <= i < before.cells().len() ==> #[trigger] after.cells()[i] == if is_interior(
                before.w(),
                before.h(),
                i,
            ) {
                diffused(before.cells(), before.w(), i, k)
            } else {
                before.cells()[i]
            },
    ensures
        ({
            let (w, h) = (before.w(), before.h());
            let s0 = interior_sum(before.cells(), w, h, ch);
            let s1 = interior_sum(after.cells(), w, h, ch);
            let flow = k * border_flux(before.cells(), w, h, ch);
            &&& UNIT * s1 <= UNIT * s0 + flow
            &&& UNIT * s0 + flow <= UNIT * s1 + (UNIT - 1) * interior_count(w, h)
        }),
{
    let (w, h) = (before.w(), before.h());
    let c0 = before.cells();
    let c1 = after.cells();
    let u = UNIT as int;
    if w < 3 || h < 3 {
        if h >= 3 {
            lemma_sum_ext(1, h - 1, row_interior_sums(c0, w, ch), |y: int| 0);
            lemma_sum_ext(1, h - 1, row_interior_sums(c1, w, ch), |y: int| 0);
            crate::sum::lemma_sum_zero(1, h - 1, |y: int| 0);
        }
        return ;
    }
    let r0 = row_interior_sums(c0, w, ch);
    let r1 = row_interior_sums(c1, w, ch);
    let er = exact_rows(c0, w, ch, k);
    // Each interior cell after the step is its unrounded update divided by UNIT.
    let gap = |x: int, y: int| exact_update(c0, w, ch, k, x, y) - u * val(c1, w, ch, x, y);
    let gap_rows = |y: int| sum_range(1, w - 1, |x: int| gap(x, y));
    assert forall|y: int| 1 <= y < h - 1 implies {
        &&& #[trigger] gap_rows(y) == er(y) - u * r1(y)
        &&& 0 <= gap_rows(y) <= (w - 2) * (u - 1)
    } by {
        let gr = |x: int| gap(x, y);
        assert forall|x: int| 1 <= x < w - 1 implies 0 <= #[trigger] gr(x) <= u - 1 by {
            let i = x + y * w;
            lemma_cell_index(x, y, w, h);
            assert(is_interior(w, h, i));
            assert(i - w == x + (y - 1) * w) by (nonlinear_arith)
                requires
                    i == x + y * w,
            ;
            assert(i + w == x + (y + 1) * w) by (nonlinear_arith)
                requires
                    i == x + y * w,
            ;
            assert(0 <= i - w);
            assert(i + w < w * h) by (nonlinear_arith)
                requires
                    i + w == x + (y + 1) * w,
                    0 <= x < w,
                    0 <= y,
                    y + 2 <= h,
            ;
            let e = exact_update(c0, w, ch, k, x, y);
            let n = neighbour_sum(c0, w, i, ch);
            assert(track_bounded(c0[i]) && track_bounded(c0[i - 1]) && track_bounded(c0[i + 1])
                && track_bounded(c0[i - w]) && track_bounded(c0[i + w]));
            assert(n == val(c0, w, ch, x - 1, y) + val(c0, w, ch, x + 1, y) + val(c0, w, ch, x, y - 1)
                + val(c0, w, ch, x, y + 1));
            lemma_diffuse_bounds(val(c0, w, ch, x, y), n, k, u);
            assert(val(c1, w, ch, x, y) == diffuse_value(val(c0, w, ch, x, y), n, k));
            assert(val(c1, w, ch, x, y) == e / u);
            vstd::arithmetic::div_mod::lemma_fundamental_div_mod(e, u);
        }
        lemma_sum_bounds(1, w - 1, gr, u - 1);
        lemma_sum_linear(1, w - 1, exact_row(c0, w, ch, k, y), row_vals(c1, w, ch, y), gr, 1, -u);
    }
    // Summing the rows: the unrounded updates telescope to the border flow.
    let rv = |y: int| r0(y - 1) - 2 * r0(y) + r0(y + 1);
    let gg = |y: int| r0(y - 1) - r0(y);
    lemma_sum_telescope(1, h - 1, rv, gg);
    let inner = |y: int| side_flux(c0, w, ch, y) + rv(y);
    lemma_sum_linear(1, h - 1, side_fluxes(c0, w, ch), rv, inner, 1, 1);
    assert forall|y: int| 1 <= y < h - 1 implies #[trigger] er(y) == u * r0(y) + k * inner(y) by {
        lemma_exact_row(c0, w, ch, k, y);
    }
    lemma_sum_linear(1, h - 1, r0, inner, er, u, k);
    lemma_sum_linear(1, h - 1, er, r1, gap_rows, 1, -u);
    lemma_sum_bounds(1, h - 1, gap_rows, (w - 2) * (u - 1));
    assert((h - 2) * ((w - 2) * (u - 1)) == (u - 1) * ((w - 2) * (h - 2))) by (nonlinear_arith);
}

} // verus!
