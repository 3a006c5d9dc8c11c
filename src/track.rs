//! The pheromone field: a grid of cells over the world, each holding a food
//! trail and a nest trail concentration in `[0, UNIT]`.
use vstd::prelude::*;

use crate::config::{SimulationConfig, TICKS_PER_SECOND, TRACK_RESOLUTION, UNIT};
use crate::geometry::{lemma_square_bound, square, within_limit, Position, QUERY_LIMIT};
use crate::sum::{lemma_sum_split, lemma_sum_zero, sum_range};

verus! {

/// Largest number of cells along one side of the field.
pub const MAX_TRACK_SIDE: usize = 0x1_0000;

/// Half the edge length of a cell.
pub const HALF_TRACK_RESOLUTION: i64 = 2000;

/// The two concentrations of one cell.
#[derive(Clone, Copy, PartialEq, Eq, Structural, Debug)]
pub struct Track {
    pub food: u64,
    pub nest: u64,
}

/// A trail that can be marked.
#[derive(Clone, Copy, PartialEq, Eq, Structural, Debug)]
pub enum Channel {
    Food,
    Nest,
}

/// What is read from a cell: one trail, or the stronger of the two.
#[derive(Clone, Copy, PartialEq, Eq, Structural, Debug)]
pub enum Signal {
    Food,
    Nest,
    Strongest,
}

pub open spec fn track_bounded(t: Track) -> bool {
    t.food <= UNIT && t.nest <= UNIT
}

pub open spec fn signal_value(t: Track, s: Signal) -> int {
    match s {
        Signal::Food => t.food as int,
        Signal::Nest => t.nest as int,
        Signal::Strongest => if t.food >= t.nest {
            t.food as int
        } else {
            t.nest as int
        },
    }
}

pub open spec fn add_capped(v: int, amount: int) -> int {
    if v + amount <= UNIT {
        v + amount
    } else {
        UNIT as int
    }
}

/// `t` after `amount` was added to `channel`, capped at one unit.
pub open spec fn deposited(t: Track, channel: Channel, amount: int) -> Track {
    match channel {
        Channel::Food => Track { food: add_capped(t.food as int, amount) as u64, nest: t.nest },
        Channel::Nest => Track { food: t.food, nest: add_capped(t.nest as int, amount) as u64 },
    }
}

/// Concentration `v` after one tick of decay by `factor` millionths.
pub open spec fn decayed(v: int, factor: int) -> int {
    v * factor / UNIT as int
}

/// `v` after `n` ticks of decay by `factor` millionths.
pub open spec fn decayed_times(v: int, factor: int, n: nat) -> int
    decreases n,
{
    if n == 0 {
        v
    } else {
        decayed(decayed_times(v, factor, (n - 1) as nat), factor)
    }
}

pub open spec fn decayed_track(t: Track, factor: int) -> Track {
    Track { food: decayed(t.food as int, factor) as u64, nest: decayed(t.nest as int, factor) as u64 }
}

pub open spec fn channel_value(t: Track, channel: Channel) -> int {
    match channel {
        Channel::Food => t.food as int,
        Channel::Nest => t.nest as int,
    }
}

/// Whether index `i` of a `w` by `h` grid has all four axis neighbours.
pub open spec fn is_interior(w: int, h: int, i: int) -> bool {
    1 <= i % w < w - 1 && 1 <= i / w < h - 1
}

/// The four neighbours' sum of `channel` around index `i`.
pub open spec fn neighbour_sum(cells: Seq<Track>, w: int, i: int, channel: Channel) -> int {
    channel_value(cells[i - 1], channel) + channel_value(cells[i + 1], channel) + channel_value(
        cells[i - w],
        channel,
    ) + channel_value(cells[i + w], channel)
}

/// A cell of value `c` whose neighbours sum to `n`, after one diffusion step
/// with coefficient `k` millionths: `c * (1 - 4k) + n * k`, rounded down.
pub open spec fn diffuse_value(c: int, n: int, k: int) -> int {
    (c * (UNIT - 4 * k) + k * n) / UNIT as int
}

pub open spec fn diffused(cells: Seq<Track>, w: int, i: int, k: int) -> Track {
    Track {
        food: diffuse_value(cells[i].food as int, neighbour_sum(cells, w, i, Channel::Food), k) as u64,
        nest: diffuse_value(cells[i].nest as int, neighbour_sum(cells, w, i, Channel::Nest), k) as u64,
    }
}

/// Whether, in a grid of `w` by `h` cells centred on the world's origin, the
/// corner point of cell `(x, y)` lies within `r` of `c`.
pub open spec fn grid_in_circle(w: int, h: int, c: Position, r: int, x: int, y: int) -> bool {
    &&& 0 <= x < w
    &&& 0 <= y < h
    &&& 0 <= r
    &&& square(c.x + w * HALF_TRACK_RESOLUTION - x * TRACK_RESOLUTION) + square(
        h * HALF_TRACK_RESOLUTION - c.y - y * TRACK_RESOLUTION,
    ) <= r * r
}

/// Whether the cell stored at index `i` of such a grid lies within `r` of `c`.
pub open spec fn grid_index_in_circle(w: int, h: int, c: Position, r: int, i: int) -> bool {
    grid_in_circle(w, h, c, r, i % w, i / w)
}

/// `c1` is `c0` after one tick of decay by `factor` millionths.
pub open spec fn cells_decayed(c0: Seq<Track>, c1: Seq<Track>, factor: int) -> bool {
    &&& c1.len() == c0.len()
    &&& forall|i: int| 0 <= i < c0.len() ==> #[trigger] c1[i] == decayed_track(c0[i], factor)
}

/// `c1` is `c0`, a `w` by `h` grid, after one diffusion step with coefficient `k`.
pub open spec fn cells_diffused(c0: Seq<Track>, c1: Seq<Track>, w: int, h: int, k: int) -> bool {
    &&& c1.len() == c0.len()
    &&& forall|i: int|
        0 <= i < c0.len() ==> #[trigger] c1[i] == if is_interior(w, h, i) {
            diffused(c0, w, i, k)
        } else {
            c0[i]
        }
}

/// `c1` is `c0`, a `w` by `h` grid, after `amount` was added to `channel` of
/// every cell within `r` of `c`.
pub open spec fn cells_deposited(
    c0: Seq<Track>,
    c1: Seq<Track>,
    w: int,
    h: int,
    c: Position,
    r: int,
    channel: Channel,
    amount: int,
) -> bool {
    &&& c1.len() == c0.len()
    &&& forall|i: int|
        0 <= i < c0.len() ==> #[trigger] c1[i] == if grid_index_in_circle(w, h, c, r, i) {
            deposited(c0[i], channel, amount)
        } else {
            c0[i]
        }
}

/// The grid, row by row from the top; cell `(x, y)` is at index `x + y * width`.
pub struct Tracks {
    width: usize,
    height: usize,
    cells: Vec<Track>,
}

impl Tracks {
    pub closed spec fn w(&self) -> int {
        self.width as int
    }

    pub closed spec fn h(&self) -> int {
        self.height as int
    }

    pub closed spec fn cells(&self) -> Seq<Track> {
        self.cells@
    }

    pub open spec fn wf(&self) -> bool {
        &&& 1 <= self.w() <= MAX_TRACK_SIDE
        &&& 1 <= self.h() <= MAX_TRACK_SIDE
        &&& self.cells().len() == self.w() * self.h()
        &&& self.w() * self.h() <= usize::MAX
        &&& forall|i: int| 0 <= i < self.cells().len() ==> track_bounded(#[trigger] self.cells()[i])
    }

    /// The cell at column `x`, row `y`.
    pub open spec fn at(&self, x: int, y: int) -> Track {
        self.cells()[x + y * self.w()]
    }

    /// Distance from the left edge of the world to its centre.
    pub open spec fn half_w(&self) -> int {
        self.w() * HALF_TRACK_RESOLUTION
    }

    /// Distance from the top edge of the world to its centre.
    pub open spec fn half_h(&self) -> int {
        self.h() * HALF_TRACK_RESOLUTION
    }

    /// A world abscissa measured from the left edge.
    pub open spec fn gx(&self, x: int) -> int {
        x + self.half_w()
    }

    /// A world ordinate measured downwards from the top edge.
    pub open spec fn gy(&self, y: int) -> int {
        self.half_h() - y
    }

    /// The cell that holds `p`, if `p` lies in the world.
    pub open spec fn grid_of(&self, p: Position) -> Option<(int, int)> {
        if 0 <= self.gx(p.x as int) < self.w() * TRACK_RESOLUTION && 0 <= self.gy(p.y as int)
            < self.h() * TRACK_RESOLUTION {
            Some((self.gx(p.x as int) / TRACK_RESOLUTION as int, self.gy(p.y as int)
                / TRACK_RESOLUTION as int))
        } else {
            None
        }
    }

    /// The world point of the top-left corner of cell `(x, y)`.
    pub open spec fn world_of(&self, x: int, y: int) -> (int, int) {
        (x * TRACK_RESOLUTION - self.half_w(), self.half_h() - y * TRACK_RESOLUTION)
    }

    /// Whether the corner point of cell `(x, y)` lies within `r` of `c`.
    pub open spec fn in_circle(&self, c: Position, r: int, x: int, y: int) -> bool {
        grid_in_circle(self.w(), self.h(), c, r, x, y)
    }

    pub open spec fn signal_term(&self, c: Position, r: int, s: Signal, x: int, y: int) -> int {
        if self.in_circle(c, r, x, y) {
            signal_value(self.at(x, y), s)
        } else {
            0
        }
    }

    pub open spec fn row_terms(&self, c: Position, r: int, s: Signal, y: int) -> spec_fn(int) -> int {
        |x: int| self.signal_term(c, r, s, x, y)
    }

    pub open spec fn row_sums(&self, c: Position, r: int, s: Signal) -> spec_fn(int) -> int {
        |y: int| sum_range(0, self.w(), self.row_terms(c, r, s, y))
    }

    /// The sum of signal `s` over the cells within `r` of `c`.
    pub open spec fn circle_sum(&self, c: Position, r: int, s: Signal) -> int {
        sum_range(0, self.h(), self.row_sums(c, r, s))
    }

    /// Whether the cell stored at index `i` lies within `r` of `c`.
    pub open spec fn index_in_circle(&self, c: Position, r: int, i: int) -> bool {
        self.in_circle(c, r, i % self.w(), i / self.w())
    }

    /// An empty field of `width` by `height` cells.
    pub fn new(width: usize, height: usize) -> (r: Self)
        requires
            1 <= width <= MAX_TRACK_SIDE,
            1 <= height <= MAX_TRACK_SIDE,
            width * height <= usize::MAX,
        ensures
            r.wf(),
            r.w() == width,
            r.h() == height,
            forall|i: int| 0 <= i < r.cells().len() ==> #[trigger] r.cells()[i] == (Track { food: 0, nest: 0 }),
    {
        let n: usize = width * height;
        let mut cells: Vec<Track> = Vec::new();
        while cells.len() < n
            invariant
                cells.len() <= n,
                forall|i: int| 0 <= i < cells.len() ==> #[trigger] cells@[i] == (Track { food: 0, nest: 0 }),
            decreases n - cells.len(),
        {
            cells.push(Track { food: 0, nest: 0 });
        }
        Tracks { width, height, cells }
    }

    pub fn width(&self) -> (r: usize)
        ensures
            r == self.w(),
    {
        self.width
    }

    pub fn height(&self) -> (r: usize)
        ensures
            r == self.h(),
    {
        self.height
    }

    /// The cell at column `x`, row `y`.
    pub fn track_at(&self, x: usize, y: usize) -> (r: Track)
        requires
            self.wf(),
            x < self.w(),
            y < self.h(),
        ensures
            r == self.at(x as int, y as int),
    {
        proof {
            lemma_cell_index(x as int, y as int, self.w(), self.h());
        }
        self.cells[x + y * self.width]
    }

    /// A box `[x0, x1) × [y0, y1)` of cells that holds every cell within `r` of `c`.
    fn circle_box(&self, c: Position, r: i64) -> (b: (usize, usize, usize, usize))
        requires
            self.wf(),
            within_limit(c, QUERY_LIMIT as int),
            r <= QUERY_LIMIT,
        ensures
            b.0 <= b.1 <= self.w(),
            b.2 <= b.3 <= self.h(),
            forall|x: int, y: int|
                #[trigger] self.in_circle(c, r as int, x, y) ==> b.0 <= x < b.1 && b.2 <= y < b.3,
    {
        if r < 0 {
            return (0, 0, 0, 0);
        }
        assert(self.width <= MAX_TRACK_SIDE && self.height <= MAX_TRACK_SIDE);
        let gx: i128 = c.x as i128 + self.width as i128 * 2000;
        let gy: i128 = self.height as i128 * 2000 - c.y as i128;
        let (x0, x1) = axis_range(gx, r as i128, self.width);
        let (y0, y1) = axis_range(gy, r as i128, self.height);
        assert forall|x: int, y: int| #[trigger]
            self.in_circle(c, r as int, x, y) implies x0 <= x < x1 && y0 <= y < y1 by {
            lemma_square_nonneg(gx - x * TRACK_RESOLUTION);
            lemma_square_nonneg(gy - y * TRACK_RESOLUTION);
            assert(square(gx - x * TRACK_RESOLUTION) <= r * r);
            assert(square(gy - y * TRACK_RESOLUTION) <= r * r);
        }
        (x0, x1, y0, y1)
    }

    /// Whether the corner point of cell `(x, y)` lies within `r` of `c`.
    fn cell_in_circle(&self, c: Position, r: i64, x: usize, y: usize) -> (b: bool)
        requires
            self.wf(),
            within_limit(c, QUERY_LIMIT as int),
            0 <= r <= QUERY_LIMIT,
            x < self.w(),
            y < self.h(),
        ensures
            b == self.in_circle(c, r as int, x as int, y as int),
    {
        assert(self.width <= MAX_TRACK_SIDE && self.height <= MAX_TRACK_SIDE);
        let dx: i128 = c.x as i128 + self.width as i128 * 2000 - x as i128
            * 4000;
        let dy: i128 = self.height as i128 * 2000 - c.y as i128 - y as i128
            * 4000;
        let rr: i128 = r as i128;
        proof {
            lemma_square_bound(dx as int, 0x4000_0000_0000_0000);
            lemma_square_bound(dy as int, 0x4000_0000_0000_0000);
            lemma_square_bound(rr as int, 0x4000_0000_0000_0000);
        }
        dx * dx + dy * dy <= rr * rr
    }

    /// The sum of `signal` over the cells within `radius` of `center`; a
    /// negative radius selects no cell.
    pub fn within_circle(&self, center: Position, radius: i64, signal: Signal) -> (r: u64)
        requires
            self.wf(),
            within_limit(center, QUERY_LIMIT as int),
            radius <= QUERY_LIMIT,
        ensures
            r == self.circle_sum(center, radius as int, signal),
            r <= 0x1_0000 * (0x1_0000 * UNIT),
    {
        let ghost c = center;
        let ghost rad = radius as int;
        let (x0, x1, y0, y1) = self.circle_box(center, radius);
        let ghost w = self.w();
        let ghost h = self.h();
        let mut total: u64 = 0;
        let mut y: usize = y0;
        while y < y1
            invariant
                self.wf(),
                w == self.w(),
                h == self.h(),
                x0 <= x1 <= w,
                y0 <= y <= y1 <= h,
                total == sum_range(y0 as int, y as int, self.row_sums(c, rad, signal)),
                total <= (y - y0) * (w * UNIT),
                total <= 0x1_0000 * (0x1_0000 * UNIT),
                within_limit(center, QUERY_LIMIT as int),
                radius <= QUERY_LIMIT,
                c == center,
                rad == radius,
                forall|x: int, y: int|
                    #[trigger] self.in_circle(c, rad, x, y) ==> x0 <= x < x1 && y0 <= y < y1,
            decreases y1 - y,
        {
            let ghost before = total;
            let ghost terms = self.row_terms(c, rad, signal, y as int);
            assert(y - y0 < h);
            assert((y - y0) * (w * UNIT) + w * UNIT <= h * (w * UNIT)) by (nonlinear_arith)
                requires
                    y - y0 < h,
                    0 <= w,
            ;
            assert(h * (w * UNIT) <= 0x1_0000 * (0x1_0000 * UNIT)) by (nonlinear_arith)
                requires
                    0 <= h <= 0x1_0000,
                    0 <= w <= 0x1_0000,
            ;
            let mut x: usize = x0;
            while x < x1
                invariant
                    self.wf(),
                    w == self.w(),
                    h == self.h(),
                    x0 <= x <= x1 <= w,
                    y0 <= y < y1 <= h,
                    terms == self.row_terms(c, rad, signal, y as int),
                    total == before + sum_range(x0 as int, x as int, terms),
                    total <= before + (x - x0) * UNIT,
                    before + w * UNIT <= 0x1_0000 * (0x1_0000 * UNIT),
                    within_limit(center, QUERY_LIMIT as int),
                    radius <= QUERY_LIMIT,
                    c == center,
                    rad == radius,
                decreases x1 - x,
            {
                proof {
                    lemma_cell_index(x as int, y as int, w, h);
                }
                if radius >= 0 && self.cell_in_circle(center, radius, x, y) {
                    let v = signal_of(self.cells[x + y * self.width], signal);
                    assert(track_bounded(self.cells()[x + y * w]));
                    total = total + v;
                }
                x = x + 1;
            }
            proof {
                lemma_sum_split(0, x0 as int, w, terms);
                lemma_sum_split(x0 as int, x1 as int, w, terms);
                lemma_sum_zero(0, x0 as int, terms);
                lemma_sum_zero(x1 as int, w, terms);
                assert(self.row_sums(c, rad, signal)(y as int) == sum_range(0, w, terms));
                assert(total <= (y + 1 - y0) * (w * UNIT)) by (nonlinear_arith)
                    requires
                        total <= before + (x1 - x0) * UNIT,
                        before <= (y - y0) * (w * UNIT),
                        x1 - x0 <= w,
                ;
                assert(total <= (y - y0) * (w * UNIT) + w * UNIT) by (nonlinear_arith)
                    requires
                        total <= before + (x1 - x0) * UNIT,
                        before <= (y - y0) * (w * UNIT),
                        x1 - x0 <= w,
                ;
            }
            y = y + 1;
        }
        proof {
            let rows = self.row_sums(c, rad, signal);
            lemma_sum_split(0, y0 as int, h, rows);
            lemma_sum_split(y0 as int, y1 as int, h, rows);
            assert forall|yy: int| 0 <= yy < y0 || y1 <= yy < h implies #[trigger] rows(yy) == 0 by {
                lemma_sum_zero(0, w, self.row_terms(c, rad, signal, yy));
            }
            lemma_sum_zero(0, y0 as int, rows);
            lemma_sum_zero(y1 as int, h, rows);
        }
        total
    }

    /// Adds `amount` to `channel` of every cell within `radius` of `center`,
    /// capping each at one unit; a negative radius selects no cell.
    pub fn within_circle_mut(&mut self, center: Position, radius: i64, channel: Channel, amount: u64)
        requires
            old(self).wf(),
            within_limit(center, QUERY_LIMIT as int),
            radius <= QUERY_LIMIT,
        ensures
            final(self).wf(),
            final(self).w() == old(self).w(),
            final(self).h() == old(self).h(),
            forall|i: int|
                0 <= i < old(self).cells().len() ==> #[trigger] final(self).cells()[i] == if old(
                    self,
                ).index_in_circle(center, radius as int, i) {
                    deposited(old(self).cells()[i], channel, amount as int)
                } else {
                    old(self).cells()[i]
                },
    {
        let ghost start = *self;
        let ghost rad = radius as int;
        let (x0, x1, y0, y1) = self.circle_box(center, radius);
        let ghost w = self.w();
        let ghost h = self.h();
        let mut y: usize = y0;
        while y < y1
            invariant
                self.wf(),
                w == self.w() == start.w(),
                h == self.h() == start.h(),
                start.wf(),
                x0 <= x1 <= w,
                y0 <= y <= y1 <= h,
                within_limit(center, QUERY_LIMIT as int),
                radius <= QUERY_LIMIT,
                rad == radius,
                forall|x: int, y: int|
                    #[trigger] start.in_circle(center, rad, x, y) ==> x0 <= x < x1 && y0 <= y < y1,
                self.cells().len() == start.cells().len(),
                forall|i: int|
                    0 <= i < start.cells().len() ==> #[trigger] self.cells()[i] == if start.index_in_circle(
                        center,
                        rad,
                        i,
                    ) && i / w < y {
                        deposited(start.cells()[i], channel, amount as int)
                    } else {
                        start.cells()[i]
                    },
            decreases y1 - y,
        {
            let mut x: usize = x0;
            while x < x1
                invariant
                    self.wf(),
                    w == self.w() == start.w(),
                    h == self.h() == start.h(),
                    start.wf(),
                    x0 <= x <= x1 <= w,
                    y0 <= y < y1 <= h,
                    within_limit(center, QUERY_LIMIT as int),
                    radius <= QUERY_LIMIT,
                    rad == radius,
                    forall|x: int, y: int|
                        #[trigger] start.in_circle(center, rad, x, y) ==> x0 <= x < x1 && y0 <= y < y1,
                    self.cells().len() == start.cells().len(),
                    forall|i: int|
                        0 <= i < start.cells().len() ==> #[trigger] self.cells()[i] == if start.index_in_circle(
                            center,
                            rad,
                            i,
                        ) && (i / w < y || (i / w == y && i % w < x)) {
                            deposited(start.cells()[i], channel, amount as int)
                        } else {
                            start.cells()[i]
                        },
                decreases x1 - x,
            {
                proof {
                    lemma_cell_index(x as int, y as int, w, h);
                }
                let k: usize = x + y * self.width;
                if radius >= 0 && self.cell_in_circle(center, radius, x, y) {
                    let t = self.cells[k];
                    assert(t == start.cells()[k as int]);
                    let t2 = deposit_track(t, channel, amount);
                    self.cells.set(k, t2);
                    assert forall|i: int| 0 <= i < self.cells().len() implies track_bounded(
                        #[trigger] self.cells()[i],
                    ) by {
                        if i != k {
                        }
                    }
                }
                assert forall|i: int| 0 <= i < start.cells().len() implies #[trigger] self.cells()[i]
                    == if start.index_in_circle(center, rad, i) && (i / w < y || (i / w == y && i % w
                    < x + 1)) {
                    deposited(start.cells()[i], channel, amount as int)
                } else {
                    start.cells()[i]
                } by {
                    vstd::arithmetic::div_mod::lemma_fundamental_div_mod(i, w);
                    if i / w == y && i % w == x {
                        vstd::arithmetic::mul::lemma_mul_is_commutative(w, y as int);
                        assert(i == k);
                    }
                }
                x = x + 1;
            }
            assert forall|i: int| 0 <= i < start.cells().len() implies #[trigger] self.cells()[i]
                == if start.index_in_circle(center, rad, i) && i / w < y + 1 {
                deposited(start.cells()[i], channel, amount as int)
            } else {
                start.cells()[i]
            } by {
                if start.index_in_circle(center, rad, i) {
                    assert(start.in_circle(center, rad, i % w, i / w));
                }
            }
            y = y + 1;
        }
        assert forall|i: int| 0 <= i < start.cells().len() implies #[trigger] self.cells()[i] == if start.index_in_circle(
            center,
            rad,
            i,
        ) {
            deposited(start.cells()[i], channel, amount as int)
        } else {
            start.cells()[i]
        } by {
            if start.index_in_circle(center, rad, i) {
                assert(start.in_circle(center, rad, i % w, i / w));
            }
        }
    }

    /// The cell that holds `p`, or `None` outside the world.
    #[verifier::spinoff_prover]
    pub fn world_to_grid(&self, p: Position) -> (r: Option<(usize, usize)>)
        requires
            self.wf(),
        ensures
            r matches Some((x, y)) ==> self.grid_of(p) == Some((x as int, y as int)),
            r is None ==> self.grid_of(p) is None,
    {
        assert(self.width <= MAX_TRACK_SIDE && self.height <= MAX_TRACK_SIDE);
        let gx: i128 = p.x as i128 + self.width as i128 * 2000;
        let gy: i128 = self.height as i128 * 2000 - p.y as i128;
        assert(TRACK_RESOLUTION == 4000);
        let extent_x: i128 = self.width as i128 * 4000;
        let extent_y: i128 = self.height as i128 * 4000;
        if 0 <= gx && gx < extent_x && 0 <= gy && gy < extent_y {
            let x = (gx as u128 / 4000) as usize;
            let y = (gy as u128 / 4000) as usize;
            Some((x, y))
        } else {
            None
        }
    }

    /// The world point of the top-left corner of cell `(x, y)`.
    pub fn grid_to_world(&self, x: usize, y: usize) -> (r: Position)
        requires
            self.wf(),
            x < self.w(),
            y < self.h(),
        ensures
            (r.x as int, r.y as int) == self.world_of(x as int, y as int),
    {
        let wx: i64 = x as i64 * TRACK_RESOLUTION - self.width as i64 * HALF_TRACK_RESOLUTION;
        let wy: i64 = self.height as i64 * HALF_TRACK_RESOLUTION - y as i64 * TRACK_RESOLUTION;
        Position { x: wx, y: wy }
    }
}

/// `t` after `amount` was added to `channel`, capped at one unit.
pub fn deposit_track(t: Track, channel: Channel, amount: u64) -> (r: Track)
    requires
        track_bounded(t),
    ensures
        r == deposited(t, channel, amount as int),
        track_bounded(r),
{
    match channel {
        Channel::Food => Track { food: add_capped_exec(t.food, amount), nest: t.nest },
        Channel::Nest => Track { food: t.food, nest: add_capped_exec(t.nest, amount) },
    }
}

fn add_capped_exec(v: u64, amount: u64) -> (r: u64)
    requires
        v <= UNIT,
    ensures
        r == add_capped(v as int, amount as int),
{
    if amount <= UNIT - v {
        v + amount
    } else {
        UNIT
    }
}

/// `q` millionths raised to the power `n` in fixed point, rounding down after
/// every multiplication.
pub open spec fn fixed_pow(q: int, n: nat) -> int
    decreases n,
{
    if n == 0 {
        UNIT as int
    } else {
        fixed_pow(q, (n - 1) as nat) * q / UNIT as int
    }
}

/// Whether `q` is the per-tick factor of a per-second decay base `f`: the
/// largest factor of at most one unit whose `TICKS_PER_SECOND`-th fixed-point
/// power does not exceed `f` (that is, `f` to the power of one tick, in millionths).
pub open spec fn is_tick_factor(f: int, q: int) -> bool {
    &&& 0 <= q <= UNIT
    &&& fixed_pow(q, TICKS_PER_SECOND as nat) <= f
    &&& q == UNIT || fixed_pow(q + 1, TICKS_PER_SECOND as nat) > f
}

/// The per-tick factor of per-second decay base `f`.
pub open spec fn tick_factor(f: int) -> int {
    choose|q: int| is_tick_factor(f, q)
}

/// Fixed-point powers of factors of at most one unit stay in `[0, UNIT]` and
/// grow with the factor.
pub proof fn lemma_fixed_pow_monotone(p: int, q: int, n: nat)
    requires
        0 <= p <= q <= UNIT,
    ensures
        0 <= fixed_pow(p, n) <= fixed_pow(q, n) <= UNIT,
    decreases n,
{
    if n > 0 {
        lemma_fixed_pow_monotone(p, q, (n - 1) as nat);
        let a = fixed_pow(p, (n - 1) as nat);
        let b = fixed_pow(q, (n - 1) as nat);
        let u = UNIT as int;
        assert(0 <= a * p <= b * q <= u * u) by (nonlinear_arith)
            requires
                0 <= a <= b <= u,
                0 <= p <= q <= u,
        ;
        vstd::arithmetic::div_mod::lemma_div_is_ordered(a * p, b * q, u);
        vstd::arithmetic::div_mod::lemma_div_is_ordered(b * q, u * u, u);
        vstd::arithmetic::div_mod::lemma_div_by_multiple(u, u);
        vstd::arithmetic::div_mod::lemma_div_pos_is_pos(a * p, u);
    }
}

/// Only one factor is the per-tick factor of `f`.
pub proof fn lemma_tick_factor_unique(f: int, q: int)
    requires
        is_tick_factor(f, q),
    ensures
        tick_factor(f) == q,
{
    let c = tick_factor(f);
    assert(is_tick_factor(f, c));
    if c < q {
        lemma_fixed_pow_monotone(c + 1, q, TICKS_PER_SECOND as nat);
    } else if q < c {
        lemma_fixed_pow_monotone(q + 1, c, TICKS_PER_SECOND as nat);
    }
}

proof fn lemma_fixed_pow_unit(n: nat)
    ensures
        fixed_pow(UNIT as int, n) == UNIT,
    decreases n,
{
    if n > 0 {
        lemma_fixed_pow_unit((n - 1) as nat);
    }
}

fn fixed_pow_exec(q: u64) -> (r: u64)
    requires
        q <= UNIT,
    ensures
        r == fixed_pow(q as int, TICKS_PER_SECOND as nat),
{
    let mut r: u64 = UNIT;
    let mut n: u64 = 0;
    while n < TICKS_PER_SECOND
        invariant
            q <= UNIT,
            n <= TICKS_PER_SECOND,
            r == fixed_pow(q as int, n as nat),
        decreases TICKS_PER_SECOND - n,
    {
        proof {
            lemma_fixed_pow_monotone(q as int, q as int, n as nat);
            assert(r * q <= UNIT * UNIT) by (nonlinear_arith)
                requires
                    r <= UNIT,
                    q <= UNIT,
            ;
        }
        r = r * q / UNIT;
        n = n + 1;
    }
    r
}

/// The per-tick factor of per-second decay base `f` (see `is_tick_factor`).
pub fn tick_factor_exec(f: u64) -> (r: u64)
    requires
        f <= UNIT,
    ensures
        r == tick_factor(f as int),
        is_tick_factor(f as int, r as int),
        f < UNIT ==> r < UNIT,
{
    let mut lo: u64 = 0;
    let mut hi: u64 = UNIT + 1;
    proof {
        lemma_fixed_pow_monotone(0, 0, TICKS_PER_SECOND as nat);
        assert(fixed_pow(0, TICKS_PER_SECOND as nat) == 0) by {
            assert(fixed_pow(0, TICKS_PER_SECOND as nat) == fixed_pow(
                0,
                (TICKS_PER_SECOND - 1) as nat,
            ) * 0 / UNIT as int);
        }
    }
    while hi - lo > 1
        invariant
            lo < hi <= UNIT + 1,
            f <= UNIT,
            fixed_pow(lo as int, TICKS_PER_SECOND as nat) <= f,
            hi == UNIT + 1 || fixed_pow(hi as int, TICKS_PER_SECOND as nat) > f,
        decreases hi - lo,
    {
        let mid = lo + (hi - lo) / 2;
        if fixed_pow_exec(mid) <= f {
            lo = mid;
        } else {
            hi = mid;
        }
    }
    proof {
        lemma_tick_factor_unique(f as int, lo as int);
        lemma_fixed_pow_unit(TICKS_PER_SECOND as nat);
    }
    lo
}

/// One tick of decay: every concentration is multiplied by the per-tick
/// factor of the configured per-second base (see `is_tick_factor`).
pub fn decay_tracks(tracks: &mut Tracks, config: &SimulationConfig)
    requires
        old(tracks).wf(),
        config.wf(),
    ensures
        final(tracks).wf(),
        tick_factor(config.track_concentration_factor as int) <= UNIT,
        config.track_concentration_factor < UNIT ==> tick_factor(
            config.track_concentration_factor as int,
        ) < UNIT,
        final(tracks).w() == old(tracks).w(),
        final(tracks).h() == old(tracks).h(),
        forall|i: int|
            0 <= i < old(tracks).cells().len() ==> #[trigger] final(tracks).cells()[i] == decayed_track(
                old(tracks).cells()[i],
                tick_factor(config.track_concentration_factor as int),
            ),
{
    let ghost start = *tracks;
    let factor = tick_factor_exec(config.track_concentration_factor);
    let n = tracks.cells.len();
    let mut i: usize = 0;
    while i < n
        invariant
            start.wf(),
            config.wf(),
            factor == tick_factor(config.track_concentration_factor as int),
            factor <= UNIT,
            n == start.cells().len(),
            tracks.w() == start.w(),
            tracks.h() == start.h(),
            tracks.cells().len() == n,
            0 <= i <= n,
            forall|j: int|
                0 <= j < n ==> #[trigger] tracks.cells()[j] == if j < i {
                    decayed_track(start.cells()[j], factor as int)
                } else {
                    start.cells()[j]
                },
        decreases n - i,
    {
        let t = tracks.cells[i];
        assert(track_bounded(start.cells()[i as int]));
        proof {
            lemma_decay_step(t.food as int, factor as int);
            lemma_decay_step(t.nest as int, factor as int);
            assert(t.food * factor <= UNIT * UNIT) by (nonlinear_arith)
                requires
                    t.food <= UNIT,
                    factor <= UNIT,
            ;
            assert(t.nest * factor <= UNIT * UNIT) by (nonlinear_arith)
                requires
                    t.nest <= UNIT,
                    factor <= UNIT,
            ;
        }
        let next = Track { food: t.food * factor / UNIT, nest: t.nest * factor / UNIT };
        tracks.cells.set(i, next);
        i = i + 1;
    }
    assert forall|j: int| 0 <= j < tracks.cells().len() implies track_bounded(#[trigger] tracks.cells()[j]) by {
        assert(track_bounded(start.cells()[j]));
        lemma_decay_step(start.cells()[j].food as int, factor as int);
        lemma_decay_step(start.cells()[j].nest as int, factor as int);
    }
}

/// Decay by a factor of at most one never raises a concentration nor makes it
/// negative; by a factor below one it strictly lowers every positive one.
pub proof fn lemma_decay_step(v: int, factor: int)
    requires
        0 <= v,
        0 <= factor <= UNIT,
    ensures
        0 <= decayed(v, factor) <= v,
        factor < UNIT && v > 0 ==> decayed(v, factor) < v,
{
    let u = UNIT as int;
    let q = decayed(v, factor);
    vstd::arithmetic::div_mod::lemma_fundamental_div_mod(v * factor, u);
    assert(0 <= v * factor <= v * u) by (nonlinear_arith)
        requires
            0 <= v,
            0 <= factor <= u,
    ;
    if q > v {
        assert(u * q >= u * (v + 1)) by (nonlinear_arith)
            requires
                q >= v + 1,
                u > 0,
        ;
    }
    if q < 0 {
        assert(u * q <= -u) by (nonlinear_arith)
            requires
                q <= -1,
                u > 0,
        ;
    }
    if factor < u && v > 0 {
        assert(v * factor <= v * u - v) by (nonlinear_arith)
            requires
                0 < v,
                0 <= factor < u,
        ;
        if q >= v {
            assert(u * q >= u * v) by (nonlinear_arith)
                requires
                    q >= v,
                    u > 0,
            ;
        }
    }
}

/// Repeated decay by a factor below one never goes negative, never rises, and
/// reaches zero after at most `v` ticks.
pub proof fn lemma_decay_converges(v: int, factor: int, n: nat)
    requires
        0 <= v,
        0 <= factor < UNIT,
    ensures
        0 <= decayed_times(v, factor, n) <= v,
        decayed_times(v, factor, n) <= if v >= n {
            v - n
        } else {
            0
        },
        n >= v ==> decayed_times(v, factor, n) == 0,
    decreases n,
{
    if n > 0 {
        lemma_decay_converges(v, factor, (n - 1) as nat);
        lemma_decay_step(decayed_times(v, factor, (n - 1) as nat), factor);
    }
}

/// One diffusion step over a consistent snapshot: every interior cell becomes
/// `self * (1 - 4k) + neighbours * k`; border cells keep their values.
pub fn diffuse_tracks(tracks: &mut Tracks, config: &SimulationConfig)
    requires
        old(tracks).wf(),
        config.wf(),
    ensures
        final(tracks).wf(),
        final(tracks).w() == old(tracks).w(),
        final(tracks).h() == old(tracks).h(),
        forall|i: int|
            0 <= i < old(tracks).cells().len() ==> #[trigger] final(tracks).cells()[i] == if is_interior(
                old(tracks).w(),
                old(tracks).h(),
                i,
            ) {
                diffused(old(tracks).cells(), old(tracks).w(), i, config.track_diffusion_factor as int)
            } else {
                old(tracks).cells()[i]
            },
{
    let ghost start = *tracks;
    let k = config.track_diffusion_factor;
    let w = tracks.width;
    let h = tracks.height;
    let n = tracks.cells.len();
    let mut next: Vec<Track> = Vec::new();
    let mut i: usize = 0;
    while i < n
        invariant
            start.wf(),
            *tracks == start,
            4 * k < UNIT,
            w == start.w(),
            h == start.h(),
            n == start.cells().len(),
            0 <= i <= n,
            next.len() == i,
            forall|j: int|
                0 <= j < i ==> #[trigger] next@[j] == if is_interior(w as int, h as int, j) {
                    diffused(start.cells(), w as int, j, k as int)
                } else {
                    start.cells()[j]
                },
            forall|j: int| 0 <= j < i ==> track_bounded(#[trigger] next@[j]),
        decreases n - i,
    {
        let x = i % w;
        let y = i / w;
        if 1 <= x && x + 1 < w && 1 <= y && y + 1 < h {
            proof {
                lemma_interior_neighbours(i as int, w as int, h as int);
            }
            let c = tracks.cells[i];
            let a = tracks.cells[i - 1];
            let b = tracks.cells[i + 1];
            let u = tracks.cells[i - w];
            let d = tracks.cells[i + w];
            assert(track_bounded(c) && track_bounded(a) && track_bounded(b) && track_bounded(u)
                && track_bounded(d)) by {
                assert(track_bounded(start.cells()[i as int]));
                assert(track_bounded(start.cells()[i - 1]));
                assert(track_bounded(start.cells()[i + 1]));
                assert(track_bounded(start.cells()[i - w]));
                assert(track_bounded(start.cells()[i + w]));
            }
            let food = diffuse_exec(c.food, a.food + b.food + u.food + d.food, k);
            let nest = diffuse_exec(c.nest, a.nest + b.nest + u.nest + d.nest, k);
            next.push(Track { food, nest });
        } else {
            assert(track_bounded(start.cells()[i as int]));
            next.push(tracks.cells[i]);
        }
        i = i + 1;
    }
    tracks.cells = next;
}

fn diffuse_exec(c: u64, n: u64, k: u64) -> (r: u64)
    requires
        c <= UNIT,
        n <= 4 * UNIT,
        4 * k < UNIT,
    ensures
        r == diffuse_value(c as int, n as int, k as int),
        r <= UNIT,
{
    proof {
        lemma_diffuse_bounds(c as int, n as int, k as int, UNIT as int);
    }
    (c * (UNIT - 4 * k) + k * n) / UNIT
}

pub proof fn lemma_diffuse_bounds(c: int, n: int, k: int, u: int)
    requires
        0 <= c <= u,
        0 <= n <= 4 * u,
        0 <= 4 * k < u,
    ensures
        0 <= c * (u - 4 * k),
        c * (u - 4 * k) <= u * u,
        0 <= k * n <= u * u,
        0 <= c * (u - 4 * k) + k * n <= u * u,
        (c * (u - 4 * k) + k * n) / u <= u,
{
    assert(0 <= c * (u - 4 * k) <= u * (u - 4 * k)) by (nonlinear_arith)
        requires
            0 <= c <= u,
            0 <= 4 * k < u,
    ;
    assert(0 <= k * n <= k * (4 * u)) by (nonlinear_arith)
        requires
            0 <= n <= 4 * u,
            0 <= k,
    ;
    assert(u * (u - 4 * k) + k * (4 * u) == u * u) by (nonlinear_arith);
    vstd::arithmetic::div_mod::lemma_div_is_ordered(c * (u - 4 * k) + k * n, u * u, u);
    vstd::arithmetic::div_mod::lemma_div_by_multiple(u, u);
}

/// An interior index has its four neighbours inside the grid.
proof fn lemma_interior_neighbours(i: int, w: int, h: int)
    requires
        1 <= w,
        0 <= i < w * h,
        is_interior(w, h, i),
    ensures
        0 <= i - w,
        i + w < w * h,
{
    let q = i / w;
    let r = i % w;
    vstd::arithmetic::div_mod::lemma_fundamental_div_mod(i, w);
    assert(i - w == w * (q - 1) + r) by (nonlinear_arith)
        requires
            i == w * q + r,
    ;
    assert(0 <= w * (q - 1)) by (nonlinear_arith)
        requires
            q >= 1,
            w >= 1,
    ;
    assert(w * (q + 2) <= w * h) by (nonlinear_arith)
        requires
            q + 2 <= h,
            w >= 1,
    ;
    assert(i + w < w * (q + 2)) by (nonlinear_arith)
        requires
            i == w * q + r,
            r < w,
    ;
}

/// The signal `s` of cell `t`.
pub fn signal_of(t: Track, s: Signal) -> (r: u64)
    ensures
        r == signal_value(t, s),
{
    match s {
        Signal::Food => t.food,
        Signal::Nest => t.nest,
        Signal::Strongest => if t.food >= t.nest {
            t.food
        } else {
            t.nest
        },
    }
}

proof fn lemma_square_nonneg(a: int)
    ensures
        0 <= square(a),
{
    assert(0 <= a * a) by (nonlinear_arith);
}

/// A value whose square is at most `r * r` lies within `r` of zero.
proof fn lemma_square_le(a: int, r: int)
    requires
        0 <= r,
        square(a) <= r * r,
    ensures
        -r <= a <= r,
{
    if a > r {
        assert(a * a > r * r) by (nonlinear_arith)
            requires
                a > r,
                r >= 0,
        ;
    } else if a < -r {
        assert(a * a > r * r) by (nonlinear_arith)
            requires
                a < -r,
                r >= 0,
        ;
    }
}

/// The cells `[lo, hi)` of a line of `n` cells whose corner lies within `r` of `g`
/// (all measured along the line) hold every such cell.
fn axis_range(g: i128, r: i128, n: usize) -> (b: (usize, usize))
    requires
        -0x4000_0000_0000_0000 <= g <= 0x4000_0000_0000_0000,
        0 <= r <= 0x4000_0000_0000_0000,
    ensures
        b.0 <= b.1 <= n,
        forall|x: int|
            0 <= x < n && #[trigger] square(g - x * TRACK_RESOLUTION) <= r * r ==> b.0 <= x < b.1,
{
    let lo_v: i128 = g - r;
    let hi_v: i128 = g + r;
    if hi_v < 0 {
        assert forall|x: int|
            0 <= x < n && #[trigger] square(g - x * TRACK_RESOLUTION) <= r * r implies false by {
            lemma_square_le(g - x * TRACK_RESOLUTION, r as int);
        }
        return (0, 0);
    }
    let q: u128 = hi_v as u128 / 4000;
    let x1: usize = if q >= n as u128 {
        n
    } else {
        q as usize + 1
    };
    let x0: usize = if lo_v <= 0 {
        0
    } else {
        let p: u128 = lo_v as u128 / 4000;
        if p >= x1 as u128 {
            x1
        } else {
            p as usize
        }
    };
    assert forall|x: int|
        0 <= x < n && #[trigger] square(g - x * TRACK_RESOLUTION) <= r * r implies x0 <= x < x1 by {
        lemma_square_le(g - x * TRACK_RESOLUTION, r as int);
    }
    (x0, x1)
}

impl Default for Tracks {
    /// The field of the standard world, 1920 by 1080 world units: 480 by 270 cells.
    fn default() -> (r: Self)
        ensures
            r.wf(),
            r.w() == 480,
            r.h() == 270,
            forall|i: int| 0 <= i < r.cells().len() ==> #[trigger] r.cells()[i] == (Track { food: 0, nest: 0 }),
    {
        Tracks::new(480, 270)
    }
}

/// Cell `(x, y)` lies inside the grid's storage.
pub proof fn lemma_cell_index(x: int, y: int, w: int, h: int)
    requires
        0 <= x < w,
        0 <= y < h,
    ensures
        0 <= x + y * w < w * h,
        (x + y * w) % w == x,
        (x + y * w) / w == y,
{
    assert(0 <= x + y * w < w * h) by (nonlinear_arith)
        requires
            0 <= x < w,
            0 <= y < h,
    ;
    vstd::arithmetic::div_mod::lemma_fundamental_div_mod_converse(x + y * w, w, y, x);
}

/// Mapping a world point to its cell and back lands within one cell edge of
/// the point (up and to the left of it), and mapping a cell's point back gives
/// the same cell.
#[verifier::spinoff_prover]
pub proof fn lemma_grid_round_trip(t: Tracks, p: Position)
    requires
        t.wf(),
        t.grid_of(p) is Some,
    ensures
        ({
            let (x, y) = t.grid_of(p)->0;
            let (wx, wy) = t.world_of(x, y);
            &&& 0 <= x < t.w()
            &&& 0 <= y < t.h()
            &&& 0 <= p.x - wx < TRACK_RESOLUTION
            &&& 0 <= wy - p.y < TRACK_RESOLUTION
            &&& t.grid_of(Position { x: wx as i64, y: wy as i64 }) == Some((x, y))
        }),
{
    let (x, y) = t.grid_of(p)->0;
    let (wx, wy) = t.world_of(x, y);
    assert(0 <= x < t.w());
    assert(0 <= y < t.h());
    let q = Position { x: wx as i64, y: wy as i64 };
    assert(t.gx(q.x as int) == x * TRACK_RESOLUTION);
    assert(t.gy(q.y as int) == y * TRACK_RESOLUTION);
}

} // verus!
