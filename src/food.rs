//! Food sources: a position and a remaining amount.
use rand::rngs::StdRng;
use vstd::prelude::*;

use crate::config::COORD_LIMIT;
use crate::geometry::{isqrt, isqrt_spec, lemma_isqrt_unique, within_limit, Position};
use crate::rng::gen_range_i64;
use crate::track::Tracks;

verus! {

/// Distance from a world edge that a new food source keeps (60 world units).
pub const FOOD_EDGE_MARGIN: i64 = 60_000;

/// Smallest amount of a new random food source (50 units).
pub const FOOD_MIN_AMOUNT: i64 = 50_000_000;

/// Bound (exclusive) of the amount of a new random food source (250 units).
pub const FOOD_MAX_AMOUNT: i64 = 250_000_000;

/// Radius of a source of `amount`, in thousandths of a world unit: the square
/// root of `amount / π` (with π taken as 355/113), rounded down.
pub open spec fn food_radius(amount: int) -> int {
    isqrt_spec(amount * 113 / 355)
}

/// A food source.
#[derive(Clone, Copy, Debug)]
pub struct Food {
    position: Position,
    amount: u64,
}

impl Food {
    pub closed spec fn value(&self) -> nat {
        self.amount as nat
    }

    pub closed spec fn pos(&self) -> Position {
        self.position
    }

    pub open spec fn wf(&self) -> bool {
        within_limit(self.pos(), COORD_LIMIT as int)
    }

    pub fn position(&self) -> (r: Position)
        ensures
            r == self.pos(),
    {
        self.position
    }

    pub fn empty(&self) -> (r: bool)
        ensures
            r <==> self.value() == 0,
    {
        self.amount == 0
    }

    /// Radius of the source (see `food_radius`).
    pub fn radius(&self) -> (r: i64)
        ensures
            r == food_radius(self.value() as int),
            0 <= r < 0x1_0000_0000,
    {
        let area: u128 = self.amount as u128 * 113 / 355;
        assert(area <= self.amount);
        let r = isqrt(area as u64);
        proof {
            lemma_isqrt_unique(area as int, r as int);
        }
        r as i64
    }

    pub fn amount(&self) -> (r: u64)
        ensures
            r == self.value(),
    {
        self.amount
    }

    /// Takes as much of `amount` as remains and returns what was taken.
    pub fn remove(&mut self, amount: u64) -> (r: u64)
        ensures
            r == vstd::math::min(amount as int, old(self).value() as int),
            final(self).value() == old(self).value() - r,
            final(self).pos() == old(self).pos(),
    {
        let amount = if amount < self.amount {
            amount
        } else {
            self.amount
        };
        self.amount = self.amount - amount;
        amount
    }
}

/// A food source of `amount` at `(x, y)`.
pub fn spawn_food(x: i64, y: i64, amount: u64) -> (r: Food)
    requires
        -COORD_LIMIT <= x <= COORD_LIMIT,
        -COORD_LIMIT <= y <= COORD_LIMIT,
    ensures
        r.wf(),
        r.pos() == (Position { x, y }),
        r.value() == amount,
{
    Food { position: Position { x, y }, amount }
}

/// The range `[-half + FOOD_EDGE_MARGIN, half - FOOD_EDGE_MARGIN)` of one axis, or
/// the centre where the world is too narrow for it.
fn random_coordinate(half: i64, rng: &mut StdRng) -> (r: i64)
    requires
        0 <= half <= COORD_LIMIT,
    ensures
        half > FOOD_EDGE_MARGIN ==> -half + FOOD_EDGE_MARGIN <= r < half - FOOD_EDGE_MARGIN,
        half <= FOOD_EDGE_MARGIN ==> r == 0,
{
    if half > FOOD_EDGE_MARGIN {
        gen_range_i64(rng, -half + FOOD_EDGE_MARGIN, half - FOOD_EDGE_MARGIN)
    } else {
        0
    }
}

/// Whether `f` could be a new random food source in a world of half extents `half_w` by `half_h`:
/// away from its edges (or at the centre of a world too narrow for that),
/// with an amount in `[FOOD_MIN_AMOUNT, FOOD_MAX_AMOUNT)`.
pub open spec fn fresh_food(f: Food, half_w: int, half_h: int) -> bool {
    &&& f.wf()
    &&& half_w > FOOD_EDGE_MARGIN ==> -half_w + FOOD_EDGE_MARGIN <= f.pos().x
        < half_w - FOOD_EDGE_MARGIN
    &&& half_w <= FOOD_EDGE_MARGIN ==> f.pos().x == 0
    &&& half_h > FOOD_EDGE_MARGIN ==> -half_h + FOOD_EDGE_MARGIN <= f.pos().y
        < half_h - FOOD_EDGE_MARGIN
    &&& half_h <= FOOD_EDGE_MARGIN ==> f.pos().y == 0
    &&& FOOD_MIN_AMOUNT <= f.value() < FOOD_MAX_AMOUNT
}

/// A food source at a random point of the world of `tracks`, away from its
/// edges, with a random amount in `[FOOD_MIN_AMOUNT, FOOD_MAX_AMOUNT)`.
pub fn spawn_random_food(tracks: &Tracks, rng: &mut StdRng) -> (r: Food)
    requires
        tracks.wf(),
    ensures
        fresh_food(r, tracks.half_w(), tracks.half_h()),
{
    let half_w: i64 = tracks.width() as i64 * 2000;
    let half_h: i64 = tracks.height() as i64 * 2000;
    let x = random_coordinate(half_w, rng);
    let y = random_coordinate(half_h, rng);
    let amount = gen_range_i64(rng, FOOD_MIN_AMOUNT, FOOD_MAX_AMOUNT);
    spawn_food(x, y, amount as u64)
}

} // verus!
