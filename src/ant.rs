use vstd::prelude::*;

use crate::config::{
    SimulationConfig, ANT_EAT_RATE, ANT_ENERGY_LOSS_RATE, ANT_MAX_ENERGY, ANT_SEGMENT_RADIUS,
    COORD_LIMIT, HEADING_SCALE, TICKS_PER_SECOND, UNIT,
};
use crate::food::{food_radius, fresh_food, spawn_random_food, Food};
use crate::geometry::{closer_than, dist_sq, square, within_limit, Position};
use crate::nest::Nest;
use crate::track::{deposited, grid_index_in_circle, Channel, Track, Tracks};
use rand::rngs::StdRng;

verus! {

/// The two kinds of ant: scouts explore, workers forage.
#[derive(Clone, Copy, PartialEq, Eq, Structural, Debug)]
pub enum AntKind {
    Scout,
    Worker,
}

impl AntKind {
    /// Number of kinds.
    pub const VARIANT_COUNT: usize = 2;

    /// Position of the kind in declaration order.
    pub fn ordinal(&self) -> (r: usize)
        ensures
            r < Self::VARIANT_COUNT,
            r == 0 <==> *self == AntKind::Scout,
    {
        match self {
            AntKind::Scout => 0,
            AntKind::Worker => 1,
        }
    }
}

/// An ant's energy reserve, in `[0, ANT_MAX_ENERGY]`.
#[derive(Clone, Copy, Debug)]
pub struct Satiation(u64);

impl Satiation {
    pub open spec fn wf(&self) -> bool {
        self.value() <= ANT_MAX_ENERGY
    }

    pub closed spec fn value(&self) -> nat {
        self.0 as nat
    }

    /// A reserve holding `amount`.
    pub fn new(amount: u64) -> (r: Self)
        requires
            amount <= ANT_MAX_ENERGY,
        ensures
            r.wf(),
            r.value() == amount,
    {
        Satiation(amount)
    }

    pub fn amount(&self) -> (r: u64)
        ensures
            r == self.value(),
    {
        self.0
    }

    /// Absorbs as much of `amount` as fits and returns what was absorbed.
    pub fn add(&mut self, amount: u64) -> (r: u64)
        requires
            old(self).wf(),
        ensures
            final(self).wf(),
            r == vstd::math::min(amount as int, ANT_MAX_ENERGY - old(self).value()),
            final(self).value() == old(self).value() + r,
    {
        let room = ANT_MAX_ENERGY - self.0;
        let added = if amount < room {
            amount
        } else {
            room
        };
        self.0 = self.0 + added;
        added
    }

    /// Gives up as much of `amount` as is held and returns what was given up.
    pub fn remove(&mut self, amount: u64) -> (r: u64)
        requires
            old(self).wf(),
        ensures
            final(self).wf(),
            r == vstd::math::min(amount as int, old(self).value() as int),
            final(self).value() == old(self).value() - r,
    {
        let removed = if amount < self.0 {
            amount
        } else {
            self.0
        };
        self.0 = self.0 - removed;
        removed
    }

    pub fn empty(&self) -> (r: bool)
        ensures
            r <==> self.value() == 0,
    {
        self.0 == 0
    }
}

/// Food carried by an ant, in `[0, max]`.
#[derive(Clone, Copy, Debug)]
pub struct HeldFood {
    amount: u64,
    max: u64,
}

impl HeldFood {
    pub open spec fn wf(&self) -> bool {
        self.value() <= self.capacity() <= u64::MAX
    }

    pub closed spec fn value(&self) -> nat {
        self.amount as nat
    }

    pub closed spec fn capacity(&self) -> nat {
        self.max as nat
    }

    /// Nothing carried, room for `max`.
    pub fn new(max: u64) -> (r: Self)
        ensures
            r.wf(),
            r.value() == 0,
            r.capacity() == max,
    {
        HeldFood { amount: 0, max }
    }

    pub fn empty(&self) -> (r: bool)
        ensures
            r <==> self.value() == 0,
    {
        self.amount == 0
    }

    pub fn full(&self) -> (r: bool)
        ensures
            r <==> self.value() >= self.capacity(),
    {
        self.amount >= self.max
    }

    pub fn amount(&self) -> (r: u64)
        ensures
            r == self.value(),
    {
        self.amount
    }

    pub fn max(&self) -> (r: u64)
        ensures
            r == self.capacity(),
    {
        self.max
    }

    /// Takes on as much of `amount` as fits and returns what was taken on.
    pub fn add(&mut self, amount: u64) -> (r: u64)
        requires
            old(self).wf(),
        ensures
            final(self).wf(),
            final(self).capacity() == old(self).capacity(),
            r == vstd::math::min(amount as int, old(self).capacity() - old(self).value()),
            final(self).value() == old(self).value() + r,
    {
        let room = self.max - self.amount;
        let added = if amount < room {
            amount
        } else {
            room
        };
        self.amount = self.amount + added;
        added
    }

    /// Gives up as much of `amount` as is carried and returns what was given up.
    pub fn remove(&mut self, amount: u64) -> (r: u64)
        requires
            old(self).wf(),
        ensures
            final(self).wf(),
            final(self).capacity() == old(self).capacity(),
            r == vstd::math::min(amount as int, old(self).value() as int),
            final(self).value() == old(self).value() - r,
    {
        let removed = if amount < self.amount {
            amount
        } else {
            self.amount
        };
        self.amount = self.amount - removed;
        removed
    }
}

/// Satiation lost per tick.
pub const ANT_ENERGY_LOSS_PER_TICK: u64 = ANT_ENERGY_LOSS_RATE / TICKS_PER_SECOND;

/// Distance walked per tick: `ANT_SPEED` over `TICKS_PER_SECOND`, rounded down.
pub const ANT_STEP: i64 = 166;

/// How close to a world edge an ant may walk.
pub const ANT_EDGE_MARGIN: i64 = ANT_SEGMENT_RADIUS * 3;

/// A direction of travel: a vector whose length is about `HEADING_SCALE`.
#[derive(Clone, Copy, PartialEq, Eq, Structural, Debug)]
pub struct Heading {
    pub x: i64,
    pub y: i64,
}

pub open spec fn heading_bounded(h: Heading) -> bool {
    -2 * HEADING_SCALE <= h.x <= 2 * HEADING_SCALE && -2 * HEADING_SCALE <= h.y <= 2
        * HEADING_SCALE
}

/// A heading from the components of a unit vector scaled by `HEADING_SCALE`;
/// components beyond twice that are clamped.
pub fn heading_from_unit(x: i64, y: i64) -> (r: Heading)
    ensures
        heading_bounded(r),
        heading_bounded(Heading { x, y }) ==> r == (Heading { x, y }),
{
    let limit: i64 = 2 * HEADING_SCALE;
    let cx = if x > limit {
        limit
    } else if x < -limit {
        -limit
    } else {
        x
    };
    let cy = if y > limit {
        limit
    } else if y < -limit {
        -limit
    } else {
        y
    };
    Heading { x: cx, y: cy }
}

/// An ant: where it is, where it faces, its kind, its reserve and its load.
#[derive(Clone, Copy, Debug)]
pub struct Ant {
    pub position: Position,
    pub heading: Heading,
    pub kind: AntKind,
    pub satiation: Satiation,
    pub held_food: HeldFood,
}

impl Ant {
    pub open spec fn wf(&self) -> bool {
        &&& within_limit(self.position, COORD_LIMIT as int)
        &&& heading_bounded(self.heading)
        &&& self.satiation.wf()
        &&& self.held_food.wf()
    }
}

pub open spec fn all_wf(ants: Seq<Ant>) -> bool {
    forall|i: int| 0 <= i < ants.len() ==> (#[trigger] ants[i]).wf()
}

/// A new ant at `(x, y)`: fully fed, carrying nothing.
pub fn spawn_ant(config: &SimulationConfig, x: i64, y: i64, heading: Heading, kind: AntKind) -> (r:
    Ant)
    requires
        -COORD_LIMIT <= x <= COORD_LIMIT,
        -COORD_LIMIT <= y <= COORD_LIMIT,
        heading_bounded(heading),
    ensures
        r.wf(),
        r.position == (Position { x, y }),
        r.heading == heading,
        r.kind == kind,
        r.satiation.value() == ANT_MAX_ENERGY,
        r.held_food.value() == 0,
        r.held_food.capacity() == config.ant_max_carry,
{
    Ant {
        position: Position { x, y },
        heading,
        kind,
        satiation: Satiation::new(ANT_MAX_ENERGY),
        held_food: HeldFood::new(config.ant_max_carry),
    }
}

/// `b` is `a` after every ant lost `ANT_ENERGY_LOSS_PER_TICK` of satiation, down to zero.
pub open spec fn satiation_decayed(a: Seq<Ant>, b: Seq<Ant>) -> bool {
    &&& b.len() == a.len()
    &&& forall|i: int|
        0 <= i < a.len() ==> {
            let (x, y) = (a[i], #[trigger] b[i]);
            &&& y.satiation.value() == x.satiation.value() - vstd::math::min(
                ANT_ENERGY_LOSS_PER_TICK as int,
                x.satiation.value() as int,
            )
            &&& y.position == x.position && y.heading == x.heading && y.kind == x.kind
            &&& y.held_food == x.held_food
        }
}

/// Every ant loses `ANT_ENERGY_LOSS_PER_TICK` of satiation, down to zero.
pub fn decay_satiation(ants: &mut Vec<Ant>)
    requires
        all_wf(old(ants)@),
    ensures
        all_wf(final(ants)@),
        satiation_decayed(old(ants)@, final(ants)@),
{
    let ghost start = ants@;
    let n = ants.len();
    let mut i: usize = 0;
    while i < n
        invariant
            0 <= i <= n == start.len() == ants@.len(),
            all_wf(start),
            all_wf(ants@),
            forall|j: int| i <= j < n ==> #[trigger] ants@[j] == start[j],
            forall|j: int|
                0 <= j < i ==> {
                    let (a, b) = (start[j], #[trigger] ants@[j]);
                    &&& b.satiation.value() == a.satiation.value() - vstd::math::min(
                        ANT_ENERGY_LOSS_PER_TICK as int,
                        a.satiation.value() as int,
                    )
                    &&& b.position == a.position && b.heading == a.heading && b.kind == a.kind
                    &&& b.held_food == a.held_food
                },
        decreases n - i,
    {
        let mut a = ants[i];
        assert(a.wf());
        a.satiation.remove(ANT_ENERGY_LOSS_PER_TICK);
        ants.set(i, a);
        i = i + 1;
    }
}

/// What an ant with satiation `s` wants to eat from its load in one tick: a
/// tenth of its deficit per second.
pub open spec fn eat_wish(s: int) -> int {
    (ANT_MAX_ENERGY - s) * ANT_EAT_RATE / (UNIT * TICKS_PER_SECOND) as int
}

/// `b` is `a` after every ant ate from its load as much as `eat_wish` asks and it carries.
pub open spec fn fed_from_load(a: Seq<Ant>, b: Seq<Ant>) -> bool {
    &&& b.len() == a.len()
    &&& forall|i: int|
        0 <= i < a.len() ==> {
            let (x, y) = (a[i], #[trigger] b[i]);
            let eaten = vstd::math::min(
                eat_wish(x.satiation.value() as int),
                x.held_food.value() as int,
            );
            &&& y.held_food.value() == x.held_food.value() - eaten
            &&& y.held_food.capacity() == x.held_food.capacity()
            &&& y.satiation.value() == x.satiation.value() + eaten
            &&& y.position == x.position && y.heading == x.heading && y.kind == x.kind
        }
}

/// Every ant eats from the food it carries, as much as `eat_wish` asks and it carries.
pub fn eat_held_food(ants: &mut Vec<Ant>)
    requires
        all_wf(old(ants)@),
    ensures
        all_wf(final(ants)@),
        fed_from_load(old(ants)@, final(ants)@),
{
    let ghost start = ants@;
    let n = ants.len();
    let mut i: usize = 0;
    while i < n
        invariant
            0 <= i <= n == start.len() == ants@.len(),
            all_wf(start),
            all_wf(ants@),
            forall|j: int| i <= j < n ==> #[trigger] ants@[j] == start[j],
            forall|j: int|
                0 <= j < i ==> {
                    let (a, b) = (start[j], #[trigger] ants@[j]);
                    let eaten = vstd::math::min(
                        eat_wish(a.satiation.value() as int),
                        a.held_food.value() as int,
                    );
                    &&& b.held_food.value() == a.held_food.value() - eaten
                    &&& b.held_food.capacity() == a.held_food.capacity()
                    &&& b.satiation.value() == a.satiation.value() + eaten
                    &&& b.position == a.position && b.heading == a.heading && b.kind == a.kind
                },
        decreases n - i,
    {
        let mut a = ants[i];
        assert(a.wf());
        let deficit = ANT_MAX_ENERGY - a.satiation.amount();
        let wish = deficit * ANT_EAT_RATE / (UNIT * TICKS_PER_SECOND);
        proof {
            let d = deficit as int;
            vstd::arithmetic::div_mod::lemma_div_is_ordered(d * 100_000, d * 60_000_000, 60_000_000);
            vstd::arithmetic::div_mod::lemma_div_multiples_vanish(d, 60_000_000);
        }
        assert(wish <= deficit);
        let eats = a.held_food.remove(wish);
        a.satiation.add(eats);
        ants.set(i, a);
        i = i + 1;
    }
}

/// The ants of `s` whose satiation is not exhausted, in order.
pub open spec fn survivors(s: Seq<Ant>) -> Seq<Ant>
    decreases s.len(),
{
    if s.len() == 0 {
        s
    } else {
        let rest = survivors(s.drop_last());
        if s.last().satiation.value() == 0 {
            rest
        } else {
            rest.push(s.last())
        }
    }
}

/// Removes the ants whose satiation reached zero.
pub fn starve(ants: &mut Vec<Ant>)
    requires
        all_wf(old(ants)@),
    ensures
        all_wf(final(ants)@),
        final(ants)@ == survivors(old(ants)@),
{
    let ghost start = ants@;
    let n = ants.len();
    let mut kept: Vec<Ant> = Vec::new();
    let mut i: usize = 0;
    while i < n
        invariant
            0 <= i <= n == start.len() == ants@.len(),
            ants@ == start,
            all_wf(start),
            all_wf(kept@),
            kept@ == survivors(start.take(i as int)),
        decreases n - i,
    {
        let a = ants[i];
        assert(start.take(i + 1).drop_last() == start.take(i as int));
        assert(start.take(i + 1).last() == a);
        if !a.satiation.empty() {
            kept.push(a);
        }
        i = i + 1;
    }
    assert(start.take(n as int) == start);
    *ants = kept;
}

/// `v` scaled by `m / d`, rounded toward zero.
pub open spec fn scaled(v: int, m: int, d: int) -> int {
    if v >= 0 {
        v * m / d
    } else {
        -((-v) * m / d)
    }
}

pub open spec fn clamp_axis(v: int, lo: int, hi: int) -> int {
    if v < lo {
        lo
    } else if v > hi {
        hi
    } else {
        v
    }
}

/// Where an ant at `p` facing `h` stands after one step in a world of half
/// extents `half_w` by `half_h`.
pub open spec fn walked(p: Position, h: Heading, half_w: int, half_h: int) -> Position {
    Position {
        x: clamp_axis(
            p.x + scaled(h.x as int, ANT_STEP as int, HEADING_SCALE as int),
            -half_w + ANT_EDGE_MARGIN,
            half_w - ANT_EDGE_MARGIN,
        ) as i64,
        y: clamp_axis(
            p.y + scaled(h.y as int, ANT_STEP as int, HEADING_SCALE as int),
            -half_h + ANT_EDGE_MARGIN,
            half_h - ANT_EDGE_MARGIN,
        ) as i64,
    }
}

fn step_axis(p: i64, h: i64, half: i64) -> (r: i64)
    requires
        -COORD_LIMIT <= p <= COORD_LIMIT,
        -2 * HEADING_SCALE <= h <= 2 * HEADING_SCALE,
        0 <= half <= COORD_LIMIT,
    ensures
        r == clamp_axis(
            p + scaled(h as int, ANT_STEP as int, HEADING_SCALE as int),
            -half + ANT_EDGE_MARGIN,
            half - ANT_EDGE_MARGIN,
        ),
        -COORD_LIMIT <= r <= COORD_LIMIT,
{
    let d: i64 = if h >= 0 {
        (h as u64 * 166 / 1_000_000) as i64
    } else {
        -(((-h) as u64 * 166 / 1_000_000) as i64)
    };
    let v = p + d;
    let lo = -half + ANT_EDGE_MARGIN;
    let hi = half - ANT_EDGE_MARGIN;
    if v < lo {
        lo
    } else if v > hi {
        hi
    } else {
        v
    }
}

/// `b` is `a` after every ant stepped along its heading in a world of half
/// extents `half_w` by `half_h`.
pub open spec fn walked_all(a: Seq<Ant>, b: Seq<Ant>, half_w: int, half_h: int) -> bool {
    &&& b.len() == a.len()
    &&& forall|i: int|
        0 <= i < a.len() ==> {
            let (x, y) = (a[i], #[trigger] b[i]);
            &&& y.position == walked(x.position, x.heading, half_w, half_h)
            &&& y.heading == x.heading && y.kind == x.kind
            &&& y.satiation == x.satiation && y.held_food == x.held_food
        }
}

/// Every ant steps forward along its heading and stays `ANT_EDGE_MARGIN` inside
/// the world of `tracks`.
pub fn walk_ants(ants: &mut Vec<Ant>, tracks: &Tracks)
    requires
        all_wf(old(ants)@),
        tracks.wf(),
    ensures
        all_wf(final(ants)@),
        walked_all(old(ants)@, final(ants)@, tracks.half_w(), tracks.half_h()),
{
    let ghost start = ants@;
    let half_w: i64 = tracks.width() as i64 * 2000;
    let half_h: i64 = tracks.height() as i64 * 2000;
    let n = ants.len();
    let mut i: usize = 0;
    while i < n
        invariant
            0 <= i <= n == start.len() == ants@.len(),
            tracks.wf(),
            half_w == tracks.half_w(),
            half_h == tracks.half_h(),
            all_wf(start),
            all_wf(ants@),
            forall|j: int| i <= j < n ==> #[trigger] ants@[j] == start[j],
            forall|j: int|
                0 <= j < i ==> {
                    let (a, b) = (start[j], #[trigger] ants@[j]);
                    &&& b.position == walked(a.position, a.heading, half_w as int, half_h as int)
                    &&& b.heading == a.heading && b.kind == a.kind
                    &&& b.satiation == a.satiation && b.held_food == a.held_food
                },
        decreases n - i,
    {
        let mut a = ants[i];
        assert(a.wf());
        let x = step_axis(a.position.x, a.heading.x, half_w);
        let y = step_axis(a.position.y, a.heading.y, half_h);
        a.position = Position { x, y };
        ants.set(i, a);
        i = i + 1;
    }
}

/// How close an ant must come to a food source's edge to pick from it: one
/// and a half body segments.
pub const FOOD_REACH: i64 = 3000;

/// How close an ant must come to the nest's centre to trade with it.
pub const NEST_REACH: i64 = FOOD_REACH + crate::config::NEST_RADIUS;

/// Food carried by all of `s`.
pub open spec fn total_held(s: Seq<Ant>) -> int
    decreases s.len(),
{
    if s.len() == 0 {
        0
    } else {
        total_held(s.drop_last()) + s.last().held_food.value()
    }
}

/// Satiation of all of `s`.
pub open spec fn total_satiation(s: Seq<Ant>) -> int
    decreases s.len(),
{
    if s.len() == 0 {
        0
    } else {
        total_satiation(s.drop_last()) + s.last().satiation.value()
    }
}

proof fn lemma_totals_update(s: Seq<Ant>, i: int, a: Ant)
    requires
        0 <= i < s.len(),
    ensures
        total_held(s.update(i, a)) == total_held(s) - s[i].held_food.value()
            + a.held_food.value(),
        total_satiation(s.update(i, a)) == total_satiation(s) - s[i].satiation.value()
            + a.satiation.value(),
    decreases s.len(),
{
    if i == s.len() - 1 {
        assert(s.update(i, a).drop_last() == s.drop_last());
    } else {
        lemma_totals_update(s.drop_last(), i, a);
        assert(s.update(i, a).drop_last() == s.drop_last().update(i, a));
    }
}

/// Whether an ant at `p` is close enough to trade with the nest at `n`.
pub open spec fn reaches_nest(p: Position, n: Position) -> bool {
    dist_sq(p, n) < square(NEST_REACH as int)
}

/// What an ant `a` unloads into a nest at `nest_pos` that holds `store`: all
/// it carries if it is within reach, as far as the store can count.
pub open spec fn unload_amount(a: Ant, nest_pos: Position, store: int) -> int {
    if a.held_food.value() > 0 && reaches_nest(a.position, nest_pos) {
        vstd::math::min(a.held_food.value() as int, u64::MAX - store)
    } else {
        0
    }
}

/// The nest's store after each of `ants` in turn unloaded into it.
pub open spec fn store_after_unloading(ants: Seq<Ant>, nest_pos: Position, store: int) -> int
    decreases ants.len(),
{
    if ants.len() == 0 {
        store
    } else {
        let s = store_after_unloading(ants.drop_last(), nest_pos, store);
        s + unload_amount(ants.last(), nest_pos, s)
    }
}

/// `b` and `n1` are `a` and `n0` after each ant in turn unloaded into the nest.
pub open spec fn unloaded(a: Seq<Ant>, n0: Nest, b: Seq<Ant>, n1: Nest) -> bool {
    &&& b.len() == a.len()
    &&& n1.position == n0.position
    &&& n1.food == store_after_unloading(a, n0.position, n0.food as int)
    &&& forall|i: int|
        0 <= i < a.len() ==> {
            let (x, y) = (a[i], #[trigger] b[i]);
            &&& y.held_food.value() == x.held_food.value() - unload_amount(
                x,
                n0.position,
                store_after_unloading(a.take(i), n0.position, n0.food as int),
            )
            &&& y.held_food.capacity() == x.held_food.capacity()
            &&& y.position == x.position && y.heading == x.heading && y.kind == x.kind
            &&& y.satiation == x.satiation
        }
}

/// Every loaded ant within reach of the nest, one after the other, unloads
/// into it all it carries (as far as the store can count); the food in the
/// nest and the ants' loads together stay the same.
pub fn deposit_food(ants: &mut Vec<Ant>, nest: &mut Nest)
    requires
        all_wf(old(ants)@),
        old(nest).wf(),
    ensures
        all_wf(final(ants)@),
        final(nest).wf(),
        unloaded(old(ants)@, *old(nest), final(ants)@, *final(nest)),
        final(nest).food + total_held(final(ants)@) == old(nest).food + total_held(old(ants)@),
{
    let ghost start = ants@;
    let ghost n0 = *nest;
    let n = ants.len();
    let mut i: usize = 0;
    while i < n
        invariant
            0 <= i <= n == start.len() == ants@.len(),
            all_wf(start),
            all_wf(ants@),
            nest.wf(),
            nest.position == n0.position,
            nest.food == store_after_unloading(start.take(i as int), n0.position, n0.food as int),
            nest.food + total_held(ants@) == n0.food + total_held(start),
            forall|j: int| i <= j < n ==> #[trigger] ants@[j] == start[j],
            forall|j: int|
                0 <= j < i ==> {
                    let (x, y) = (start[j], #[trigger] ants@[j]);
                    &&& y.held_food.value() == x.held_food.value() - unload_amount(
                        x,
                        n0.position,
                        store_after_unloading(start.take(j), n0.position, n0.food as int),
                    )
                    &&& y.held_food.capacity() == x.held_food.capacity()
                    &&& y.position == x.position && y.heading == x.heading && y.kind == x.kind
                    &&& y.satiation == x.satiation
                },
        decreases n - i,
    {
        let mut a = ants[i];
        assert(a.wf());
        proof {
            assert(start.take(i + 1).drop_last() == start.take(i as int));
            assert(start.take(i + 1).last() == a);
        }
        if !a.held_food.empty() && closer_than(a.position, nest.position, NEST_REACH) {
            let room = u64::MAX - nest.food;
            let carried = a.held_food.amount();
            let moved = if carried < room {
                carried
            } else {
                room
            };
            a.held_food.remove(moved);
            nest.food = nest.food + moved;
            proof {
                lemma_totals_update(ants@, i as int, a);
            }
            ants.set(i, a);
        }
        i = i + 1;
    }
    assert(start.take(n as int) == start);
}

/// What an ant `a` eats from a nest at `nest_pos` that holds `store`: what it
/// lacks, as far as the store goes, if it is within reach.
pub open spec fn eat_amount(a: Ant, nest_pos: Position, store: int) -> int {
    if reaches_nest(a.position, nest_pos) {
        vstd::math::min(store, ANT_MAX_ENERGY - a.satiation.value())
    } else {
        0
    }
}

/// The nest's store after each of `ants` in turn ate from it.
pub open spec fn store_after_eating(ants: Seq<Ant>, nest_pos: Position, store: int) -> int
    decreases ants.len(),
{
    if ants.len() == 0 {
        store
    } else {
        let s = store_after_eating(ants.drop_last(), nest_pos, store);
        s - eat_amount(ants.last(), nest_pos, s)
    }
}

/// `b` and `n1` are `a` and `n0` after each ant in turn ate from the nest.
pub open spec fn fed_at_nest(a: Seq<Ant>, n0: Nest, b: Seq<Ant>, n1: Nest) -> bool {
    &&& b.len() == a.len()
    &&& n1.position == n0.position
    &&& n1.food == store_after_eating(a, n0.position, n0.food as int)
    &&& forall|i: int|
        0 <= i < a.len() ==> {
            let (x, y) = (a[i], #[trigger] b[i]);
            &&& y.satiation.value() == x.satiation.value() + eat_amount(
                x,
                n0.position,
                store_after_eating(a.take(i), n0.position, n0.food as int),
            )
            &&& y.position == x.position && y.heading == x.heading && y.kind == x.kind
            &&& y.held_food == x.held_food
        }
}

/// Every ant within reach of the nest, one after the other, eats from its
/// store what it lacks, as far as the store goes; the food in the nest and
/// the ants' satiation together stay the same.
pub fn eat_nest_food(ants: &mut Vec<Ant>, nest: &mut Nest)
    requires
        all_wf(old(ants)@),
        old(nest).wf(),
    ensures
        all_wf(final(ants)@),
        final(nest).wf(),
        fed_at_nest(old(ants)@, *old(nest), final(ants)@, *final(nest)),
        final(nest).food + total_satiation(final(ants)@) == old(nest).food + total_satiation(
            old(ants)@,
        ),
{
    let ghost start = ants@;
    let ghost n0 = *nest;
    let n = ants.len();
    let mut i: usize = 0;
    while i < n
        invariant
            0 <= i <= n == start.len() == ants@.len(),
            all_wf(start),
            all_wf(ants@),
            nest.wf(),
            nest.position == n0.position,
            nest.food == store_after_eating(start.take(i as int), n0.position, n0.food as int),
            nest.food + total_satiation(ants@) == n0.food + total_satiation(start),
            forall|j: int| i <= j < n ==> #[trigger] ants@[j] == start[j],
            forall|j: int|
                0 <= j < i ==> {
                    let (x, y) = (start[j], #[trigger] ants@[j]);
                    &&& y.satiation.value() == x.satiation.value() + eat_amount(
                        x,
                        n0.position,
                        store_after_eating(start.take(j), n0.position, n0.food as int),
                    )
                    &&& y.position == x.position && y.heading == x.heading && y.kind == x.kind
                    &&& y.held_food == x.held_food
                },
        decreases n - i,
    {
        let mut a = ants[i];
        assert(a.wf());
        proof {
            assert(start.take(i + 1).drop_last() == start.take(i as int));
            assert(start.take(i + 1).last() == a);
        }
        if closer_than(a.position, nest.position, NEST_REACH) {
            let lack = ANT_MAX_ENERGY - a.satiation.amount();
            let eats = if nest.food < lack {
                nest.food
            } else {
                lack
            };
            nest.food = nest.food - eats;
            a.satiation.add(eats);
            proof {
                lemma_totals_update(ants@, i as int, a);
            }
            ants.set(i, a);
        }
        i = i + 1;
    }
    assert(start.take(n as int) == start);
}

/// Moves food from a source into a load: as much as the source holds and the
/// load has room for. What leaves the source is exactly what the load gains.
pub fn pick_up_from(held: &mut HeldFood, food: &mut Food) -> (r: u64)
    requires
        old(held).wf(),
    ensures
        final(held).wf(),
        r == vstd::math::min(
            old(food).value() as int,
            old(held).capacity() - old(held).value(),
        ),
        final(held).value() == old(held).value() + r,
        final(held).capacity() == old(held).capacity(),
        final(food).value() == old(food).value() - r,
        final(food).pos() == old(food).pos(),
{
    let took = held.add(food.amount());
    food.remove(took);
    took
}

pub open spec fn foods_wf(foods: Seq<Food>) -> bool {
    forall|j: int| 0 <= j < foods.len() ==> (#[trigger] foods[j]).wf()
}

/// Whether an ant at `p` can pick from `f`.
pub open spec fn food_in_reach(f: Food, p: Position) -> bool {
    dist_sq(f.pos(), p) < square(FOOD_REACH + food_radius(f.value() as int))
}

/// The first source from index `j` on that an ant at `p` can pick from.
pub open spec fn first_in_reach(foods: Seq<Food>, p: Position, j: int) -> Option<int>
    decreases foods.len() - j,
{
    if j < 0 || j >= foods.len() {
        None
    } else if food_in_reach(foods[j], p) {
        Some(j)
    } else {
        first_in_reach(foods, p, j + 1)
    }
}

/// The source that ant `a` picks from among `foods`, if any: none when its
/// load is full, else the first within reach.
pub open spec fn picked_source(a: Ant, foods: Seq<Food>) -> Option<int> {
    if a.held_food.value() >= a.held_food.capacity() {
        None
    } else {
        first_in_reach(foods, a.position, 0)
    }
}

/// Ant `a` picking among `fs` becomes `b` and leaves `gs`: it takes from the
/// source it picks as much as the source holds and it has room for; that
/// source loses exactly as much, and is replaced by a fresh random source in
/// a world of half extents `half_w` by `half_h` when emptied. Every other source, and an ant with
/// no source to pick, stays as it was.
pub open spec fn pick_step(
    a: Ant,
    fs: Seq<Food>,
    b: Ant,
    gs: Seq<Food>,
    half_w: int,
    half_h: int,
) -> bool {
    &&& gs.len() == fs.len()
    &&& b.position == a.position && b.heading == a.heading && b.kind == a.kind
    &&& b.satiation == a.satiation
    &&& b.held_food.capacity() == a.held_food.capacity()
    &&& match picked_source(a, fs) {
        None => b.held_food == a.held_food && gs == fs,
        Some(j) => {
            let took = vstd::math::min(
                fs[j].value() as int,
                a.held_food.capacity() - a.held_food.value(),
            );
            &&& b.held_food.value() == a.held_food.value() + took
            &&& forall|k: int| 0 <= k < fs.len() && k != j ==> #[trigger] gs[k] == fs[k]
            &&& took < fs[j].value() ==> gs[j].pos() == fs[j].pos() && gs[j].value()
                == fs[j].value() - took
            &&& took == fs[j].value() ==> fresh_food(gs[j], half_w, half_h)
        },
    }
}

/// `b` and `gs` are `a` and `fs` after each ant in turn picked: `trace[i]` is
/// what the sources were when ant `i` came to them.
pub open spec fn picked_all(
    a: Seq<Ant>,
    fs: Seq<Food>,
    b: Seq<Ant>,
    gs: Seq<Food>,
    half_w: int,
    half_h: int,
    trace: Seq<Seq<Food>>,
) -> bool {
    &&& b.len() == a.len()
    &&& trace.len() == a.len() + 1
    &&& trace[0] == fs
    &&& trace[a.len() as int] == gs
    &&& forall|i: int|
        0 <= i < a.len() ==> #[trigger] pick_step(a[i], trace[i], b[i], trace[i + 1], half_w, half_h)
}

/// The first food source within reach of an ant at `p`, if any.
fn find_food_in_reach(foods: &Vec<Food>, p: Position) -> (r: Option<usize>)
    requires
        foods_wf(foods@),
        within_limit(p, COORD_LIMIT as int),
    ensures
        r matches Some(j) ==> first_in_reach(foods@, p, 0) == Some(j as int) && j < foods@.len(),
        r is None ==> first_in_reach(foods@, p, 0) is None,
{
    let mut j: usize = 0;
    while j < foods.len()
        invariant
            foods_wf(foods@),
            within_limit(p, COORD_LIMIT as int),
            j <= foods@.len(),
            first_in_reach(foods@, p, 0) == first_in_reach(foods@, p, j as int),
        decreases foods@.len() - j,
    {
        let f = foods[j];
        assert(f.wf());
        if closer_than(f.position(), p, FOOD_REACH + f.radius()) {
            return Some(j);
        }
        j = j + 1;
    }
    None
}

/// Every ant in turn picks from the first food source within reach of it, if
/// it has room (see `pick_step`); a source emptied this way is replaced by a
/// new random one.
pub fn pick_up_food(ants: &mut Vec<Ant>, foods: &mut Vec<Food>, tracks: &Tracks, rng: &mut StdRng)
    requires
        all_wf(old(ants)@),
        foods_wf(old(foods)@),
        tracks.wf(),
    ensures
        all_wf(final(ants)@),
        foods_wf(final(foods)@),
        final(foods)@.len() == old(foods)@.len(),
        exists|trace: Seq<Seq<Food>>|
            picked_all(
                old(ants)@,
                old(foods)@,
                final(ants)@,
                final(foods)@,
                tracks.half_w(),
                tracks.half_h(),
                trace,
            ),
{
    let ghost start = ants@;
    let ghost trace: Seq<Seq<Food>> = seq![foods@];
    let n = ants.len();
    let mut i: usize = 0;
    while i < n
        invariant
            0 <= i <= n == start.len() == ants@.len(),
            all_wf(start),
            all_wf(ants@),
            foods_wf(foods@),
            tracks.wf(),
            trace.len() == i + 1,
            foods@.len() == old(foods)@.len(),
            trace[0] == old(foods)@,
            trace[i as int] == foods@,
            forall|j: int| i <= j < n ==> #[trigger] ants@[j] == start[j],
            forall|j: int|
                0 <= j < i ==> #[trigger] pick_step(
                    start[j],
                    trace[j],
                    ants@[j],
                    trace[j + 1],
                    tracks.half_w(),
                    tracks.half_h(),
                ),
        decreases n - i,
    {
        let mut a = ants[i];
        let ghost fs = foods@;
        assert(a.wf());
        if !a.held_food.full() {
            match find_food_in_reach(foods, a.position) {
                Some(j) => {
                    let mut f = foods[j];
                    assert(f.wf());
                    pick_up_from(&mut a.held_food, &mut f);
                    if f.empty() {
                        f = spawn_random_food(tracks, rng);
                    }
                    foods.set(j, f);
                    assert forall|k: int| 0 <= k < foods@.len() implies (#[trigger] foods@[k]).wf() by {
                    }
                    ants.set(i, a);
                },
                None => {},
            }
        }
        proof {
            trace = trace.push(foods@);
            assert(pick_step(
                start[i as int],
                fs,
                ants@[i as int],
                foods@,
                tracks.half_w(),
                tracks.half_h(),
            ));
        }
        i = i + 1;
    }
    assert(picked_all(
        start,
        old(foods)@,
        ants@,
        foods@,
        tracks.half_w(),
        tracks.half_h(),
        trace,
    ));
}

/// Trail an ant leaves per tick.
pub open spec fn ant_emission(config: &SimulationConfig) -> int {
    (config.ant_track_concentration / TICKS_PER_SECOND) as int
}

/// The trail an ant marks: the food trail while it carries food, else the nest trail.
pub open spec fn trail_of(a: Ant) -> Channel {
    if a.held_food.value() > 0 {
        Channel::Food
    } else {
        Channel::Nest
    }
}

/// One ant marks its trail on every cell within `TRACK_RADIUS` of it.
pub fn emit_ant_pheromone(ant: &Ant, tracks: &mut Tracks, config: &SimulationConfig)
    requires
        ant.wf(),
        old(tracks).wf(),
    ensures
        final(tracks).wf(),
        final(tracks).w() == old(tracks).w(),
        final(tracks).h() == old(tracks).h(),
        forall|i: int|
            0 <= i < old(tracks).cells().len() ==> #[trigger] final(tracks).cells()[i] == if old(
                tracks,
            ).index_in_circle(ant.position, crate::config::TRACK_RADIUS as int, i) {
                deposited(old(tracks).cells()[i], trail_of(*ant), ant_emission(config))
            } else {
                old(tracks).cells()[i]
            },
{
    let channel = if ant.held_food.empty() {
        Channel::Nest
    } else {
        Channel::Food
    };
    let amount = config.ant_track_concentration / TICKS_PER_SECOND;
    tracks.within_circle_mut(ant.position, crate::config::TRACK_RADIUS, channel, amount);
}

/// The cells of a `w` by `h` grid after each of `ants` in turn marked its
/// trail with `amount` around itself.
pub open spec fn marked(cells: Seq<Track>, w: int, h: int, ants: Seq<Ant>, amount: int) -> Seq<
    Track,
>
    decreases ants.len(),
{
    if ants.len() == 0 {
        cells
    } else {
        let prev = marked(cells, w, h, ants.drop_last(), amount);
        let a = ants.last();
        Seq::new(
            prev.len(),
            |i: int|
                if grid_index_in_circle(w, h, a.position, crate::config::TRACK_RADIUS as int, i) {
                    deposited(prev[i], trail_of(a), amount)
                } else {
                    prev[i]
                },
        )
    }
}

proof fn lemma_marked_len(cells: Seq<Track>, w: int, h: int, ants: Seq<Ant>, amount: int)
    ensures
        marked(cells, w, h, ants, amount).len() == cells.len(),
    decreases ants.len(),
{
    if ants.len() > 0 {
        lemma_marked_len(cells, w, h, ants.drop_last(), amount);
    }
}

/// Every ant marks its trail, one after the other.
pub fn emit_ant_pheromones(ants: &Vec<Ant>, tracks: &mut Tracks, config: &SimulationConfig)
    requires
        all_wf(ants@),
        old(tracks).wf(),
    ensures
        final(tracks).wf(),
        final(tracks).w() == old(tracks).w(),
        final(tracks).h() == old(tracks).h(),
        final(tracks).cells() == marked(
            old(tracks).cells(),
            old(tracks).w(),
            old(tracks).h(),
            ants@,
            ant_emission(config),
        ),
{
    let ghost start = *tracks;
    let ghost w = tracks.w();
    let ghost h = tracks.h();
    let mut i: usize = 0;
    while i < ants.len()
        invariant
            all_wf(ants@),
            tracks.wf(),
            tracks.w() == w == start.w(),
            tracks.h() == h == start.h(),
            i <= ants@.len(),
            tracks.cells() == marked(start.cells(), w, h, ants@.take(i as int), ant_emission(config)),
        decreases ants@.len() - i,
    {
        assert(ants@[i as int].wf());
        let ghost before = tracks.cells();
        emit_ant_pheromone(&ants[i], tracks, config);
        proof {
            let next = ants@.take(i + 1);
            assert(next.drop_last() == ants@.take(i as int));
            assert(next.last() == ants@[i as int]);
            lemma_marked_len(start.cells(), w, h, ants@.take(i as int), ant_emission(config));
            assert(tracks.cells() =~= marked(start.cells(), w, h, next, ant_emission(config)));
        }
        i = i + 1;
    }
    assert(ants@.take(ants@.len() as int) == ants@);
}

} // verus!
