//! The nest: it stores food brought home, emits a nest trail, and turns one
//! unit of stored food into a new ant at a fixed cadence.
use rand::rngs::StdRng;
use vstd::prelude::*;

use crate::ant::{all_wf, heading_bounded, spawn_ant, Ant, Heading};
use crate::config::{
    SimulationConfig, COORD_LIMIT, NEST_INITIAL_FOOD, NEST_RADIUS, NEST_SPAWN_INTERVAL_SECONDS,
    TICKS_PER_SECOND, UNIT,
};
use crate::geometry::{dist_sq, lemma_square_bound, square, within_limit, Position};
use crate::rng::gen_range_i64;
use crate::track::{deposited, Channel, Tracks};

verus! {

/// Largest magnitude of a nest coordinate: new ants appear up to `NEST_RADIUS` away.
pub const NEST_COORD_LIMIT: i64 = COORD_LIMIT - NEST_RADIUS;

/// The nest and the food stored in it.
#[derive(Clone, Copy, Debug)]
pub struct Nest {
    pub position: Position,
    pub food: u64,
}

impl Nest {
    pub open spec fn wf(&self) -> bool {
        within_limit(self.position, NEST_COORD_LIMIT as int)
    }
}

/// A repeating timer counted in ticks.
#[derive(Clone, Copy, Debug)]
pub struct AntSpawner {
    interval: u64,
    elapsed: u64,
}

impl AntSpawner {
    pub closed spec fn interval_ticks(&self) -> nat {
        self.interval as nat
    }

    pub closed spec fn elapsed_ticks(&self) -> nat {
        self.elapsed as nat
    }

    pub open spec fn wf(&self) -> bool {
        0 < self.interval_ticks() && self.elapsed_ticks() < self.interval_ticks()
    }

    /// Whether the next tick completes an interval.
    pub open spec fn fires(&self) -> bool {
        self.elapsed_ticks() + 1 >= self.interval_ticks()
    }

    /// A timer that fires every `interval` ticks.
    pub fn new(interval: u64) -> (r: Self)
        requires
            0 < interval,
        ensures
            r.wf(),
            r.interval_ticks() == interval,
            r.elapsed_ticks() == 0,
    {
        AntSpawner { interval, elapsed: 0 }
    }

    pub fn elapsed(&self) -> (r: u64)
        ensures
            r == self.elapsed_ticks(),
    {
        self.elapsed
    }

    /// Advances by one tick and says whether an interval completed; the count
    /// then restarts, with nothing carried over.
    pub fn tick(&mut self) -> (r: bool)
        requires
            old(self).wf(),
        ensures
            final(self).wf(),
            r == old(self).fires(),
            final(self).interval_ticks() == old(self).interval_ticks(),
            final(self).elapsed_ticks() == if r {
                0
            } else {
                old(self).elapsed_ticks() + 1
            },
    {
        if self.elapsed + 1 >= self.interval {
            self.elapsed = 0;
            true
        } else {
            self.elapsed = self.elapsed + 1;
            false
        }
    }
}

/// A nest at `(x, y)` with its initial store, and its spawn timer.
pub fn spawn_nest(x: i64, y: i64) -> (r: (Nest, AntSpawner))
    requires
        -NEST_COORD_LIMIT <= x <= NEST_COORD_LIMIT,
        -NEST_COORD_LIMIT <= y <= NEST_COORD_LIMIT,
    ensures
        r.0.wf(),
        r.0.position == (Position { x, y }),
        r.0.food == NEST_INITIAL_FOOD,
        r.1.wf(),
        r.1.interval_ticks() == NEST_SPAWN_INTERVAL_SECONDS * TICKS_PER_SECOND,
        r.1.elapsed_ticks() == 0,
{
    (
        Nest { position: Position { x, y }, food: NEST_INITIAL_FOOD },
        AntSpawner::new(NEST_SPAWN_INTERVAL_SECONDS * TICKS_PER_SECOND),
    )
}

/// Most draws of a point in the square around the nest before settling for its centre.
pub const SPAWN_PLACEMENT_TRIES: u64 = 16;

/// A random offset strictly within `NEST_RADIUS` of the origin: a point drawn
/// in the square around it, drawn again while it falls outside the circle,
/// and the origin itself if `SPAWN_PLACEMENT_TRIES` draws all fell outside.
fn random_spawn_offset(rng: &mut StdRng) -> (r: (i64, i64))
    ensures
        square(r.0 as int) + square(r.1 as int) < square(NEST_RADIUS as int),
        -NEST_RADIUS < r.0 < NEST_RADIUS,
        -NEST_RADIUS < r.1 < NEST_RADIUS,
{
    assert(NEST_RADIUS == 10_000);
    let mut k: u64 = 0;
    while k < SPAWN_PLACEMENT_TRIES
        decreases SPAWN_PLACEMENT_TRIES - k,
    {
        let dx = gen_range_i64(rng, -9_999, 10_000);
        let dy = gen_range_i64(rng, -9_999, 10_000);
        let (wx, wy) = (dx as i128, dy as i128);
        proof {
            lemma_square_bound(wx as int, 10_000);
            lemma_square_bound(wy as int, 10_000);
        }
        if wx * wx + wy * wy < 100_000_000 {
            return (dx, dy);
        }
        k = k + 1;
    }
    (0, 0)
}

/// What the spawn step made of nest `n0`, timer `s0` and ants `a0`: the timer
/// advanced; when it completed an interval and the nest held at least one
/// unit, that unit became one new ant appended to the ants, placed strictly
/// within `NEST_RADIUS` of the nest, facing `heading`, fully fed, carrying
/// nothing, of a kind of positive weight; otherwise nest and ants are unchanged.
pub open spec fn spawned(
    n0: Nest,
    s0: AntSpawner,
    a0: Seq<Ant>,
    n1: Nest,
    s1: AntSpawner,
    a1: Seq<Ant>,
    config: SimulationConfig,
    heading: Heading,
) -> bool {
    &&& s1.interval_ticks() == s0.interval_ticks()
    &&& s1.elapsed_ticks() == if s0.fires() {
        0
    } else {
        s0.elapsed_ticks() + 1
    }
    &&& n1.position == n0.position
    &&& s0.fires() && n0.food >= UNIT ==> {
        let a = a1.last();
        &&& n1.food == n0.food - UNIT
        &&& a1.len() == a0.len() + 1
        &&& a1.drop_last() == a0
        &&& dist_sq(a.position, n0.position) < square(NEST_RADIUS as int)
        &&& a.heading == heading
        &&& a.satiation.value() == crate::config::ANT_MAX_ENERGY
        &&& a.held_food.value() == 0
        &&& a.held_food.capacity() == config.ant_max_carry
        &&& exists|i: int|
            0 <= i < 2 && #[trigger] config.ant_kind_gen_config.weights_spec()@[i].0 == a.kind
                && config.ant_kind_gen_config.weights_spec()@[i].1 > 0
    }
    &&& !(s0.fires() && n0.food >= UNIT) ==> n1.food == n0.food && a1 == a0
}

/// Advances the spawn timer; when it completes an interval and the nest holds
/// at least one unit of food, that unit becomes a new ant with `heading`,
/// placed at random strictly within `NEST_RADIUS` of the nest, of a kind
/// drawn by the configured weights (see `spawned`).
pub fn spawn_ants_from_nest(
    nest: &mut Nest,
    spawner: &mut AntSpawner,
    ants: &mut Vec<Ant>,
    config: &SimulationConfig,
    rng: &mut StdRng,
    heading: Heading,
)
    requires
        old(nest).wf(),
        old(spawner).wf(),
        all_wf(old(ants)@),
        config.wf(),
        heading_bounded(heading),
    ensures
        final(nest).wf(),
        final(spawner).wf(),
        all_wf(final(ants)@),
        spawned(
            *old(nest),
            *old(spawner),
            old(ants)@,
            *final(nest),
            *final(spawner),
            final(ants)@,
            *config,
            heading,
        ),
{
    if !spawner.tick() {
        return ;
    }
    if nest.food < UNIT {
        return ;
    }
    nest.food = nest.food - UNIT;
    let (dx, dy) = random_spawn_offset(rng);
    let x = nest.position.x + dx;
    let y = nest.position.y + dy;
    let kind = config.ant_kind_gen_config.gen_kind(rng);
    let ant = spawn_ant(config, x, y, heading, kind);
    let ghost before = ants@;
    ants.push(ant);
    assert(ants@.drop_last() == before);
    assert forall|i: int| 0 <= i < ants@.len() implies (#[trigger] ants@[i]).wf() by {
        if i < before.len() {
            assert(ants@[i] == before[i]);
        }
    }
}

/// Nest trail emitted around the nest per tick.
pub open spec fn nest_emission(config: &SimulationConfig) -> int {
    (config.nest_track_concentration / TICKS_PER_SECOND) as int
}

/// The nest marks the nest trail of every cell within `NEST_RADIUS` of it.
pub fn emit_nest_pheromones(nest: &Nest, tracks: &mut Tracks, config: &SimulationConfig)
    requires
        nest.wf(),
        old(tracks).wf(),
    ensures
        final(tracks).wf(),
        final(tracks).w() == old(tracks).w(),
        final(tracks).h() == old(tracks).h(),
        forall|i: int|
            0 <= i < old(tracks).cells().len() ==> #[trigger] final(tracks).cells()[i] == if old(
                tracks,
            ).index_in_circle(nest.position, NEST_RADIUS as int, i) {
                deposited(old(tracks).cells()[i], Channel::Nest, nest_emission(config))
            } else {
                old(tracks).cells()[i]
            },
{
    let amount = config.nest_track_concentration / TICKS_PER_SECOND;
    tracks.within_circle_mut(nest.position, NEST_RADIUS, Channel::Nest, amount);
}

} // verus!
