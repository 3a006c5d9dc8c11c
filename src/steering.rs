//! What an ant wants each tick: its goal, three sensing points ahead of it,
//! the weight the field and the entities give each point, and the push away
//! from the world's edges. Turning the heading toward the result is left to
//! the caller.
use vstd::prelude::*;

use crate::ant::{scaled, Ant, Heading};
use crate::config::{
    SimulationConfig, ANT_MAX_ENERGY, COORD_LIMIT, DIRECT_SENSE_WEIGHT, HARD_EDGE_DISTANCE,
    HEADING_SCALE, MIN_SENSE_WEIGHT, NEST_RADIUS, SENSE_ANGLE_COS, SENSE_ANGLE_SIN,
    SOFT_EDGE_DISTANCE, UNIT,
};
use crate::food::{food_radius, Food};
use crate::geometry::{closer_than, dist_sq, square, within_limit, Position};
use crate::nest::Nest;
use crate::track::{Signal, Tracks};

verus! {

/// Push gained per thousandth of a world unit nearer an edge: twice
/// `HEADING_SCALE` over the distance between `SOFT_EDGE_DISTANCE` and
/// `HARD_EDGE_DISTANCE`.
pub const EDGE_PUSH_SLOPE: i64 = 50;

/// What an ant is after this tick.
#[derive(Clone, Copy, PartialEq, Eq, Structural, Debug)]
pub enum AntGoal {
    /// Pheromone-poor ground.
    Scout,
    /// A food source.
    Food,
    /// The nest.
    Nest,
}

/// Hunger sends any ant home; otherwise scouts explore and workers fetch food
/// until they carry some, then bring it home.
pub open spec fn goal_of(a: Ant) -> AntGoal {
    if a.satiation.value() < ANT_MAX_ENERGY / 2 {
        AntGoal::Nest
    } else {
        match a.kind {
            crate::ant::AntKind::Scout => AntGoal::Scout,
            crate::ant::AntKind::Worker => if a.held_food.value() == 0 {
                AntGoal::Food
            } else {
                AntGoal::Nest
            },
        }
    }
}

pub fn goal(ant: &Ant) -> (r: AntGoal)
    requires
        ant.wf(),
    ensures
        r == goal_of(*ant),
{
    if ant.satiation.amount() < ANT_MAX_ENERGY / 2 {
        AntGoal::Nest
    } else {
        match ant.kind {
            crate::ant::AntKind::Scout => AntGoal::Scout,
            crate::ant::AntKind::Worker => if ant.held_food.empty() {
                AntGoal::Food
            } else {
                AntGoal::Nest
            },
        }
    }
}

/// Cosine and sine, in millionths, of the turn from the heading to sensing point `k`:
/// straight ahead, then to the left, then to the right.
pub open spec fn sense_turn(k: int) -> (int, int) {
    if k == 0 {
        (HEADING_SCALE as int, 0)
    } else if k == 1 {
        (SENSE_ANGLE_COS as int, SENSE_ANGLE_SIN as int)
    } else {
        (SENSE_ANGLE_COS as int, -SENSE_ANGLE_SIN)
    }
}

/// The offset from the ant to sensing point `k`, `dist` away along the turned heading.
pub open spec fn sense_offset(h: Heading, dist: int, k: int) -> (int, int) {
    let (c, s) = sense_turn(k);
    let scale = HEADING_SCALE as int * HEADING_SCALE as int;
    (scaled(h.x * c - h.y * s, dist, scale), scaled(h.x * s + h.y * c, dist, scale))
}

pub open spec fn sense_point(a: Ant, dist: int, k: int) -> Position {
    let (ox, oy) = sense_offset(a.heading, dist, k);
    Position { x: (a.position.x + ox) as i64, y: (a.position.y + oy) as i64 }
}

/// Whether a food source touches the circle of radius `r` around `p`.
pub open spec fn food_detected(foods: Seq<Food>, p: Position, r: int) -> bool {
    exists|j: int|
        0 <= j < foods.len() && dist_sq(#[trigger] foods[j].pos(), p) < square(
            r + food_radius(foods[j].value() as int),
        )
}

/// What sensing point `p` is worth to an ant with goal `g`: the goal itself
/// in sight outweighs any trail; otherwise the trail sum around `p` (for a
/// scout, one unit less the stronger trails, so fresh ground draws it), but
/// never less than `MIN_SENSE_WEIGHT`.
pub open spec fn sense_weight_of(
    g: AntGoal,
    p: Position,
    tracks: Tracks,
    foods: Seq<Food>,
    nest: Nest,
    config: SimulationConfig,
) -> int {
    let r = config.ant_sense_radius as int;
    let raw = match g {
        AntGoal::Food => if food_detected(foods, p, r) {
            DIRECT_SENSE_WEIGHT as int
        } else {
            tracks.circle_sum(p, r, Signal::Food)
        },
        AntGoal::Nest => if dist_sq(nest.position, p) < square(r + NEST_RADIUS) {
            DIRECT_SENSE_WEIGHT as int
        } else {
            tracks.circle_sum(p, r, Signal::Nest)
        },
        AntGoal::Scout => UNIT - tracks.circle_sum(p, r, Signal::Strongest),
    };
    if raw < MIN_SENSE_WEIGHT {
        MIN_SENSE_WEIGHT as int
    } else {
        raw
    }
}

/// The weighted sum of the offsets to the three sensing points.
pub open spec fn desired_of(
    a: Ant,
    tracks: Tracks,
    foods: Seq<Food>,
    nest: Nest,
    config: SimulationConfig,
) -> (int, int) {
    let d = config.ant_sense_distance as int;
    let g = goal_of(a);
    let w0 = sense_weight_of(g, sense_point(a, d, 0), tracks, foods, nest, config);
    let w1 = sense_weight_of(g, sense_point(a, d, 1), tracks, foods, nest, config);
    let w2 = sense_weight_of(g, sense_point(a, d, 2), tracks, foods, nest, config);
    (
        w0 * sense_offset(a.heading, d, 0).0 + w1 * sense_offset(a.heading, d, 1).0 + w2
            * sense_offset(a.heading, d, 2).0,
        w0 * sense_offset(a.heading, d, 0).1 + w1 * sense_offset(a.heading, d, 1).1 + w2
            * sense_offset(a.heading, d, 2).1,
    )
}

/// `scaled(v, dist, HEADING_SCALE²)`.
fn scale_offset(v: i128, dist: i64) -> (r: i64)
    requires
        -4_000_000_000_000 <= v <= 4_000_000_000_000,
        0 <= dist <= COORD_LIMIT,
    ensures
        r == scaled(v as int, dist as int, HEADING_SCALE as int * HEADING_SCALE as int),
        -4 * COORD_LIMIT <= r <= 4 * COORD_LIMIT,
{
    let m: u128 = if v >= 0 {
        v as u128
    } else {
        (-v) as u128
    };
    assert(m * dist <= 4_000_000_000_000 * COORD_LIMIT) by (nonlinear_arith)
        requires
            m <= 4_000_000_000_000,
            0 <= dist <= COORD_LIMIT,
    ;
    let q: u128 = m * dist as u128 / 1_000_000_000_000;
    assert(q <= 4 * COORD_LIMIT) by {
        vstd::arithmetic::div_mod::lemma_div_is_ordered(
            m * dist,
            4_000_000_000_000 * COORD_LIMIT,
            1_000_000_000_000,
        );
        assert((4_000_000_000_000 * COORD_LIMIT) / 1_000_000_000_000 == 4 * COORD_LIMIT);
    }
    if v >= 0 {
        q as i64
    } else {
        -(q as i64)
    }
}

/// The offset from the ant to sensing point `k`.
fn offset_to(h: Heading, dist: i64, k: usize) -> (r: (i64, i64))
    requires
        crate::ant::heading_bounded(h),
        0 <= dist <= COORD_LIMIT,
        k < 3,
    ensures
        (r.0 as int, r.1 as int) == sense_offset(h, dist as int, k as int),
        -4 * COORD_LIMIT <= r.0 <= 4 * COORD_LIMIT,
        -4 * COORD_LIMIT <= r.1 <= 4 * COORD_LIMIT,
{
    let (c, s): (i128, i128) = if k == 0 {
        (1_000_000, 0)
    } else if k == 1 {
        (831_470, 555_570)
    } else {
        (831_470, -555_570)
    };
    let hx = h.x as i128;
    let hy = h.y as i128;
    assert(-2_000_000_000_000 <= hx * c <= 2_000_000_000_000) by (nonlinear_arith)
        requires
            -2_000_000 <= hx <= 2_000_000,
            -1_000_000 <= c <= 1_000_000,
    ;
    assert(-2_000_000_000_000 <= hy * s <= 2_000_000_000_000) by (nonlinear_arith)
        requires
            -2_000_000 <= hy <= 2_000_000,
            -1_000_000 <= s <= 1_000_000,
    ;
    assert(-2_000_000_000_000 <= hx * s <= 2_000_000_000_000) by (nonlinear_arith)
        requires
            -2_000_000 <= hx <= 2_000_000,
            -1_000_000 <= s <= 1_000_000,
    ;
    assert(-2_000_000_000_000 <= hy * c <= 2_000_000_000_000) by (nonlinear_arith)
        requires
            -2_000_000 <= hy <= 2_000_000,
            -1_000_000 <= c <= 1_000_000,
    ;
    let ox = scale_offset(hx * c - hy * s, dist);
    let oy = scale_offset(hx * s + hy * c, dist);
    (ox, oy)
}

/// Whether a food source touches the circle of radius `r` around `p`.
fn detect_food(foods: &Vec<Food>, p: Position, r: i64) -> (b: bool)
    requires
        forall|j: int| 0 <= j < foods@.len() ==> (#[trigger] foods@[j]).wf(),
        within_limit(p, 8 * COORD_LIMIT as int),
        0 <= r <= COORD_LIMIT,
    ensures
        b == food_detected(foods@, p, r as int),
{
    let mut j: usize = 0;
    while j < foods.len()
        invariant
            forall|k: int| 0 <= k < foods@.len() ==> (#[trigger] foods@[k]).wf(),
            within_limit(p, 8 * COORD_LIMIT as int),
            0 <= r <= COORD_LIMIT,
            forall|k: int|
                0 <= k < j ==> !(dist_sq(#[trigger] foods@[k].pos(), p) < square(
                    r + food_radius(foods@[k].value() as int),
                )),
        decreases foods@.len() - j,
    {
        let f = foods[j];
        assert(f.wf());
        if closer_than(f.position(), p, r + f.radius()) {
            return true;
        }
        j = j + 1;
    }
    false
}

/// What sensing point `p` is worth to an ant with goal `g` (see `sense_weight_of`).
pub fn sense_weight(
    g: AntGoal,
    p: Position,
    tracks: &Tracks,
    foods: &Vec<Food>,
    nest: &Nest,
    config: &SimulationConfig,
) -> (r: i64)
    requires
        tracks.wf(),
        forall|j: int| 0 <= j < foods@.len() ==> (#[trigger] foods@[j]).wf(),
        nest.wf(),
        config.wf(),
        within_limit(p, 8 * COORD_LIMIT as int),
    ensures
        r == sense_weight_of(g, p, *tracks, foods@, *nest, *config),
        MIN_SENSE_WEIGHT <= r <= 0x1_0000 * (0x1_0000 * UNIT) + DIRECT_SENSE_WEIGHT,
{
    let radius = config.ant_sense_radius;
    let raw: i64 = match g {
        AntGoal::Food => if detect_food(foods, p, radius) {
            DIRECT_SENSE_WEIGHT
        } else {
            tracks.within_circle(p, radius, Signal::Food) as i64
        },
        AntGoal::Nest => if closer_than(nest.position, p, radius + NEST_RADIUS) {
            DIRECT_SENSE_WEIGHT
        } else {
            tracks.within_circle(p, radius, Signal::Nest) as i64
        },
        AntGoal::Scout => UNIT as i64 - tracks.within_circle(p, radius, Signal::Strongest) as i64,
    };
    if raw < MIN_SENSE_WEIGHT {
        MIN_SENSE_WEIGHT
    } else {
        raw
    }
}

/// The direction an ant wants to go: the sum of the offsets to its three
/// sensing points, each scaled by that point's weight. It is not normalised.
pub fn desired_direction(
    ant: &Ant,
    tracks: &Tracks,
    foods: &Vec<Food>,
    nest: &Nest,
    config: &SimulationConfig,
) -> (r: (i128, i128))
    requires
        ant.wf(),
        tracks.wf(),
        forall|j: int| 0 <= j < foods@.len() ==> (#[trigger] foods@[j]).wf(),
        nest.wf(),
        config.wf(),
    ensures
        (r.0 as int, r.1 as int) == desired_of(*ant, *tracks, foods@, *nest, *config),
{
    let g = goal(ant);
    let d = config.ant_sense_distance;
    let mut sx: i128 = 0;
    let mut sy: i128 = 0;
    let ghost ws: Seq<int> = seq![];
    let mut k: usize = 0;
    while k < 3
        invariant
            ant.wf(),
            tracks.wf(),
            forall|j: int| 0 <= j < foods@.len() ==> (#[trigger] foods@[j]).wf(),
            nest.wf(),
            config.wf(),
            g == goal_of(*ant),
            d == config.ant_sense_distance,
            k <= 3,
            ws.len() == k,
            forall|j: int|
                0 <= j < k ==> #[trigger] ws[j] == sense_weight_of(
                    g,
                    sense_point(*ant, d as int, j),
                    *tracks,
                    foods@,
                    *nest,
                    *config,
                ),
            sx == (if k > 0 {
                ws[0] * sense_offset(ant.heading, d as int, 0).0
            } else {
                0
            }) + (if k > 1 {
                ws[1] * sense_offset(ant.heading, d as int, 1).0
            } else {
                0
            }) + (if k > 2 {
                ws[2] * sense_offset(ant.heading, d as int, 2).0
            } else {
                0
            }),
            sy == (if k > 0 {
                ws[0] * sense_offset(ant.heading, d as int, 0).1
            } else {
                0
            }) + (if k > 1 {
                ws[1] * sense_offset(ant.heading, d as int, 1).1
            } else {
                0
            }) + (if k > 2 {
                ws[2] * sense_offset(ant.heading, d as int, 2).1
            } else {
                0
            }),
            -(k as int) * 0x1_0000_0000_0000_0000_0000_0000 <= sx <= (k as int)
                * 0x1_0000_0000_0000_0000_0000_0000,
            -(k as int) * 0x1_0000_0000_0000_0000_0000_0000 <= sy <= (k as int)
                * 0x1_0000_0000_0000_0000_0000_0000,
        decreases 3 - k,
    {
        let (ox, oy) = offset_to(ant.heading, d, k);
        let p = Position { x: ant.position.x + ox, y: ant.position.y + oy };
        let w = sense_weight(g, p, tracks, foods, nest, config);
        proof {
            ws = ws.push(w as int);
        }
        let wi = w as i128;
        assert(-0x1_0000_0000_0000_0000_0000_0000 <= wi * (ox as i128)
            <= 0x1_0000_0000_0000_0000_0000_0000) by (nonlinear_arith)
            requires
                0 <= wi <= 0x20_0000_0000_0000,
                -0x400_0000_0000 <= ox <= 0x400_0000_0000,
        ;
        assert(-0x1_0000_0000_0000_0000_0000_0000 <= wi * (oy as i128)
            <= 0x1_0000_0000_0000_0000_0000_0000) by (nonlinear_arith)
            requires
                0 <= wi <= 0x20_0000_0000_0000,
                -0x400_0000_0000 <= oy <= 0x400_0000_0000,
        ;
        sx = sx + wi * ox as i128;
        sy = sy + wi * oy as i128;
        k = k + 1;
    }
    (sx, sy)
}

/// The push away from an edge `d` away: zero from `SOFT_EDGE_DISTANCE` on,
/// growing by `EDGE_PUSH_SLOPE` per thousandth of a unit nearer the edge up
/// to its full strength at `HARD_EDGE_DISTANCE`, and no stronger nearer still.
pub open spec fn edge_push(d: int) -> int {
    if d <= HARD_EDGE_DISTANCE {
        (SOFT_EDGE_DISTANCE - HARD_EDGE_DISTANCE) * EDGE_PUSH_SLOPE
    } else if d < SOFT_EDGE_DISTANCE {
        (SOFT_EDGE_DISTANCE - d) * EDGE_PUSH_SLOPE
    } else {
        0
    }
}

pub open spec fn abs(v: int) -> int {
    if v < 0 {
        -v
    } else {
        v
    }
}

/// The push, in `HEADING_SCALE` units, that keeps an ant at `p` away from the
/// edges of a world of half extents `half_w` by `half_h`.
pub open spec fn edge_avoidance_of(p: Position, half_w: int, half_h: int) -> (int, int) {
    (
        edge_push(abs(p.x + half_w)) - edge_push(abs(p.x - half_w)),
        edge_push(abs(p.y + half_h)) - edge_push(abs(p.y - half_h)),
    )
}

fn edge_push_exec(d: i64) -> (r: i64)
    requires
        0 <= d <= 4 * COORD_LIMIT,
    ensures
        r == edge_push(d as int),
        0 <= r <= (SOFT_EDGE_DISTANCE - HARD_EDGE_DISTANCE) * EDGE_PUSH_SLOPE,
{
    if d <= HARD_EDGE_DISTANCE {
        (SOFT_EDGE_DISTANCE - HARD_EDGE_DISTANCE) * EDGE_PUSH_SLOPE
    } else if d < SOFT_EDGE_DISTANCE {
        (SOFT_EDGE_DISTANCE - d) * EDGE_PUSH_SLOPE
    } else {
        0
    }
}

fn abs_exec(v: i64) -> (r: i64)
    requires
        -4 * COORD_LIMIT <= v <= 4 * COORD_LIMIT,
    ensures
        r == abs(v as int),
{
    if v < 0 {
        -v
    } else {
        v
    }
}

/// The push away from the edges of the world of `tracks` for an ant at `p`
/// (see `edge_avoidance_of`).
pub fn edge_avoidance(p: Position, tracks: &Tracks) -> (r: (i64, i64))
    requires
        within_limit(p, COORD_LIMIT as int),
        tracks.wf(),
    ensures
        (r.0 as int, r.1 as int) == edge_avoidance_of(p, tracks.half_w(), tracks.half_h()),
{
    let half_w: i64 = tracks.width() as i64 * 2000;
    let half_h: i64 = tracks.height() as i64 * 2000;
    let x = edge_push_exec(abs_exec(p.x + half_w)) - edge_push_exec(abs_exec(p.x - half_w));
    let y = edge_push_exec(abs_exec(p.y + half_h)) - edge_push_exec(abs_exec(p.y - half_h));
    (x, y)
}

} // verus!
