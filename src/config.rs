use rand::rngs::StdRng;
use vstd::prelude::*;

use crate::ant::AntKind;
use crate::rng::choose_weighted_kind;

verus! {

/// One whole unit of a quantity (satiation, food, pheromone concentration):
/// quantities are counted in millionths.
pub const UNIT: u64 = 1_000_000;

/// Fixed time step: the simulation advances by `1 / TICKS_PER_SECOND` seconds per tick.
pub const TICKS_PER_SECOND: u64 = 60;

/// Edge length of one pheromone cell (4 world units).
pub const TRACK_RESOLUTION: i64 = 4000;

/// Radius of one ant body segment (2 world units).
pub const ANT_SEGMENT_RADIUS: i64 = 2000;

/// Distance walked per second (10 world units).
pub const ANT_SPEED: i64 = 10_000;

/// Largest satiation an ant can hold (one unit).
pub const ANT_MAX_ENERGY: u64 = 1_000_000;

/// Satiation lost per second (0.006 units).
pub const ANT_ENERGY_LOSS_RATE: u64 = 6000;

/// Fraction of the satiation deficit eaten from carried food per second (0.1).
pub const ANT_EAT_RATE: u64 = 100_000;

/// Radius of the pheromone mark an ant leaves (2 world units).
pub const TRACK_RADIUS: i64 = 2000;

/// Radius of the nest (10 world units).
pub const NEST_RADIUS: i64 = 10_000;

/// Seconds between two spawn attempts of the nest.
pub const NEST_SPAWN_INTERVAL_SECONDS: u64 = 60;

/// Food stored in a new nest (five units).
pub const NEST_INITIAL_FOOD: u64 = 5_000_000;

/// Length of a unit heading vector.
pub const HEADING_SCALE: i64 = 1_000_000;

/// Cosine of the angle (3π/16) between the middle and the side sensing points, in millionths.
pub const SENSE_ANGLE_COS: i64 = 831_470;

/// Sine of the angle (3π/16) between the middle and the side sensing points, in millionths.
pub const SENSE_ANGLE_SIN: i64 = 555_570;

/// Weight of a sensing point that touches the goal itself (ten units).
pub const DIRECT_SENSE_WEIGHT: i64 = 10_000_000;

/// Smallest weight of a sensing point.
pub const MIN_SENSE_WEIGHT: i64 = 1;

/// Distance from a world edge below which an ant is pushed away from it (50 world units).
pub const SOFT_EDGE_DISTANCE: i64 = 50_000;

/// Distance from a world edge at which the push reaches its full strength (10 world units).
pub const HARD_EDGE_DISTANCE: i64 = 10_000;

/// Largest magnitude of a coordinate that an entity of the simulation may hold.
pub const COORD_LIMIT: i64 = 0x100_0000_0000;

/// Tunables of one run. Rates are per second in millionths of a unit; lengths
/// are in thousandths of a world unit.
pub struct SimulationConfig {
    /// Pheromone deposited per ant per second.
    pub ant_track_concentration: u64,
    /// Distance of the three sensing points from the ant.
    pub ant_sense_distance: i64,
    /// Radius sensed around each sensing point.
    pub ant_sense_radius: i64,
    /// Food an ant can carry.
    pub ant_max_carry: u64,
    /// Pheromone the nest emits per second.
    pub nest_track_concentration: u64,
    /// Factor, in millionths, by which every concentration is multiplied per
    /// second (applied per tick as its power of one tick).
    pub track_concentration_factor: u64,
    /// Diffusion coefficient per tick, in millionths.
    pub track_diffusion_factor: u64,
    /// Weighted draw of the kind of a new ant.
    pub ant_kind_gen_config: AntKindGenConfig,
}


/// Relative likelihood of each kind when a nest spawns an ant.
pub struct AntKindGenConfig {
    weights: [(AntKind, u64); 2],
}

/// Each kind appears once and the weights sum to a positive value that fits in `u64`.
pub open spec fn kind_weights_valid(weights: [(AntKind, u64); 2]) -> bool {
    &&& weights@[0].0 != weights@[1].0
    &&& 0 < weights@[0].1 + weights@[1].1 <= u64::MAX
}

impl AntKindGenConfig {
    pub open spec fn wf(&self) -> bool {
        kind_weights_valid(self.weights_spec())
    }

    pub closed spec fn weights_spec(&self) -> [(AntKind, u64); 2] {
        self.weights
    }

    /// Whether `weights` can make a configuration: a missing or repeated kind, or
    /// weights that sum to zero, are setup errors.
    pub fn weights_valid(weights: &[(AntKind, u64); 2]) -> (r: bool)
        ensures
            r == kind_weights_valid(*weights),
    {
        weights[0].0 != weights[1].0 && weights[0].1 <= u64::MAX - weights[1].1 && (weights[0].1
            > 0 || weights[1].1 > 0)
    }

    pub fn new(weights: [(AntKind, u64); 2]) -> (r: Self)
        requires
            kind_weights_valid(weights),
        ensures
            r.wf(),
            r.weights_spec() == weights,
    {
        AntKindGenConfig { weights }
    }

    /// Draws a kind; only a kind of positive weight can come out.
    pub fn gen_kind(&self, rng: &mut StdRng) -> (r: AntKind)
        requires
            self.wf(),
        ensures
            exists|i: int| 0 <= i < 2 && #[trigger] self.weights_spec()@[i].0 == r
                && self.weights_spec()@[i].1 > 0,
    {
        match choose_weighted_kind(&self.weights, rng) {
            Some(k) => k,
            None => self.weights[0].0,
        }
    }
}

impl SimulationConfig {
    /// Decay and diffusion are stable, sensing distances are in range, and the
    /// kind weights are valid.
    pub open spec fn wf(&self) -> bool {
        &&& self.track_concentration_factor <= UNIT
        &&& 4 * self.track_diffusion_factor < UNIT
        &&& 0 <= self.ant_sense_distance <= COORD_LIMIT
        &&& 0 <= self.ant_sense_radius <= COORD_LIMIT
        &&& self.ant_kind_gen_config.wf()
    }
}

impl Default for SimulationConfig {
    fn default() -> (r: Self)
        ensures
            r.wf(),
            r.ant_track_concentration == 100_000,
            r.ant_sense_distance == 12_000,
            r.ant_sense_radius == 8000,
            r.ant_max_carry == 5_000_000,
            r.nest_track_concentration == 100_000,
            r.track_concentration_factor == 990_000,
            r.track_diffusion_factor == 1000,
            r.ant_kind_gen_config.weights_spec() == [(AntKind::Worker, 1u64), (AntKind::Scout, 1u64)],
    {
        SimulationConfig {
            ant_track_concentration: 100_000,
            ant_sense_distance: 12_000,
            ant_sense_radius: 8000,
            ant_max_carry: 5_000_000,
            nest_track_concentration: 100_000,
            track_concentration_factor: 990_000,
            track_diffusion_factor: 1000,
            ant_kind_gen_config: AntKindGenConfig::new([(AntKind::Worker, 1), (AntKind::Scout, 1)]),
        }
    }
}

} // verus!
