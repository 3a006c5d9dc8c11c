use ant_colony::ant::{
    decay_satiation, deposit_food, eat_held_food, eat_nest_food, pick_up_food, spawn_ant, starve,
    walk_ants, Ant, AntKind, Heading,
};
use ant_colony::config::{SimulationConfig, ANT_MAX_ENERGY, UNIT};
use ant_colony::food::{spawn_food, spawn_random_food, Food};
use ant_colony::geometry::Position;
use ant_colony::nest::{spawn_ants_from_nest, spawn_nest, AntSpawner, Nest};
use ant_colony::simulation::Simulation;
use ant_colony::steering::{desired_direction, edge_avoidance, goal, sense_weight, AntGoal};
use ant_colony::track::{Channel, Tracks};
use rand::rngs::StdRng;
use rand::SeedableRng;

const UP: Heading = Heading { x: 0, y: 1_000_000 };
const RIGHT: Heading = Heading { x: 1_000_000, y: 0 };

fn worker_at(config: &SimulationConfig, x: i64, y: i64) -> Ant {
    spawn_ant(config, x, y, UP, AntKind::Worker)
}

#[test]
fn lone_ant_far_from_food_and_nest_starves() {
    let config = SimulationConfig::default();
    let tracks = Tracks::new(60, 60);
    let (mut nest, _) = spawn_nest(-100_000, -100_000);
    nest.food = 0;
    let mut sim = Simulation {
        config,
        tracks,
        ants: vec![],
        foods: vec![spawn_food(-100_000, 100_000, UNIT)],
        nest,
        spawner: AntSpawner::new(3600),
    };
    let ant = spawn_ant(&sim.config, 100_000, 0, RIGHT, AntKind::Worker);
    sim.ants.push(ant);
    let mut rng = StdRng::seed_from_u64(1);
    for _ in 0..9_999 {
        sim.tick(&mut rng, UP);
    }
    assert_eq!(sim.ants.len(), 1);
    assert_eq!(sim.ants[0].satiation.amount(), 100);
    assert_eq!(sim.ants[0].held_food.amount(), 0);
    sim.tick(&mut rng, UP);
    assert!(sim.ants.is_empty());
    assert_eq!(sim.nest.food, 0);
}

#[test]
fn ant_on_food_picks_up_all_of_a_small_source() {
    let config = SimulationConfig::default();
    let tracks = Tracks::new(100, 100);
    let mut ants = vec![worker_at(&config, 1000, 2000)];
    let mut foods = vec![spawn_food(1000, 2000, 3 * UNIT)];
    let mut rng = StdRng::seed_from_u64(2);
    pick_up_food(&mut ants, &mut foods, &tracks, &mut rng);
    assert_eq!(ants[0].held_food.amount(), 3 * UNIT);
    assert_eq!(foods.len(), 1);
    let f: &Food = &foods[0];
    assert!(f.amount() >= 50 * UNIT && f.amount() < 250 * UNIT);
    assert_ne!((f.position().x, f.position().y), (1000, 2000));
}

#[test]
fn pick_up_leaves_the_excess_in_the_source() {
    let config = SimulationConfig::default();
    let tracks = Tracks::new(100, 100);
    let mut ants = vec![worker_at(&config, 0, 0)];
    let mut foods = vec![spawn_food(500, 0, 8 * UNIT)];
    let mut rng = StdRng::seed_from_u64(3);
    pick_up_food(&mut ants, &mut foods, &tracks, &mut rng);
    assert_eq!(ants[0].held_food.amount(), 5 * UNIT);
    assert_eq!(foods[0].amount(), 3 * UNIT);
    assert_eq!(foods[0].position(), Position { x: 500, y: 0 });
    assert_eq!(foods.len(), 1);
    // A full ant takes nothing more.
    pick_up_food(&mut ants, &mut foods, &tracks, &mut rng);
    assert_eq!(foods[0].amount(), 3 * UNIT);
}

#[test]
fn food_out_of_reach_is_not_touched() {
    let config = SimulationConfig::default();
    let tracks = Tracks::new(100, 100);
    let mut ants = vec![worker_at(&config, 0, 0)];
    // Radius of one unit of food is 564; reach is 3000 + 564.
    let mut foods = vec![spawn_food(3600, 0, UNIT)];
    let mut rng = StdRng::seed_from_u64(4);
    pick_up_food(&mut ants, &mut foods, &tracks, &mut rng);
    assert_eq!(ants[0].held_food.amount(), 0);
    assert_eq!(foods[0].amount(), UNIT);
}

#[test]
fn spawn_with_exactly_one_unit() {
    let config = SimulationConfig::default();
    let mut nest = Nest { position: Position { x: 0, y: 0 }, food: UNIT };
    let mut spawner = AntSpawner::new(1);
    let mut ants: Vec<Ant> = vec![];
    let mut rng = StdRng::seed_from_u64(5);
    spawn_ants_from_nest(&mut nest, &mut spawner, &mut ants, &config, &mut rng, RIGHT);
    assert_eq!(ants.len(), 1);
    assert_eq!(nest.food, 0);
    let a = &ants[0];
    let (dx, dy) = (a.position.x as i128, a.position.y as i128);
    assert!(dx * dx + dy * dy < 10_000 * 10_000);
    assert_eq!(a.heading, RIGHT);
    assert_eq!(a.satiation.amount(), ANT_MAX_ENERGY);
    assert_eq!(a.held_food.amount(), 0);
    assert_eq!(a.held_food.max(), config.ant_max_carry);
}

#[test]
fn spawned_ants_land_inside_the_nest_circle() {
    let config = SimulationConfig::default();
    let mut rng = StdRng::seed_from_u64(9);
    let mut spread = std::collections::BTreeSet::new();
    for _ in 0..200 {
        let mut nest = Nest { position: Position { x: 5_000, y: -7_000 }, food: UNIT };
        let mut spawner = AntSpawner::new(1);
        let mut ants: Vec<Ant> = vec![];
        spawn_ants_from_nest(&mut nest, &mut spawner, &mut ants, &config, &mut rng, UP);
        let (dx, dy) = ((ants[0].position.x - 5_000) as i128, (ants[0].position.y + 7_000) as i128);
        assert!(dx * dx + dy * dy < 10_000 * 10_000);
        spread.insert((dx, dy));
    }
    assert!(spread.len() > 100);
}

#[test]
fn no_spawn_below_one_unit() {
    let config = SimulationConfig::default();
    let mut nest = Nest { position: Position { x: 0, y: 0 }, food: 990_000 };
    let mut spawner = AntSpawner::new(1);
    let mut ants: Vec<Ant> = vec![];
    let mut rng = StdRng::seed_from_u64(6);
    spawn_ants_from_nest(&mut nest, &mut spawner, &mut ants, &config, &mut rng, RIGHT);
    assert!(ants.is_empty());
    assert_eq!(nest.food, 990_000);
}

#[test]
fn spawn_timer_waits_for_its_interval() {
    let config = SimulationConfig::default();
    let (mut nest, mut spawner) = spawn_nest(0, 0);
    assert_eq!(nest.food, 5 * UNIT);
    let mut ants: Vec<Ant> = vec![];
    let mut rng = StdRng::seed_from_u64(7);
    for _ in 0..3599 {
        spawn_ants_from_nest(&mut nest, &mut spawner, &mut ants, &config, &mut rng, UP);
    }
    assert!(ants.is_empty());
    assert_eq!(spawner.elapsed(), 3599);
    spawn_ants_from_nest(&mut nest, &mut spawner, &mut ants, &config, &mut rng, UP);
    assert_eq!(ants.len(), 1);
    assert_eq!(nest.food, 4 * UNIT);
    assert_eq!(spawner.elapsed(), 0);
}

#[test]
fn timer_ticks_and_restarts() {
    let mut s = AntSpawner::new(3);
    assert!(!s.tick());
    assert!(!s.tick());
    assert!(s.tick());
    assert_eq!(s.elapsed(), 0);
    assert!(!s.tick());
}

#[test]
fn hunger_eating_and_starving() {
    let config = SimulationConfig::default();
    let mut ants = vec![worker_at(&config, 0, 0), worker_at(&config, 0, 0)];
    ants[0].satiation.remove(ANT_MAX_ENERGY - 100);
    ants[1].satiation.remove(600_000);
    ants[1].held_food.add(UNIT);
    decay_satiation(&mut ants);
    assert_eq!(ants[0].satiation.amount(), 0);
    assert_eq!(ants[1].satiation.amount(), 399_900);
    eat_held_food(&mut ants);
    // Deficit 600_100: a tenth per second over sixty ticks is 1000 (rounded down).
    assert_eq!(ants[1].satiation.amount(), 400_900);
    assert_eq!(ants[1].held_food.amount(), UNIT - 1000);
    starve(&mut ants);
    assert_eq!(ants.len(), 1);
    assert_eq!(ants[0].satiation.amount(), 400_900);
}

#[test]
fn walking_steps_forward_and_stops_at_the_edge() {
    let config = SimulationConfig::default();
    let tracks = Tracks::new(10, 10); // half extents 20 units
    let mut ants = vec![
        spawn_ant(&config, 0, 0, UP, AntKind::Scout),
        spawn_ant(&config, 13_950, 0, RIGHT, AntKind::Scout),
        spawn_ant(&config, 0, 0, Heading { x: -1_000_000, y: 0 }, AntKind::Scout),
    ];
    walk_ants(&mut ants, &tracks);
    assert_eq!(ants[0].position, Position { x: 0, y: 166 });
    assert_eq!(ants[1].position, Position { x: 14_000, y: 0 });
    assert_eq!(ants[2].position, Position { x: -166, y: 0 });
}

#[test]
fn returning_ant_unloads_into_the_nest() {
    let config = SimulationConfig::default();
    let mut nest = Nest { position: Position { x: 0, y: 0 }, food: UNIT };
    let mut ants = vec![worker_at(&config, 12_000, 0), worker_at(&config, 14_000, 0)];
    ants[0].held_food.add(2 * UNIT);
    ants[1].held_food.add(2 * UNIT);
    deposit_food(&mut ants, &mut nest);
    assert_eq!(nest.food, 3 * UNIT);
    assert_eq!(ants[0].held_food.amount(), 0);
    assert_eq!(ants[1].held_food.amount(), 2 * UNIT);
}

#[test]
fn hungry_ant_eats_at_the_nest() {
    let config = SimulationConfig::default();
    let mut nest = Nest { position: Position { x: 0, y: 0 }, food: 300_000 };
    let mut ants = vec![worker_at(&config, 0, 0), worker_at(&config, 5_000, 0)];
    ants[0].satiation.remove(200_000);
    ants[1].satiation.remove(500_000);
    eat_nest_food(&mut ants, &mut nest);
    assert_eq!(ants[0].satiation.amount(), ANT_MAX_ENERGY);
    assert_eq!(ants[1].satiation.amount(), 600_000);
    assert_eq!(nest.food, 0);
}

#[test]
fn goals_follow_hunger_kind_and_load() {
    let config = SimulationConfig::default();
    let mut worker = worker_at(&config, 0, 0);
    assert_eq!(goal(&worker), AntGoal::Food);
    worker.held_food.add(1);
    assert_eq!(goal(&worker), AntGoal::Nest);
    let mut scout = spawn_ant(&config, 0, 0, UP, AntKind::Scout);
    assert_eq!(goal(&scout), AntGoal::Scout);
    scout.satiation.remove(500_001);
    assert_eq!(goal(&scout), AntGoal::Nest);
}

#[test]
fn sensing_sees_the_nest_and_trails() {
    let config = SimulationConfig::default();
    let mut tracks = Tracks::new(100, 100);
    let nest = Nest { position: Position { x: 0, y: 0 }, food: 0 };
    let foods: Vec<Food> = vec![];
    // The nest is in sight within sense radius plus nest radius.
    assert_eq!(sense_weight(AntGoal::Nest, Position { x: 17_000, y: 0 }, &tracks, &foods, &nest, &config), 10 * UNIT as i64);
    // No trail anywhere: the smallest weight.
    assert_eq!(sense_weight(AntGoal::Food, Position { x: 40_000, y: 0 }, &tracks, &foods, &nest, &config), 1);
    assert_eq!(sense_weight(AntGoal::Scout, Position { x: 40_000, y: 0 }, &tracks, &foods, &nest, &config), UNIT as i64);
    tracks.within_circle_mut(Position { x: 40_000, y: 0 }, 0, Channel::Food, 300_000);
    assert_eq!(sense_weight(AntGoal::Food, Position { x: 40_000, y: 0 }, &tracks, &foods, &nest, &config), 300_000);
    assert_eq!(sense_weight(AntGoal::Scout, Position { x: 40_000, y: 0 }, &tracks, &foods, &nest, &config), 700_000);
}

#[test]
fn desired_direction_leans_toward_the_stronger_side() {
    let config = SimulationConfig::default();
    let mut tracks = Tracks::new(100, 100);
    let nest = Nest { position: Position { x: -150_000, y: 0 }, food: 0 };
    let foods: Vec<Food> = vec![];
    let ant = worker_at(&config, 0, 0);
    // Nothing sensed: equal weights, the sum points straight ahead.
    let (dx, dy) = desired_direction(&ant, &tracks, &foods, &nest, &config);
    assert_eq!(dx, 0);
    assert_eq!(dy, 12_000 + 2 * 9_977);
    // A food trail at the left sensing point pulls to the left.
    tracks.within_circle_mut(Position { x: -6_666, y: 9_977 }, 8000, Channel::Food, UNIT);
    let (dx, _) = desired_direction(&ant, &tracks, &foods, &nest, &config);
    assert!(dx < 0);
}

#[test]
fn edge_push_grows_near_the_edges() {
    let tracks = Tracks::new(100, 100); // half extents 200 units
    assert_eq!(edge_avoidance(Position { x: 0, y: 0 }, &tracks), (0, 0));
    assert_eq!(edge_avoidance(Position { x: 170_000, y: 0 }, &tracks), (-1_000_000, 0));
    assert_eq!(edge_avoidance(Position { x: 0, y: -190_000 }, &tracks), (0, 2_000_000));
    // Nearer than the hard margin the push stays at its full strength.
    assert_eq!(edge_avoidance(Position { x: -197_000, y: 0 }, &tracks), (2_000_000, 0));
}

#[test]
fn random_food_lies_inside_the_margins() {
    let tracks = Tracks::new(100, 50); // half extents 200 by 100 units
    let mut rng = StdRng::seed_from_u64(8);
    let mut xs = std::collections::BTreeSet::new();
    let mut amounts = std::collections::BTreeSet::new();
    for _ in 0..100 {
        let f = spawn_random_food(&tracks, &mut rng);
        let p = f.position();
        xs.insert(p.x);
        amounts.insert(f.amount());
        assert!(p.x >= -140_000 && p.x < 140_000);
        assert!(p.y >= -40_000 && p.y < 40_000);
        assert!(f.amount() >= 50 * UNIT && f.amount() < 250 * UNIT);
    }
    assert!(xs.len() > 50);
    assert!(amounts.len() > 50);
}

#[test]
fn default_field_covers_the_standard_world() {
    let t = Tracks::default();
    assert_eq!((t.width(), t.height()), (480, 270));
}

#[test]
fn ants_pick_in_turn_from_the_sources_left_by_earlier_ants() {
    let config = SimulationConfig::default();
    let tracks = Tracks::new(100, 100);
    let mut ants = vec![worker_at(&config, 0, 0), worker_at(&config, 0, 0), worker_at(&config, 50_000, 0)];
    let mut foods = vec![spawn_food(0, 0, 7 * UNIT), spawn_food(80_000, 0, UNIT)];
    let mut rng = StdRng::seed_from_u64(10);
    pick_up_food(&mut ants, &mut foods, &tracks, &mut rng);
    // The first ant fills up, the second takes the remaining two units, the
    // third has nothing in reach.
    assert_eq!(ants[0].held_food.amount(), 5 * UNIT);
    assert_eq!(ants[1].held_food.amount(), 2 * UNIT);
    assert_eq!(ants[2].held_food.amount(), 0);
    // The emptied source was replaced; the untouched one is as it was.
    assert!(foods[0].amount() >= 50 * UNIT && foods[0].amount() < 250 * UNIT);
    assert_eq!(foods[1].amount(), UNIT);
    assert_eq!(foods[1].position(), Position { x: 80_000, y: 0 });
}

#[test]
fn short_nest_store_is_shared_in_order() {
    let config = SimulationConfig::default();
    let mut nest = Nest { position: Position { x: 0, y: 0 }, food: 300_000 };
    let mut ants = vec![worker_at(&config, 0, 0), worker_at(&config, 1_000, 0)];
    ants[0].satiation.remove(200_000);
    ants[1].satiation.remove(200_000);
    eat_nest_food(&mut ants, &mut nest);
    assert_eq!(ants[0].satiation.amount(), ANT_MAX_ENERGY);
    assert_eq!(ants[1].satiation.amount(), 900_000);
    assert_eq!(nest.food, 0);
}

#[test]
fn default_config_values() {
    let c = SimulationConfig::default();
    assert_eq!(c.track_concentration_factor, 990_000);
    assert_eq!(c.track_diffusion_factor, 1000);
    assert_eq!(c.ant_max_carry, 5 * UNIT);
    assert_eq!(c.ant_sense_distance, 12_000);
    assert_eq!(c.ant_sense_radius, 8000);
}
