use ant_colony::ant::{HeldFood, Satiation};
use ant_colony::config::{AntKindGenConfig, ANT_MAX_ENERGY, UNIT};
use ant_colony::ant::AntKind;
use ant_colony::food::spawn_food;
use ant_colony::ant::pick_up_from;
use rand::rngs::StdRng;
use rand::SeedableRng;

#[test]
fn satiation_add_absorbs_only_what_fits() {
    let mut s = Satiation::new(900_000);
    assert_eq!(s.add(50_000), 50_000);
    assert_eq!(s.amount(), 950_000);
    assert_eq!(s.add(200_000), 50_000);
    assert_eq!(s.amount(), ANT_MAX_ENERGY);
    assert_eq!(s.add(1), 0);
    assert_eq!(s.amount(), ANT_MAX_ENERGY);
}

#[test]
fn satiation_remove_stops_at_zero() {
    let mut s = Satiation::new(300);
    assert_eq!(s.remove(100), 100);
    assert_eq!(s.amount(), 200);
    assert!(!s.empty());
    assert_eq!(s.remove(1000), 200);
    assert_eq!(s.amount(), 0);
    assert!(s.empty());
    assert_eq!(s.remove(5), 0);
}

#[test]
fn satiation_stays_in_bounds_over_a_sequence() {
    let mut s = Satiation::new(0);
    let steps: [(bool, u64); 8] = [
        (true, 400_000),
        (false, 100_000),
        (true, 900_000),
        (false, 2_000_000),
        (true, 1),
        (true, ANT_MAX_ENERGY),
        (false, 3),
        (true, 7),
    ];
    for (is_add, amount) in steps {
        let before = s.amount();
        if is_add {
            let added = s.add(amount);
            assert_eq!(added, amount.min(ANT_MAX_ENERGY - before));
            assert_eq!(s.amount(), before + added);
        } else {
            let removed = s.remove(amount);
            assert_eq!(removed, amount.min(before));
            assert_eq!(s.amount(), before - removed);
        }
        assert!(s.amount() <= ANT_MAX_ENERGY);
    }
}

#[test]
fn held_food_add_and_remove_respect_capacity() {
    let mut h = HeldFood::new(5 * UNIT);
    assert!(h.empty());
    assert!(!h.full());
    assert_eq!(h.add(3 * UNIT), 3 * UNIT);
    assert_eq!(h.add(4 * UNIT), 2 * UNIT);
    assert!(h.full());
    assert_eq!(h.amount(), 5 * UNIT);
    assert_eq!(h.max(), 5 * UNIT);
    assert_eq!(h.remove(6 * UNIT), 5 * UNIT);
    assert!(h.empty());
}

#[test]
fn pick_up_moves_exactly_what_leaves_the_source() {
    let mut h = HeldFood::new(5 * UNIT);
    h.add(4 * UNIT);
    let mut f = spawn_food(0, 0, 3 * UNIT);
    let took = pick_up_from(&mut h, &mut f);
    assert_eq!(took, UNIT);
    assert_eq!(h.amount(), 5 * UNIT);
    assert_eq!(f.amount(), 2 * UNIT);
}

#[test]
fn food_radius_is_square_root_of_area_over_pi() {
    // 100 units: sqrt(100 / pi) = 5.6418... world units.
    let f = spawn_food(0, 0, 100 * UNIT);
    assert_eq!(f.radius(), 5641);
    let empty = spawn_food(0, 0, 0);
    assert_eq!(empty.radius(), 0);
    assert!(empty.empty());
}

#[test]
fn food_remove_takes_at_most_what_remains() {
    let mut f = spawn_food(5, 6, 2 * UNIT);
    assert_eq!(f.remove(UNIT), UNIT);
    assert_eq!(f.remove(5 * UNIT), UNIT);
    assert!(f.empty());
    assert_eq!(f.position().x, 5);
}

#[test]
fn kind_weights_validation() {
    assert!(AntKindGenConfig::weights_valid(&[(AntKind::Worker, 1), (AntKind::Scout, 1)]));
    assert!(!AntKindGenConfig::weights_valid(&[(AntKind::Worker, 1), (AntKind::Worker, 1)]));
    assert!(!AntKindGenConfig::weights_valid(&[(AntKind::Worker, 0), (AntKind::Scout, 0)]));
    assert!(!AntKindGenConfig::weights_valid(&[(AntKind::Worker, u64::MAX), (AntKind::Scout, 1)]));
    assert!(AntKindGenConfig::weights_valid(&[(AntKind::Scout, 0), (AntKind::Worker, 3)]));
}

#[test]
fn gen_kind_only_draws_kinds_of_positive_weight() {
    let config = AntKindGenConfig::new([(AntKind::Scout, 0), (AntKind::Worker, 3)]);
    let mut rng = StdRng::seed_from_u64(7);
    for _ in 0..50 {
        assert_eq!(config.gen_kind(&mut rng), AntKind::Worker);
    }
    let both = AntKindGenConfig::new([(AntKind::Worker, 1), (AntKind::Scout, 1)]);
    let mut seen_scout = false;
    let mut seen_worker = false;
    for _ in 0..200 {
        match both.gen_kind(&mut rng) {
            AntKind::Scout => seen_scout = true,
            AntKind::Worker => seen_worker = true,
        }
    }
    assert!(seen_scout && seen_worker);
}

#[test]
fn ant_kind_ordinals() {
    assert_eq!(AntKind::Scout.ordinal(), 0);
    assert_eq!(AntKind::Worker.ordinal(), 1);
    assert_eq!(AntKind::VARIANT_COUNT, 2);
}
