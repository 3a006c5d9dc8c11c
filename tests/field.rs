use ant_colony::config::{SimulationConfig, UNIT};
use ant_colony::geometry::Position;
use ant_colony::track::{decay_tracks, diffuse_tracks, Channel, Signal, Tracks};

fn cell_point(t: &Tracks, x: usize, y: usize) -> Position {
    t.grid_to_world(x, y)
}

#[test]
fn new_field_is_empty_and_sized() {
    let t = Tracks::new(7, 5);
    assert_eq!(t.width(), 7);
    assert_eq!(t.height(), 5);
    for x in 0..7 {
        for y in 0..5 {
            let c = t.track_at(x, y);
            assert_eq!((c.food, c.nest), (0, 0));
        }
    }
}

#[test]
fn world_to_grid_and_back() {
    let t = Tracks::new(480, 270);
    // Centre of the world: cell (240, 135).
    assert_eq!(t.world_to_grid(Position { x: 0, y: 0 }), Some((240, 135)));
    // Top-left corner.
    assert_eq!(t.world_to_grid(Position { x: -960_000, y: 540_000 }), Some((0, 0)));
    // Outside on each side.
    assert_eq!(t.world_to_grid(Position { x: -960_001, y: 0 }), None);
    assert_eq!(t.world_to_grid(Position { x: 960_000, y: 0 }), None);
    assert_eq!(t.world_to_grid(Position { x: 0, y: 540_001 }), None);
    let p = Position { x: 12_345, y: -6_789 };
    let (cx, cy) = t.world_to_grid(p).unwrap();
    let q = t.grid_to_world(cx, cy);
    assert!(p.x - q.x >= 0 && p.x - q.x < 4000);
    assert!(q.y - p.y >= 0 && q.y - p.y < 4000);
    assert_eq!(t.world_to_grid(q), Some((cx, cy)));
}

#[test]
fn deposit_within_circle_is_capped_and_local() {
    let mut t = Tracks::new(10, 10);
    let c = cell_point(&t, 5, 5);
    // Radius of one cell: the cell and its four axis neighbours.
    t.within_circle_mut(c, 4000, Channel::Food, 700_000);
    t.within_circle_mut(c, 4000, Channel::Food, 700_000);
    assert_eq!(t.track_at(5, 5).food, UNIT);
    assert_eq!(t.track_at(4, 5).food, UNIT);
    assert_eq!(t.track_at(5, 6).food, UNIT);
    assert_eq!(t.track_at(4, 4).food, 0);
    assert_eq!(t.track_at(5, 5).nest, 0);
    assert_eq!(t.within_circle(c, 4000, Signal::Food), 5 * UNIT);
    assert_eq!(t.within_circle(c, 0, Signal::Food), UNIT);
    assert_eq!(t.within_circle(c, -1, Signal::Food), 0);
    assert_eq!(t.within_circle(c, 4000, Signal::Nest), 0);
}

#[test]
fn strongest_signal_takes_the_larger_trail() {
    let mut t = Tracks::new(10, 10);
    let c = cell_point(&t, 3, 3);
    t.within_circle_mut(c, 0, Channel::Food, 200_000);
    t.within_circle_mut(c, 0, Channel::Nest, 500_000);
    assert_eq!(t.within_circle(c, 0, Signal::Strongest), 500_000);
    assert_eq!(t.within_circle(c, 0, Signal::Food), 200_000);
}

#[test]
fn decay_never_rises_and_reaches_zero() {
    let mut config = SimulationConfig::default();
    config.track_concentration_factor = 0;
    let mut t = Tracks::new(4, 4);
    let c = cell_point(&t, 1, 1);
    t.within_circle_mut(c, 0, Channel::Nest, UNIT);
    let mut last = t.track_at(1, 1).nest;
    decay_tracks(&mut t, &config);
    // The per-tick factor of a per-second base of zero: 0.809833.
    assert_eq!(t.track_at(1, 1).nest, 809_833);
    for _ in 0..59 {
        decay_tracks(&mut t, &config);
        let now = t.track_at(1, 1).nest;
        assert!(now <= last);
        last = now;
    }
    assert_eq!(last, 0);
}

#[test]
fn default_decay_factor_per_tick() {
    let config = SimulationConfig::default();
    let mut t = Tracks::new(3, 3);
    let c = cell_point(&t, 0, 0);
    t.within_circle_mut(c, 0, Channel::Food, UNIT);
    decay_tracks(&mut t, &config);
    // 0.99 per second is 0.999832 per tick in fixed point.
    assert_eq!(t.track_at(0, 0).food, 999_832);
}

#[test]
fn diffusion_of_a_single_full_cell() {
    let mut config = SimulationConfig::default();
    config.track_diffusion_factor = 100_000;
    let mut t = Tracks::new(5, 5);
    let c = cell_point(&t, 2, 2);
    t.within_circle_mut(c, 0, Channel::Food, UNIT);
    diffuse_tracks(&mut t, &config);
    assert_eq!(t.track_at(2, 2).food, 600_000);
    assert_eq!(t.track_at(1, 2).food, 100_000);
    assert_eq!(t.track_at(3, 2).food, 100_000);
    assert_eq!(t.track_at(2, 1).food, 100_000);
    assert_eq!(t.track_at(2, 3).food, 100_000);
    assert_eq!(t.track_at(1, 1).food, 0);
    assert_eq!(t.track_at(2, 2).nest, 0);
}

#[test]
fn diffusion_keeps_interior_mass_without_border_flow() {
    let mut config = SimulationConfig::default();
    config.track_diffusion_factor = 50_000;
    let mut t = Tracks::new(7, 7);
    let c = cell_point(&t, 3, 3);
    t.within_circle_mut(c, 0, Channel::Nest, 800_000);
    let before: u64 = (1..6).flat_map(|x| (1..6).map(move |y| (x, y))).map(|(x, y)| t.track_at(x, y).nest).sum();
    diffuse_tracks(&mut t, &config);
    let after: u64 = (1..6).flat_map(|x| (1..6).map(move |y| (x, y))).map(|(x, y)| t.track_at(x, y).nest).sum();
    assert_eq!(before, after);
    assert_eq!(t.track_at(3, 3).nest, 640_000);
}

#[test]
fn diffusion_leaves_border_cells_alone() {
    let mut config = SimulationConfig::default();
    config.track_diffusion_factor = 200_000;
    let mut t = Tracks::new(4, 4);
    let corner = cell_point(&t, 0, 1);
    t.within_circle_mut(corner, 0, Channel::Food, UNIT);
    diffuse_tracks(&mut t, &config);
    assert_eq!(t.track_at(0, 1).food, UNIT);
    // The interior neighbour receives k times the border value.
    assert_eq!(t.track_at(1, 1).food, 200_000);
}
