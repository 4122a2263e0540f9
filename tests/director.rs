use game::difficulty::LevelParams;
use game::director::{is_clear, EnemiesState, Waypoints};
use game::geometry::Vec3;

fn row(kills: u32, max: u32, mult: u32) -> LevelParams {
    LevelParams::new(kills, max, mult)
}

#[test]
fn level_params_start_at_first_row() {
    let s = EnemiesState::new();
    assert_eq!(*s.get_level_params(), row(20, 6, 100));
}

#[test]
fn level_params_clamp_past_the_table() {
    let mut s = EnemiesState::new();
    for level in [13usize, 14, 15, 1000, usize::MAX] {
        s.current_level = level;
        assert_eq!(*s.get_level_params(), row(500, 14, 158));
    }
}

#[test]
fn twentieth_kill_raises_the_level() {
    let mut s = EnemiesState::new();
    for _ in 0..19 {
        assert!(!s.record_kill());
    }
    assert_eq!(s.current_level, 0);
    assert!(s.record_kill());
    assert_eq!(s.current_level, 1);
    assert_eq!(s.enemies_killed, 20);
    assert_eq!(s.get_level_params().max_enemies, 7);
}

#[test]
fn kill_count_past_several_thresholds_raises_one_level() {
    let mut s = EnemiesState::new();
    s.enemies_killed = 1000;
    assert!(s.record_kill());
    assert_eq!(s.current_level, 1);
    assert!(s.record_kill());
    assert_eq!(s.current_level, 2);
}

#[test]
fn last_level_does_not_rise_further() {
    let mut s = EnemiesState::new();
    s.current_level = 13;
    s.enemies_killed = 600;
    assert!(!s.record_kill());
    assert_eq!(s.current_level, 13);
    s.current_level = 40;
    assert!(!s.record_kill());
    assert_eq!(s.current_level, 40);
}

#[test]
fn reset_restores_the_start() {
    let mut s = EnemiesState::new();
    s.enemies_killed = 77;
    s.current_level = 3;
    s.destinations = [4, 5, 6];
    s.record_player_hit(1234);
    assert_eq!(s.last_time_player_took_damage, 1234);
    s.reset();
    assert_eq!(s.enemies_killed, 0);
    assert_eq!(s.current_level, 0);
    assert_eq!(s.destinations, [0, 1, 2]);
    assert_eq!(s.last_time_player_took_damage, 0);
}

fn ring_of_waypoints() -> Vec<Vec3> {
    // Distances from the origin, in whole units: 7, 3, 9, 1, 10, 5, 2, 8, 4, 6.
    [7, 3, 9, 1, 10, 5, 2, 8, 4, 6].iter().map(|d| Vec3::new(d * 1000, 0, 0)).collect()
}

#[test]
fn destinations_are_nearest_three_when_player_not_hit_recently() {
    let mut s = EnemiesState::new();
    s.record_player_hit(0);
    let inside = ring_of_waypoints();
    s.choose_destinations(20_000, &Vec3::new(0, 0, 0), &inside);
    // Nearest: distance 1 (index 3), 2 (index 6), 3 (index 1).
    assert_eq!(s.destinations, [3, 6, 1]);
}

#[test]
fn destinations_skip_nearest_five_when_player_hit_recently() {
    let mut s = EnemiesState::new();
    s.record_player_hit(18_000);
    let inside = ring_of_waypoints();
    s.choose_destinations(20_000, &Vec3::new(0, 0, 0), &inside);
    // Ranked sixth to eighth: distance 6 (index 9), 7 (index 0), 8 (index 7).
    assert_eq!(s.destinations, [9, 0, 7]);
}

#[test]
fn destinations_grace_period_is_strict() {
    let mut s = EnemiesState::new();
    s.record_player_hit(10_000);
    let inside = ring_of_waypoints();
    s.choose_destinations(20_000, &Vec3::new(0, 0, 0), &inside);
    assert_eq!(s.destinations, [9, 0, 7]);
    s.choose_destinations(20_001, &Vec3::new(0, 0, 0), &inside);
    assert_eq!(s.destinations, [3, 6, 1]);
}

#[test]
fn destinations_break_ties_by_declaration_order() {
    let mut s = EnemiesState::new();
    let inside: Vec<Vec3> = (0..8).map(|i| Vec3::new(if i % 2 == 0 { 1000 } else { -1000 }, 0, 0)).collect();
    s.choose_destinations(50_000, &Vec3::new(0, 0, 0), &inside);
    assert_eq!(s.destinations, [0, 1, 2]);
    s.record_player_hit(50_000);
    s.choose_destinations(50_000, &Vec3::new(0, 0, 0), &inside);
    assert_eq!(s.destinations, [5, 6, 7]);
}

#[test]
fn spawn_refused_at_the_enemy_cap() {
    let s = EnemiesState::new();
    let outfront = vec![Vec3::new(100_000, 0, 0)];
    let live: Vec<Vec3> = (0..6).map(|i| Vec3::new(0, 0, i * 10_000)).collect();
    assert_eq!(s.pick_spawn_point(&vec![0, 0, 0], &outfront, &live), None);
}

#[test]
fn spawn_takes_first_clear_candidate() {
    let s = EnemiesState::new();
    let outfront = vec![Vec3::new(0, 0, 0), Vec3::new(3_000, 0, 0), Vec3::new(20_000, 0, 0)];
    let live = vec![Vec3::new(1_000, 0, 0)];
    assert_eq!(s.pick_spawn_point(&vec![0, 1, 2], &outfront, &live), Some(Vec3::new(20_000, 0, 0)));
    assert_eq!(s.pick_spawn_point(&vec![0, 1, 0], &outfront, &live), None);
}

#[test]
fn spawn_clearance_must_be_exceeded() {
    let live = vec![Vec3::new(0, 0, 0)];
    assert!(!is_clear(&Vec3::new(5_000, 0, 0), &live));
    assert!(is_clear(&Vec3::new(5_001, 0, 0), &live));
    assert!(is_clear(&Vec3::new(0, 0, 0), &Vec::new()));
}

#[test]
fn waypoints_start_empty() {
    let w = Waypoints::new();
    assert!(w.inside.is_empty() && w.outside.is_empty() && w.window.is_empty() && w.outfront.is_empty());
}

#[test]
fn try_spawn_draws_from_the_spawn_points() {
    let s = EnemiesState::new();
    let mut sim = game::simulation::Simulation::new(21, false);
    let outfront = vec![Vec3::new(70_000, 0, 0), Vec3::new(0, 0, 90_000)];
    for _ in 0..20 {
        let p = s.try_spawn(&mut sim.rng, &outfront, &Vec::new()).unwrap();
        assert!(outfront.contains(&p));
    }
    let live: Vec<Vec3> = (0..6).map(|i| Vec3::new(0, i * 10_000, 0)).collect();
    assert_eq!(s.try_spawn(&mut sim.rng, &Vec::new(), &live), None);
}
