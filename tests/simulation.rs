use game::combat::BulletHit;
use game::enemy::{BeamHit, EnemyKind, Facing, FireAction, Life};
use game::geometry::Vec3;
use game::simulation::{Body, EnemyRecord, Simulation};
use game::enemy::Enemy;

fn outfront() -> Vec<Vec3> {
    vec![Vec3::new(0, 0, 50_000), Vec3::new(30_000, 0, 50_000), Vec3::new(-30_000, 0, 50_000)]
}

fn live_count(sim: &Simulation) -> usize {
    sim.enemies.iter().filter(|r| r.enemy.is_alive()).count()
}

#[test]
fn spawning_waits_for_the_first_shot() {
    let mut sim = Simulation::new(7, false);
    assert_eq!(sim.spawn_enemies_on_timer(1_000, &outfront()), None);
    assert!(sim.enemies.is_empty());
    sim.player_fired();
    let id = sim.spawn_enemies_on_timer(1_000, &outfront());
    assert_eq!(id, Some(0));
    assert_eq!(sim.enemies.len(), 1);
    assert!(outfront().contains(&sim.enemies[0].position));
    assert_eq!(sim.enemies[0].enemy.kind, EnemyKind::Orbie);
}

#[test]
fn spawning_never_exceeds_the_level_cap() {
    let mut sim = Simulation::new(11, false);
    sim.player_fired();
    let points: Vec<Vec3> = (0..40).map(|i| Vec3::new(i * 10_000, 0, 0)).collect();
    for _ in 0..200 {
        sim.spawn_enemies_on_timer(1_000, &points);
        assert!(live_count(&sim) <= sim.state.get_level_params().max_enemies as usize);
    }
    assert_eq!(live_count(&sim), 6);
}

#[test]
fn spawned_enemies_keep_their_distance() {
    let mut sim = Simulation::new(3, false);
    sim.player_fired();
    let points = vec![Vec3::new(0, 0, 0), Vec3::new(4_000, 0, 0), Vec3::new(12_000, 0, 0)];
    for _ in 0..100 {
        let before: Vec<Vec3> = sim.enemies.iter().filter(|r| r.enemy.is_alive()).map(|r| r.position).collect();
        if let Some(id) = sim.spawn_enemies_on_timer(1_000, &points) {
            let p = sim.enemies.iter().find(|r| r.id == id).unwrap().position;
            for q in &before {
                assert!(p.dist_sq(q) > 25_000_000);
            }
        }
    }
    assert!(sim.enemies.len() <= 2);
}

fn sim_with_enemy(kind: EnemyKind, at: Vec3) -> Simulation {
    let mut sim = Simulation::new(5, false);
    sim.enemies.push(EnemyRecord { id: 0, position: at, velocity: Vec3::new(0, 0, 0), enemy: Enemy::new(kind) });
    sim.next_id = 1;
    sim
}

#[test]
fn orbie_launches_a_projectile_at_the_player() {
    let mut sim = sim_with_enemy(EnemyKind::Orbie, Vec3::new(0, 0, 20_000));
    assert_eq!(sim.enemies_look_at(), vec![Facing::Player]);
    let shots = sim.enemies_fire_at_player(900);
    assert_eq!(shots.len(), 1);
    assert_eq!(shots[0].bullet, Some(1));
    assert!(matches!(shots[0].action, FireAction::Projectile(_)));
    assert_eq!(sim.bullets.len(), 1);
    assert_eq!(sim.bullets[0].bullet.damage, 40);
    assert_eq!(sim.bullets[0].position, Vec3::new(0, 0, 20_000));
}

#[test]
fn projectile_resolves_exactly_once() {
    let mut sim = sim_with_enemy(EnemyKind::Orbie, Vec3::new(0, 0, 20_000));
    sim.enemies[0].enemy.weapon_damage = 100;
    sim.enemies_look_at();
    sim.enemies_fire_at_player(900);
    let id = sim.bullets[0].id;
    assert!(sim.set_bullet_position(id, Vec3::new(0, 0, 6_000)));
    sim.advance_clock(4_000);
    let first = sim.handle_bullet_collision(Body::World, Body::Bullet(id));
    assert_eq!(first, Some(BulletHit::Splash { damage: 50 }));
    assert_eq!(sim.player.health, 950);
    assert_eq!(sim.state.last_time_player_took_damage, 4_000);
    assert!(sim.bullets.is_empty());
    let second = sim.handle_bullet_collision(Body::Bullet(id), Body::Player);
    assert_eq!(second, None);
    assert_eq!(sim.player.health, 950);
}

#[test]
fn collision_without_projectile_is_ignored() {
    let mut sim = sim_with_enemy(EnemyKind::Orbie, Vec3::new(0, 0, 20_000));
    assert_eq!(sim.handle_bullet_collision(Body::Enemy(0), Body::World), None);
    assert_eq!(sim.player.health, 1000);
}

#[test]
fn direct_projectile_hit_on_player() {
    let mut sim = sim_with_enemy(EnemyKind::Orbie, Vec3::new(0, 0, 20_000));
    sim.enemies_look_at();
    sim.enemies_fire_at_player(900);
    let id = sim.bullets[0].id;
    assert_eq!(sim.handle_bullet_collision(Body::Player, Body::Bullet(id)), Some(BulletHit::Direct { damage: 40 }));
    assert_eq!(sim.player.health, 960);
}

#[test]
fn laserie_beam_damages_the_player() {
    let mut sim = sim_with_enemy(EnemyKind::Laserie, Vec3::new(0, 0, 20_000));
    sim.enemies_look_at();
    let shots = sim.enemies_fire_at_player(500);
    assert_eq!(shots[0].action, FireAction::Beam);
    let shot = sim.apply_beam(0, 500, BeamHit::Player).unwrap();
    assert_eq!(shot.damage, 7);
    assert_eq!(sim.player.health, 993);
    let blocked = sim.apply_beam(0, 500, BeamHit::Obstruction { distance: 3_000 }).unwrap();
    assert_eq!(blocked.damage, 0);
    assert_eq!(blocked.length, 3_000);
    assert_eq!(sim.player.health, 993);
    assert_eq!(sim.enemies[0].enemy.beam_carry, 50_000);
    assert_eq!(sim.apply_beam(0, 500, BeamHit::Player).unwrap().damage, 8);
    assert_eq!(sim.player.health, 985);
    assert_eq!(sim.apply_beam(42, 500, BeamHit::Player), None);
}

#[test]
fn killing_an_enemy_counts_once_and_cleans_up() {
    let mut sim = sim_with_enemy(EnemyKind::Orbie, Vec3::new(0, 0, 20_000));
    sim.advance_clock(1_000);
    assert!(sim.damage_enemy(0, 1_001));
    let deaths = sim.kill_enemy();
    assert_eq!(deaths.len(), 1);
    assert_eq!(deaths[0].id, 0);
    assert!(deaths[0].torque.x.abs() <= 2_000 && deaths[0].torque.y.abs() <= 2_000 && deaths[0].torque.z.abs() <= 2_000);
    assert_eq!(deaths[0].impulse, Vec3::new(0, -1_500, 0));
    assert_eq!(sim.state.enemies_killed, 1);
    assert_eq!(sim.explosions.len(), 1);
    assert_eq!(sim.enemies[0].enemy.life, Life::Dead { time_to_despawn: 13_000 });
    assert!(sim.damage_enemy(0, 10));
    assert!(sim.kill_enemy().is_empty());
    assert_eq!(sim.state.enemies_killed, 1);
    sim.advance_clock(11_999);
    assert!(sim.clean_up_dead().is_empty());
    sim.advance_clock(1);
    assert_eq!(sim.clean_up_dead(), vec![0]);
    assert!(sim.enemies.is_empty());
}

#[test]
fn reduced_effects_shorten_the_linger() {
    let mut sim = Simulation::new(1, true);
    sim.enemies.push(EnemyRecord { id: 0, position: Vec3::new(0, 0, 0), velocity: Vec3::new(0, 0, 0), enemy: Enemy::new(EnemyKind::Laserie) });
    sim.next_id = 1;
    sim.damage_enemy(0, 500);
    sim.kill_enemy();
    assert_eq!(sim.enemies[0].enemy.life, Life::Dead { time_to_despawn: 2_000 });
}

#[test]
fn explosions_run_out() {
    let mut sim = sim_with_enemy(EnemyKind::Orbie, Vec3::new(0, 0, 0));
    sim.damage_enemy(0, 1_000);
    sim.kill_enemy();
    sim.progress_explosions(200);
    assert_eq!(sim.explosions.len(), 1);
    assert_eq!(sim.explosions[0].explosion.progress, 600);
    sim.progress_explosions(200);
    assert!(sim.explosions.is_empty());
}

#[test]
fn destinations_follow_the_player() {
    let mut sim = Simulation::new(9, false);
    let inside: Vec<Vec3> = (0..10).map(|i| Vec3::new((10 - i) * 1_000, 0, 0)).collect();
    sim.advance_clock(30_000);
    sim.update_destinations(1_000, &inside);
    assert_eq!(sim.state.destinations, [0, 1, 2]);
    sim.update_destinations(1_000, &inside);
    assert_eq!(sim.state.destinations, [9, 8, 7]);
    sim.player_takes_damage();
    sim.update_destinations(2_000, &inside);
    assert_eq!(sim.state.destinations, [4, 3, 2]);
}

#[test]
fn enemies_head_for_a_destination_with_jitter() {
    let mut sim = sim_with_enemy(EnemyKind::Orbie, Vec3::new(0, 0, 0));
    sim.state.destinations = [4, 5, 6];
    sim.enemies_update_current_destination(1_000);
    assert_eq!(sim.enemies[0].enemy.current_destination, 0);
    let mut seen = Vec::new();
    let mut offsets = Vec::new();
    for _ in 0..50 {
        sim.enemies_update_current_destination(2_000);
        let e = &sim.enemies[0].enemy;
        assert!([4, 5, 6].contains(&e.current_destination));
        let o = e.current_random_offset;
        assert!(o.x.abs() <= 5_000 && o.z.abs() <= 5_000 && o.y <= 0 && o.y >= -20_000);
        if !seen.contains(&e.current_destination) {
            seen.push(e.current_destination);
        }
        if !offsets.contains(&o) {
            offsets.push(o);
        }
    }
    assert_eq!(seen.len(), 3);
    assert!(offsets.len() > 40);
}

#[test]
fn enemies_steer_toward_their_destination() {
    let mut sim = sim_with_enemy(EnemyKind::Orbie, Vec3::new(0, 0, 0));
    let inside = vec![Vec3::new(10_000, 0, 0)];
    sim.enemies_move_to_destination(&inside);
    assert_eq!(sim.enemies[0].velocity, Vec3::new(1_200, 0, 0));
    sim.enemies[0].enemy.current_destination = 3;
    sim.enemies_move_to_destination(&inside);
    assert_eq!(sim.enemies[0].velocity, Vec3::new(1_200, 0, 0));
}

#[test]
fn restart_clears_the_session() {
    let mut sim = sim_with_enemy(EnemyKind::Orbie, Vec3::new(0, 0, 0));
    sim.player_fired();
    sim.player.take_damage(300);
    sim.state.current_level = 4;
    sim.restart();
    assert!(sim.enemies.is_empty());
    assert_eq!(sim.player.health, 1000);
    assert_eq!(sim.state.current_level, 0);
    assert!(sim.spawn_timer.paused());
    assert!(sim.set_enemy_motion(0, Vec3::new(0, 0, 0), Vec3::new(0, 0, 0)) == false);
}

#[test]
fn moving_an_enemy_updates_its_record() {
    let mut sim = sim_with_enemy(EnemyKind::Orbie, Vec3::new(0, 0, 0));
    assert!(sim.set_enemy_motion(0, Vec3::new(1, 2, 3), Vec3::new(4, 5, 6)));
    assert_eq!(sim.enemies[0].position, Vec3::new(1, 2, 3));
    assert_eq!(sim.enemies[0].velocity, Vec3::new(4, 5, 6));
    sim.set_player_position(Vec3::new(500_000, 0, 0));
    assert_eq!(sim.enemies_look_at(), vec![Facing::Destination]);
}

#[test]
fn no_spawn_points_needed_at_the_cap() {
    let mut sim = Simulation::new(2, false);
    for i in 0..6u64 {
        sim.enemies.push(EnemyRecord { id: i, position: Vec3::new(i as i64 * 10_000, 0, 0), velocity: Vec3::new(0, 0, 0), enemy: Enemy::new(EnemyKind::Orbie) });
    }
    sim.next_id = 6;
    sim.player_fired();
    assert_eq!(sim.spawn_enemies_on_timer(1_000, &Vec::new()), None);
    assert_eq!(sim.enemies.len(), 6);
}

#[test]
fn spawning_past_the_table_uses_the_last_cap() {
    let far = vec![Vec3::new(0, 0, 900_000)];
    for (live, expect_spawn) in [(13u64, true), (14u64, false)] {
        let mut sim = Simulation::new(8, false);
        sim.state.current_level = 1000;
        for i in 0..live {
            sim.enemies.push(EnemyRecord { id: i, position: Vec3::new(i as i64 * 10_000, 0, 0), velocity: Vec3::new(0, 0, 0), enemy: Enemy::new(EnemyKind::Orbie) });
        }
        sim.next_id = live;
        sim.player_fired();
        assert_eq!(sim.spawn_enemies_on_timer(1_000, &far).is_some(), expect_spawn);
    }
}

#[test]
fn clean_up_returns_removed_ids_in_order() {
    let mut sim = Simulation::new(12, false);
    for i in 0..4u64 {
        sim.enemies.push(EnemyRecord { id: i, position: Vec3::new(i as i64 * 10_000, 0, 0), velocity: Vec3::new(0, 0, 0), enemy: Enemy::new(EnemyKind::Laserie) });
    }
    sim.next_id = 4;
    sim.damage_enemy(3, 500);
    sim.damage_enemy(1, 500);
    sim.kill_enemy();
    sim.advance_clock(12_000);
    assert_eq!(sim.clean_up_dead(), vec![1, 3]);
    assert_eq!(sim.enemies.iter().map(|r| r.id).collect::<Vec<_>>(), vec![0, 2]);
}

#[test]
fn repeated_collision_reports_resolve_once() {
    let mut sim = sim_with_enemy(EnemyKind::Orbie, Vec3::new(0, 0, 20_000));
    sim.enemies_look_at();
    sim.enemies_fire_at_player(900);
    let id = sim.bullets[0].id;
    let events = vec![
        (Body::Bullet(id), Body::Player),
        (Body::Player, Body::Bullet(id)),
        (Body::World, Body::Enemy(0)),
    ];
    let hits = sim.handle_bullet_collisions(&events);
    assert_eq!(hits, vec![Some(BulletHit::Direct { damage: 40 }), None, None]);
    assert_eq!(sim.player.health, 960);
}

#[test]
fn deaths_report_their_enemy_and_level_up() {
    let mut sim = Simulation::new(4, false);
    for (i, x) in [0i64, 10_000, 20_000].iter().enumerate() {
        sim.enemies.push(EnemyRecord { id: i as u64, position: Vec3::new(*x, 0, 0), velocity: Vec3::new(0, 0, 0), enemy: Enemy::new(EnemyKind::Orbie) });
    }
    sim.next_id = 3;
    sim.state.enemies_killed = 18;
    sim.damage_enemy(0, 1_000);
    sim.damage_enemy(2, 1_000);
    let deaths = sim.kill_enemy();
    assert_eq!(deaths.len(), 2);
    assert_eq!((deaths[0].id, deaths[0].position, deaths[0].leveled_up), (0, Vec3::new(0, 0, 0), false));
    assert_eq!((deaths[1].id, deaths[1].position, deaths[1].leveled_up), (2, Vec3::new(20_000, 0, 0), true));
    assert_eq!(sim.state.current_level, 1);
    assert_eq!(sim.explosions.len(), 2);
    assert_eq!(sim.explosions[1].position, Vec3::new(20_000, 0, 0));
    assert_eq!(sim.explosions[1].explosion.progress, 0);
    assert_eq!(sim.explosions[1].explosion.speed, 3_000);
}

#[test]
fn each_firing_orbie_launches_one_projectile_in_order() {
    let mut sim = Simulation::new(6, false);
    for i in 0..3u64 {
        sim.enemies.push(EnemyRecord { id: i, position: Vec3::new(0, 0, (i as i64 + 1) * 10_000), velocity: Vec3::new(0, 0, 0), enemy: Enemy::new(if i == 1 { EnemyKind::Laserie } else { EnemyKind::Orbie }) });
    }
    sim.next_id = 3;
    sim.enemies_look_at();
    let shots = sim.enemies_fire_at_player(900);
    assert_eq!(shots.iter().map(|s| s.bullet).collect::<Vec<_>>(), vec![Some(3), None, Some(4)]);
    assert_eq!(shots[1].action, FireAction::Beam);
    assert_eq!(sim.bullets.len(), 2);
    assert_eq!(sim.bullets[1].position, Vec3::new(0, 0, 30_000));
    assert_eq!(sim.next_id, 5);
}

#[test]
fn unknown_ids_are_reported_missing() {
    let mut sim = sim_with_enemy(EnemyKind::Orbie, Vec3::new(0, 0, 0));
    assert!(!sim.damage_enemy(9, 10));
    assert!(!sim.set_bullet_position(9, Vec3::new(0, 0, 0)));
    assert_eq!(sim.enemies[0].enemy.health, 1000);
}
