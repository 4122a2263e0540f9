use game::combat::{beam_damage, projectile_damage, resolve_bullet_hit, Bullet, BulletHit, Player, Struck};
use game::enemy::{BeamHit, BeamShot, Enemy, EnemyKind, FireAction, Life};
use game::explosion::Explosion;
use game::geometry::{isqrt, Vec3};
use game::movement::steer_velocity;

#[test]
fn beam_damage_scales_with_multiplier_and_time() {
    // 40 damage per second, multiplier 1.2, half a second.
    assert_eq!(beam_damage(0, 40, 120, 500), (24, 0));
    assert_eq!(beam_damage(0, 40, 100, 1000), (40, 0));
    // A short tick deals nothing yet but carries the fraction on.
    assert_eq!(beam_damage(0, 15, 158, 16), (0, 37_920));
    assert_eq!(beam_damage(99_999, 0, 100, 16), (0, 99_999));
    assert_eq!(beam_damage(70_000, 15, 100, 20), (1, 0));
    assert_eq!(beam_damage(0, u32::MAX, u32::MAX, u64::MAX).0, i32::MAX as u32);
}

#[test]
fn laserie_beam_on_player_deals_scaled_damage() {
    let mut e = Enemy::new(EnemyKind::Laserie);
    e.weapon_damage = 40;
    assert_eq!(e.beam_shot(500, 120, BeamHit::Player), BeamShot { damage: 24, length: 100_000 });
    assert_eq!(e.beam_carry, 0);
    assert_eq!(e.beam_shot(500, 120, BeamHit::Obstruction { distance: 12_345 }), BeamShot { damage: 0, length: 12_345 });
    assert_eq!(e.beam_shot(500, 120, BeamHit::Nothing), BeamShot { damage: 0, length: 100_000 });
}

#[test]
fn beam_damage_is_not_lost_at_frame_rate() {
    // 15 damage per second at multiplier 1.58 over 125 ticks of 16 ms (2 s):
    // 15 * 1.58 * 2 = 47.4, so 47 points.
    let mut e = Enemy::new(EnemyKind::Laserie);
    let mut dealt = 0u32;
    for _ in 0..125 {
        dealt += e.beam_shot(16, 158, BeamHit::Player).damage;
    }
    assert_eq!(dealt, 47);
    assert_eq!(e.beam_carry, 40_000);
    // An obstructed tick neither deals damage nor drops the carry.
    assert_eq!(e.beam_shot(16, 158, BeamHit::Nothing).damage, 0);
    assert_eq!(e.beam_carry, 40_000);
}

#[test]
fn projectile_damage_rounds_down() {
    assert_eq!(projectile_damage(40, 120), 48);
    assert_eq!(projectile_damage(40, 152), 60);
    assert_eq!(projectile_damage(15, 110), 16);
}

#[test]
fn splash_deals_half_damage_near_the_player() {
    let b = Bullet { damage: 100, splash_radius: 8_000 };
    let player = Vec3::new(0, 0, 0);
    let hit = resolve_bullet_hit(&b, &Vec3::new(5_000, 0, 0), Struck::Other, Some(player));
    assert_eq!(hit, BulletHit::Splash { damage: 50 });
    assert_eq!(hit.damage(), 50);
    assert!(hit.hits_player());
}

#[test]
fn splash_radius_is_strict() {
    let b = Bullet { damage: 100, splash_radius: 8_000 };
    let player = Vec3::new(0, 0, 0);
    assert_eq!(resolve_bullet_hit(&b, &Vec3::new(8_000, 0, 0), Struck::Other, Some(player)), BulletHit::Miss);
    assert_eq!(resolve_bullet_hit(&b, &Vec3::new(0, 7_999, 0), Struck::Other, Some(player)), BulletHit::Splash { damage: 50 });
    assert_eq!(resolve_bullet_hit(&b, &Vec3::new(0, 0, 0), Struck::Other, None), BulletHit::Miss);
}

#[test]
fn direct_hit_deals_full_damage() {
    let b = Bullet { damage: 100, splash_radius: 8_000 };
    let hit = resolve_bullet_hit(&b, &Vec3::new(0, 0, 0), Struck::Player, Some(Vec3::new(0, 0, 0)));
    assert_eq!(hit, BulletHit::Direct { damage: 100 });
    assert_eq!(hit.damage(), 100);
    assert!(!BulletHit::Miss.hits_player());
}

#[test]
fn player_health_falls_and_holds_at_minimum() {
    let mut p = Player::new();
    assert!(p.is_alive());
    p.take_damage(1000);
    assert_eq!(p.health, 0);
    assert!(!p.is_alive());
    p.health = i32::MIN + 5;
    p.take_damage(100);
    assert_eq!(p.health, i32::MIN);
    p.restore();
    assert_eq!(p.health, 1000);
}

#[test]
fn enemy_kinds_have_their_stats() {
    let o = Enemy::new(EnemyKind::Orbie);
    assert_eq!((o.health, o.move_speed, o.weapon_damage, o.weapon_splash_radius, o.turn_rate), (1000, 30_000, 40, 8_000, 90));
    let l = Enemy::new(EnemyKind::Laserie);
    assert_eq!((l.health, l.move_speed, l.weapon_damage, l.weapon_splash_radius, l.turn_rate), (500, 38_000, 15, 0, 30));
    assert!(o.is_alive() && l.is_alive());
}

#[test]
fn death_happens_once_and_is_final() {
    let mut e = Enemy::new(EnemyKind::Orbie);
    e.take_damage(999);
    assert!(!e.check_death(1_000, 12_000));
    e.take_damage(1);
    assert!(e.check_death(1_000, 12_000));
    assert_eq!(e.life, Life::Dead { time_to_despawn: 13_000 });
    assert!(!e.check_death(2_000, 12_000));
    e.take_damage(5_000);
    assert!(!e.check_death(3_000, 12_000));
    assert_eq!(e.life, Life::Dead { time_to_despawn: 13_000 });
    assert!(!e.despawn_due(12_999));
    assert!(e.despawn_due(13_000));
}

#[test]
fn dead_enemy_neither_targets_nor_fires() {
    let mut e = Enemy::new(EnemyKind::Orbie);
    e.take_damage(2_000);
    assert!(e.check_death(0, 2_000));
    let facing = e.update_targeting(&Vec3::new(0, 0, 0), &Vec3::new(1_000, 0, 0), true);
    assert_eq!(facing, game::enemy::Facing::Hold);
    assert!(!e.within_range_of_player);
    assert_eq!(e.fire(900, true, 100), FireAction::Hold);
    assert!(!e.is_alive());
}

#[test]
fn targeting_uses_range_and_player_life() {
    let mut e = Enemy::new(EnemyKind::Orbie);
    let own = Vec3::new(0, 0, 0);
    assert_eq!(e.update_targeting(&own, &Vec3::new(100_000, 0, 0), true), game::enemy::Facing::Player);
    assert!(e.within_range_of_player);
    assert_eq!(e.update_targeting(&own, &Vec3::new(100_001, 0, 0), true), game::enemy::Facing::Destination);
    assert!(!e.within_range_of_player);
    assert_eq!(e.update_targeting(&own, &Vec3::new(10, 0, 0), false), game::enemy::Facing::Destination);
}

#[test]
fn orbie_fires_when_weapon_ready_and_player_in_range() {
    let mut e = Enemy::new(EnemyKind::Orbie);
    e.within_range_of_player = true;
    assert_eq!(e.fire(800, true, 120), FireAction::Hold);
    assert_eq!(e.fire(100, true, 120), FireAction::Projectile(Bullet { damage: 48, splash_radius: 8_000 }));
    assert_eq!(e.fire(900, false, 120), FireAction::Hold);
    assert_eq!(e.fire_timer.elapsed(), 0);
}

#[test]
fn laserie_beams_every_tick_in_range() {
    let mut e = Enemy::new(EnemyKind::Laserie);
    e.within_range_of_player = true;
    assert_eq!(e.fire(16, true, 100), FireAction::Beam);
    e.within_range_of_player = false;
    assert_eq!(e.fire(16, true, 100), FireAction::Hold);
}

#[test]
fn retarget_picks_destination_and_offset() {
    let mut e = Enemy::new(EnemyKind::Orbie);
    e.retarget(&[4, 8, 9], 2, Vec3::new(1, -2, 3));
    assert_eq!(e.current_destination, 9);
    assert_eq!(e.current_random_offset, Vec3::new(1, -2, 3));
}

#[test]
fn explosion_grows_fades_and_ends() {
    let mut x = Explosion::new();
    assert!(!x.advance(100));
    assert_eq!(x.progress, 300);
    assert_eq!(x.alpha(), 700);
    assert_eq!(x.growth(), 1009);
    assert!(!x.advance(233));
    assert_eq!(x.progress, 999);
    assert!(x.advance(1));
    assert_eq!(x.progress, 1000);
}

#[test]
fn integer_square_roots() {
    assert_eq!(isqrt(0), 0);
    assert_eq!(isqrt(1), 1);
    assert_eq!(isqrt(24), 4);
    assert_eq!(isqrt(25), 5);
    assert_eq!(isqrt(u64::MAX), 4_294_967_295);
}

#[test]
fn steering_blends_toward_target_speed() {
    let zero = Vec3::new(0, 0, 0);
    assert_eq!(steer_velocity(&zero, &Vec3::new(10_000, 0, 0), &zero, 30_000), Vec3::new(1_200, 0, 0));
    assert_eq!(steer_velocity(&zero, &Vec3::new(0, -200_000, 0), &zero, 30_000), Vec3::new(0, -3_600, 0));
    assert_eq!(steer_velocity(&zero, &Vec3::new(0, 0, 2_500), &zero, 30_000), Vec3::new(0, 0, 600));
    assert_eq!(steer_velocity(&zero, &Vec3::new(0, 0, 1_500), &Vec3::new(100, 0, 0), 30_000), Vec3::new(96, 0, 0));
}

#[test]
fn steering_at_the_target_is_zero() {
    let p = Vec3::new(5, 6, 7);
    assert_eq!(steer_velocity(&p, &p, &Vec3::new(1_000, 1_000, 1_000), 30_000), Vec3::new(0, 0, 0));
}
