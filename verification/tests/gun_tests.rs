use shooter_core::geometry::Vec2i;
use shooter_core::gun::{
    despawn_old_bullets, handle_gun_firing, update_bullets, update_gun_transform, Bullet,
    BulletStats, GunTimer, GunType, SpawnInstant,
};
use shooter_core::world::init_world;
use shooter_core::{BULLET_SPREAD, DIR_SCALE};

fn test_bullet(x: i64, y: i64, dir: Vec2i, speed: i64, lifespan_ms: u64, spawn: u64) -> Bullet {
    Bullet {
        pos: Vec2i { x, y },
        direction: dir,
        stats: BulletStats { speed, damage: 15, lifespan_ms },
        gun_type: GunType::Default,
        spawn: SpawnInstant(spawn),
    }
}

#[test]
fn session_starts_with_two_guns() {
    let (wave, gun1, gun2) = init_world();
    assert_eq!(wave.number, 0);
    assert_eq!(wave.enemies_left, 0);
    assert_eq!(gun1.gun_type, GunType::Default);
    assert_eq!(gun1.gun_timer, GunTimer(0));
    assert_eq!(gun1.gun_stats.bullets_per_shot, 10);
    assert_eq!(gun1.gun_stats.firing_interval_ms, 100);
    assert_eq!(gun1.bullet_stats.speed, 15);
    assert_eq!(gun1.bullet_stats.lifespan_ms, 500);
    assert_eq!(gun2.gun_type, GunType::Gun1);
    assert_eq!(gun2.gun_stats.bullets_per_shot, 20);
    assert_eq!(gun2.bullet_stats, BulletStats { speed: 30, damage: 100, lifespan_ms: 200 });
}

#[test]
fn gun_tracks_aim_target() {
    let player = Vec2i { x: 0, y: 0 };
    let (gpos, fwd) = update_gun_transform(player, Some(Vec2i { x: 100, y: 0 }));
    assert_eq!(fwd, Vec2i { x: DIR_SCALE, y: 0 });
    assert_eq!(gpos, Vec2i { x: 15, y: -10 });
}

#[test]
fn gun_without_cursor_aims_left() {
    let player = Vec2i { x: 0, y: 0 };
    let (gpos, fwd) = update_gun_transform(player, None);
    assert_eq!(fwd, Vec2i { x: -DIR_SCALE, y: 0 });
    assert_eq!(gpos, Vec2i { x: -25, y: -10 });
    // an aim target exactly on the player behaves the same
    let (gpos2, fwd2) = update_gun_transform(player, Some(player));
    assert_eq!((gpos2, fwd2), (gpos, fwd));
}

#[test]
fn cadence_gates_firing() {
    let (_, gun, _) = init_world();
    let mut timer = gun.gun_timer;
    let mut bullets: Vec<Bullet> = Vec::new();
    let gun_pos = Vec2i { x: 0, y: 0 };
    let fwd = Vec2i { x: DIR_SCALE, y: 0 };

    let fired = handle_gun_firing(
        gun_pos, fwd, &mut timer, &gun.gun_type, &gun.bullet_stats, &gun.gun_stats,
        &mut bullets, 1000, 50,
    );
    assert_eq!(fired, 0);
    assert_eq!(timer, GunTimer(50));
    assert_eq!(bullets.len(), 0);

    let fired = handle_gun_firing(
        gun_pos, fwd, &mut timer, &gun.gun_type, &gun.bullet_stats, &gun.gun_stats,
        &mut bullets, 1050, 50,
    );
    assert_eq!(fired, 10);
    assert_eq!(timer, GunTimer(0));
    assert_eq!(bullets.len(), 10);
    for b in &bullets {
        assert_eq!(b.pos, gun_pos);
        assert_eq!(b.stats, gun.bullet_stats);
        assert_eq!(b.gun_type, GunType::Default);
        assert_eq!(b.spawn, SpawnInstant(1050));
        assert!((b.direction.x - fwd.x).abs() <= BULLET_SPREAD);
        assert!((b.direction.y - fwd.y).abs() <= BULLET_SPREAD);
    }
}

#[test]
fn only_the_default_gun_kind_has_a_velocity_model() {
    // the extension kinds are fatal-by-design: a driver must check this
    // and abort before firing or moving their bullets
    assert!(GunType::Default.has_velocity_model());
    assert!(!GunType::Gun1.has_velocity_model());
    assert!(!GunType::Gun2.has_velocity_model());
    let (_, _, gun2) = init_world();
    assert!(!gun2.gun_type.has_velocity_model());
}

#[test]
fn bullets_travel_along_their_direction() {
    let mut bullets = vec![
        test_bullet(0, 0, Vec2i { x: DIR_SCALE, y: 0 }, 15, 500, 0),
        test_bullet(5, 5, Vec2i { x: 0, y: -DIR_SCALE }, 30, 500, 0),
    ];
    update_bullets(&mut bullets);
    assert_eq!(bullets[0].pos, Vec2i { x: 15, y: 0 });
    assert_eq!(bullets[1].pos, Vec2i { x: 5, y: -25 });
    update_bullets(&mut bullets);
    assert_eq!(bullets[0].pos, Vec2i { x: 30, y: 0 });
}

#[test]
fn bullet_lives_until_its_lifespan_elapses() {
    // spawned at 1000 ms with a 200 ms lifespan
    let mut bullets = vec![test_bullet(0, 0, Vec2i { x: DIR_SCALE, y: 0 }, 15, 200, 1000)];
    despawn_old_bullets(&mut bullets, 1190);
    assert_eq!(bullets.len(), 1);
    despawn_old_bullets(&mut bullets, 1199);
    assert_eq!(bullets.len(), 1);
    despawn_old_bullets(&mut bullets, 1200);
    assert_eq!(bullets.len(), 0);

    let mut late = vec![test_bullet(0, 0, Vec2i { x: DIR_SCALE, y: 0 }, 15, 200, 1000)];
    despawn_old_bullets(&mut late, 1300);
    assert_eq!(late.len(), 0);
}
