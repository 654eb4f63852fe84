use shooter_core::enemy::{
    apply_enemy_traits, despawn_dead_enemies, get_random_position_around, spawn_trail,
    update_enemy_transform, update_trails, Enemy, EnemyTrait, EnemyType, Trail,
};
use shooter_core::geometry::Vec2i;
use shooter_core::timer::{Timer, TimerMode};
use shooter_core::wave::Wave;
use shooter_core::{TRAIL_LIFETIME_MS, TRAIL_RADIUS, WORLD_H, WORLD_W};

fn plain_enemy(x: i64, y: i64, health: i64, speed: i64) -> Enemy {
    Enemy { health, speed, damage: 1, traits: Vec::new(), pos: Vec2i { x, y } }
}

fn toxic_enemy(x: i64, y: i64) -> Enemy {
    Enemy {
        health: 50,
        speed: 2,
        damage: 0,
        traits: vec![EnemyTrait::LeaveTrail {
            timer: Timer::new(100, TimerMode::Repeating),
            trail_damage: 2,
        }],
        pos: Vec2i { x, y },
    }
}

#[test]
fn archetype_configs() {
    let g = EnemyType::Green.get_config();
    assert_eq!((g.health, g.speed, g.damage, g.traits.len()), (100, 1, 1, 0));
    let t = EnemyType::Toxic.get_config();
    assert_eq!((t.health, t.speed, t.damage, t.traits.len()), (50, 2, 0, 1));
    match t.traits[0] {
        EnemyTrait::LeaveTrail { timer, trail_damage } => {
            assert_eq!(timer.duration_ms, 100);
            assert_eq!(timer.elapsed_ms, 0);
            assert_eq!(timer.mode, TimerMode::Repeating);
            assert_eq!(trail_damage, 2);
        }
    }
}

#[test]
fn sprite_indexes() {
    assert_eq!(EnemyType::Green.get_base_sprite_index(), 8);
    assert_eq!(EnemyType::Toxic.get_base_sprite_index(), 12);
}

#[test]
fn roll_weighting_selects_archetype() {
    assert_eq!(EnemyType::enemy_type_for_roll(0, 1, 5), EnemyType::Green);
    for roll in 1..5 {
        assert_eq!(EnemyType::enemy_type_for_roll(roll, 1, 5), EnemyType::Toxic);
    }
    // another roster weighting
    assert_eq!(EnemyType::enemy_type_for_roll(1, 2, 4), EnemyType::Green);
    assert_eq!(EnemyType::enemy_type_for_roll(2, 2, 4), EnemyType::Toxic);
}

#[test]
fn spawn_points_stay_inside_world_bounds() {
    let mut rng = rand::thread_rng();
    for _ in 0..10_000 {
        let cx = rand::Rng::gen_range(&mut rng, -1_000_000i64..1_000_000i64);
        let cy = rand::Rng::gen_range(&mut rng, -1_000_000i64..1_000_000i64);
        let p = get_random_position_around(Vec2i { x: cx, y: cy }, WORLD_W, WORLD_H);
        assert!(p.x.abs() <= WORLD_W, "x out of bounds: {}", p.x);
        assert!(p.y.abs() <= WORLD_H, "y out of bounds: {}", p.y);
    }
}

#[test]
fn coincident_enemy_does_not_move() {
    let player = Vec2i { x: 5, y: -7 };
    let mut enemies = vec![plain_enemy(5, -7, 100, 9)];
    update_enemy_transform(player, &mut enemies);
    assert_eq!(enemies[0].pos, Vec2i { x: 5, y: -7 });
}

#[test]
fn enemies_step_toward_player() {
    let player = Vec2i { x: 0, y: 0 };
    let mut enemies = vec![plain_enemy(3, 4, 100, 5), plain_enemy(10, 0, 100, 2)];
    update_enemy_transform(player, &mut enemies);
    assert_eq!(enemies[0].pos, Vec2i { x: 0, y: 0 });
    assert_eq!(enemies[1].pos, Vec2i { x: 8, y: 0 });
    // combat state is untouched by movement
    assert_eq!(enemies[0].health, 100);
    assert_eq!(enemies[1].speed, 2);
}

#[test]
fn slow_enemy_still_makes_progress() {
    // a speed-1 enemy off both axes rounds to a one-coordinate step
    let player = Vec2i { x: 0, y: 0 };
    let mut enemies = vec![plain_enemy(3, 4, 100, 1)];
    update_enemy_transform(player, &mut enemies);
    assert_eq!(enemies[0].pos, Vec2i { x: 2, y: 3 });
    // and keeps closing in, tick after tick
    for _ in 0..10 {
        update_enemy_transform(player, &mut enemies);
    }
    assert_eq!(enemies[0].pos, Vec2i { x: 0, y: 0 });
}

#[test]
fn dead_enemy_is_swept_and_counted_once() {
    let mut wave = Wave { number: 1, enemies_total: 10, enemies_left: 3, enemies_spawned: 10 };
    let mut enemies = vec![
        plain_enemy(0, 0, 0, 1),
        plain_enemy(1, 1, 50, 1),
        plain_enemy(2, 2, -5, 1),
    ];
    despawn_dead_enemies(&mut enemies, &mut wave);
    assert_eq!(enemies.len(), 1);
    assert_eq!(enemies[0].health, 50);
    assert_eq!(enemies[0].pos, Vec2i { x: 1, y: 1 });
    assert_eq!(wave.enemies_left, 1);
}

#[test]
fn wave_counter_never_goes_negative() {
    let mut wave = Wave { number: 1, enemies_total: 10, enemies_left: 1, enemies_spawned: 10 };
    let mut enemies = vec![plain_enemy(0, 0, 0, 1), plain_enemy(1, 1, -100, 1)];
    despawn_dead_enemies(&mut enemies, &mut wave);
    assert_eq!(enemies.len(), 0);
    assert_eq!(wave.enemies_left, 0);
}

#[test]
fn trail_interval_accumulates_across_small_ticks() {
    let mut enemies = vec![toxic_enemy(7, 9)];
    let mut trails: Vec<Trail> = Vec::new();
    apply_enemy_traits(&mut enemies, &mut trails, 50);
    assert_eq!(trails.len(), 0);
    apply_enemy_traits(&mut enemies, &mut trails, 50);
    assert_eq!(trails.len(), 1);
    assert_eq!(trails[0].pos, Vec2i { x: 7, y: 9 });
    assert_eq!(trails[0].damage, 2);
    assert_eq!(trails[0].radius, TRAIL_RADIUS);
    assert_eq!(trails[0].lifetime.duration_ms, TRAIL_LIFETIME_MS);
    assert_eq!(trails[0].lifetime.elapsed_ms, 0);
    assert_eq!(trails[0].lifetime.mode, TimerMode::Once);
}

#[test]
fn coarse_tick_emits_one_trail_per_interval() {
    let mut enemies = vec![toxic_enemy(0, 0)];
    let mut trails: Vec<Trail> = Vec::new();
    // 250 ms of one coarse tick complete the 100 ms interval twice
    apply_enemy_traits(&mut enemies, &mut trails, 250);
    assert_eq!(trails.len(), 2);
    // the remaining 50 ms stay accumulated
    apply_enemy_traits(&mut enemies, &mut trails, 50);
    assert_eq!(trails.len(), 3);
}

#[test]
fn exact_interval_emits_exactly_one_trail() {
    let mut enemies = vec![toxic_enemy(0, 0)];
    let mut trails: Vec<Trail> = Vec::new();
    apply_enemy_traits(&mut enemies, &mut trails, 100);
    assert_eq!(trails.len(), 1);
}

#[test]
fn green_enemy_emits_no_trails() {
    let mut enemies = vec![plain_enemy(0, 0, 100, 1)];
    let mut trails: Vec<Trail> = Vec::new();
    apply_enemy_traits(&mut enemies, &mut trails, 1000);
    assert_eq!(trails.len(), 0);
}

#[test]
fn trail_expires_when_its_lifetime_completes() {
    let t = spawn_trail(Vec2i { x: 1, y: 2 }, 2);
    let mut trails = vec![t];
    update_trails(&mut trails, TRAIL_LIFETIME_MS - 1);
    assert_eq!(trails.len(), 1);
    assert_eq!(trails[0].lifetime.elapsed_ms, TRAIL_LIFETIME_MS - 1);
    update_trails(&mut trails, 1);
    assert_eq!(trails.len(), 0);

    let mut fresh = vec![spawn_trail(Vec2i { x: 0, y: 0 }, 2)];
    update_trails(&mut fresh, TRAIL_LIFETIME_MS);
    assert_eq!(fresh.len(), 0);
}
