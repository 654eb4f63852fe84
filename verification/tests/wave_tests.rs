use shooter_core::geometry::Vec2i;
use shooter_core::wave::{calculate_enemies_per_wave, Wave};
use shooter_core::enemy::spawn_enemies;
use shooter_core::{WORLD_H, WORLD_W};

#[test]
fn enemies_per_wave_doubles_from_ten() {
    assert_eq!(calculate_enemies_per_wave(0), 10);
    assert_eq!(calculate_enemies_per_wave(1), 20);
    assert_eq!(calculate_enemies_per_wave(2), 40);
    assert_eq!(calculate_enemies_per_wave(5), 320);
}

#[test]
fn enemies_per_wave_strictly_increases_below_cap() {
    for n in 0..28 {
        assert!(calculate_enemies_per_wave(n) < calculate_enemies_per_wave(n + 1));
    }
}

#[test]
fn enemies_per_wave_caps_instead_of_overflowing() {
    assert_eq!(calculate_enemies_per_wave(28), 2_684_354_560);
    assert_eq!(calculate_enemies_per_wave(29), 2_684_354_560);
    assert_eq!(calculate_enemies_per_wave(1000), 2_684_354_560);
}

#[test]
fn replenish_schedules_next_wave_only_when_empty() {
    let mut w = Wave::default();
    w.replenish();
    assert_eq!(w.number, 1);
    assert_eq!(w.enemies_total, 10);
    assert_eq!(w.enemies_left, 10);
    assert_eq!(w.enemies_spawned, 0);
    // a wave with enemies left alive is not replenished
    let snapshot = w;
    w.replenish();
    assert_eq!(w, snapshot);
}

#[test]
fn two_tick_admission_fills_first_wave() {
    let mut w = Wave::default();
    let mut enemies = Vec::new();
    let player = Some(Vec2i { x: 0, y: 0 });

    spawn_enemies(&mut w, player, &mut enemies);
    assert_eq!(w.number, 1);
    assert_eq!(w.enemies_total, 10);
    assert_eq!(w.enemies_spawned, 5);
    assert_eq!(enemies.len(), 5);

    spawn_enemies(&mut w, player, &mut enemies);
    assert_eq!(w.enemies_spawned, 10);
    assert_eq!(enemies.len(), 10);

    // the wave is fully admitted: nothing more is spawned
    spawn_enemies(&mut w, player, &mut enemies);
    assert_eq!(w.enemies_spawned, 10);
    assert_eq!(enemies.len(), 10);

    for e in &enemies {
        assert!(e.pos.x.abs() <= WORLD_W && e.pos.y.abs() <= WORLD_H);
        assert!(
            (e.health == 100 && e.speed == 1 && e.damage == 1)
                || (e.health == 50 && e.speed == 2 && e.damage == 0)
        );
    }
}

#[test]
fn spawning_without_player_is_skipped() {
    let mut w = Wave::default();
    let mut enemies = Vec::new();
    spawn_enemies(&mut w, None, &mut enemies);
    // the replenish check still ran, but nothing was admitted
    assert_eq!(w.number, 1);
    assert_eq!(w.enemies_total, 10);
    assert_eq!(w.enemies_spawned, 0);
    assert_eq!(enemies.len(), 0);
}
