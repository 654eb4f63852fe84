use shooter_core::timer::{Timer, TimerMode};

#[test]
fn repeating_timer_completes_per_interval() {
    let mut t = Timer::new(100, TimerMode::Repeating);
    assert_eq!(t.tick(50), 0);
    assert_eq!(t.elapsed_ms, 50);
    assert_eq!(t.tick(50), 1);
    assert_eq!(t.elapsed_ms, 0);
    // a coarse tick completes the interval several times and keeps the rest
    assert_eq!(t.tick(250), 2);
    assert_eq!(t.elapsed_ms, 50);
}

#[test]
fn one_shot_timer_completes_once_and_clamps() {
    let mut t = Timer::new(200, TimerMode::Once);
    assert_eq!(t.tick(190), 0);
    assert!(!t.finished());
    assert_eq!(t.tick(10), 1);
    assert!(t.finished());
    assert_eq!(t.elapsed_ms, 200);
    // once finished it neither completes again nor accumulates further
    assert_eq!(t.tick(500), 0);
    assert_eq!(t.elapsed_ms, 200);
}
