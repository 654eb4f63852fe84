use shooter_core::geometry::{clamp_i64, cos_approx, isqrt, sin_approx, step_toward, Vec2i};

#[test]
fn isqrt_small_values() {
    assert_eq!(isqrt(0), 0);
    assert_eq!(isqrt(1), 1);
    assert_eq!(isqrt(2), 1);
    assert_eq!(isqrt(3), 1);
    assert_eq!(isqrt(4), 2);
    assert_eq!(isqrt(24), 4);
    assert_eq!(isqrt(25), 5);
    assert_eq!(isqrt(26), 5);
}

#[test]
fn isqrt_large_values() {
    assert_eq!(isqrt(10_000), 100);
    assert_eq!(isqrt(u64::MAX), 4_294_967_295);
    assert_eq!(isqrt(4_294_967_295 * 4_294_967_295), 4_294_967_295);
}

#[test]
fn clamp_holds_interval() {
    assert_eq!(clamp_i64(5, -3, 3), 3);
    assert_eq!(clamp_i64(-5, -3, 3), -3);
    assert_eq!(clamp_i64(2, -3, 3), 2);
    assert_eq!(clamp_i64(-3, -3, 3), -3);
}

#[test]
fn cos_and_sin_cardinal_points() {
    assert_eq!(cos_approx(0), 1024);
    assert_eq!(cos_approx(1024), 0);
    assert_eq!(cos_approx(2048), -1024);
    assert_eq!(cos_approx(3072), 0);
    assert_eq!(sin_approx(0), 0);
    assert_eq!(sin_approx(1024), 1024);
    assert_eq!(sin_approx(2048), 0);
    assert_eq!(sin_approx(3072), -1024);
}

#[test]
fn step_toward_exact_pythagorean() {
    let s = step_toward(Vec2i { x: 0, y: 0 }, Vec2i { x: 3, y: 4 }, 5);
    assert_eq!(s, Vec2i { x: 3, y: 4 });
    let back = step_toward(Vec2i { x: 3, y: 4 }, Vec2i { x: 0, y: 0 }, 5);
    assert_eq!(back, Vec2i { x: -3, y: -4 });
}

#[test]
fn step_toward_coincident_is_zero() {
    let s = step_toward(Vec2i { x: 7, y: -9 }, Vec2i { x: 7, y: -9 }, 12);
    assert_eq!(s, Vec2i { x: 0, y: 0 });
}

#[test]
fn slow_step_rounds_to_progress() {
    let s = step_toward(Vec2i { x: 0, y: 0 }, Vec2i { x: 3, y: 4 }, 1);
    assert_eq!(s, Vec2i { x: 1, y: 1 });
}

#[test]
fn step_toward_axis_aligned() {
    let s = step_toward(Vec2i { x: 10, y: 0 }, Vec2i { x: 0, y: 0 }, 2);
    assert_eq!(s, Vec2i { x: -2, y: 0 });
}
