//! Fixed-point plane geometry: integer square root, clamping, pursuit
//! steps along the normalized direction rounded to whole coordinates,
//! and a coarse piecewise-linear circle used for spawn-point scatter.

use vstd::prelude::*;
use vstd::arithmetic::div_mod::{lemma_div_is_ordered, lemma_div_multiples_vanish, lemma_div_pos_is_pos};
use vstd::arithmetic::mul::{lemma_mul_inequality, lemma_mul_is_commutative, lemma_mul_nonnegative};
use crate::{ANGLE_STEPS, COORD_LIMIT, DIR_SCALE, PLAYER_COORD_LIMIT, SPEED_LIMIT};

verus! {

/// A 2-D point or displacement with integer coordinates.
#[derive(Clone, Copy, PartialEq, Eq, Structural, Debug)]
pub struct Vec2i {
    pub x: i64,
    pub y: i64,
}

/// Coordinates on which the simulation can do squared-distance arithmetic
/// without overflowing `u64`.
pub open spec fn in_coord_range(v: Vec2i) -> bool {
    &&& -COORD_LIMIT <= v.x <= COORD_LIMIT
    &&& -COORD_LIMIT <= v.y <= COORD_LIMIT
}

/// The tighter bound asked of player and aim-target positions, so that a
/// pursuit step started anywhere inside `COORD_LIMIT` lands back inside it.
pub open spec fn in_player_range(v: Vec2i) -> bool {
    &&& -PLAYER_COORD_LIMIT <= v.x <= PLAYER_COORD_LIMIT
    &&& -PLAYER_COORD_LIMIT <= v.y <= PLAYER_COORD_LIMIT
}

/// Mathematical floor of the square root, 0 below 0.
pub open spec fn sqrt_floor(n: int) -> int
    decreases n,
{
    if n <= 0 {
        0
    } else {
        let s = sqrt_floor(n - 1);
        if (s + 1) * (s + 1) <= n {
            s + 1
        } else {
            s
        }
    }
}

/// `sqrt_floor(n)` is the greatest number whose square is at most `n`.
pub proof fn lemma_sqrt_floor_bounds(n: int)
    requires
        n >= 0,
    ensures
        0 <= sqrt_floor(n),
        sqrt_floor(n) * sqrt_floor(n) <= n,
        n < (sqrt_floor(n) + 1) * (sqrt_floor(n) + 1),
    decreases n,
{
    if n != 0 {
        lemma_sqrt_floor_bounds(n - 1);
        let s = sqrt_floor(n - 1);
        if (s + 1) * (s + 1) <= n {
            assert(sqrt_floor(n) == s + 1);
            assert(n == (s + 1) * (s + 1));
            assert((s + 1) * (s + 1) < (s + 2) * (s + 2)) by (nonlinear_arith)
                requires s >= 0;
        } else {
            assert(sqrt_floor(n) == s);
        }
    }
}

/// Any number that squares to at most `n` while its successor squares to
/// more than `n` is `sqrt_floor(n)`.
pub proof fn lemma_sqrt_floor_unique(n: int, r: int)
    requires
        0 <= r,
        r * r <= n,
        n < (r + 1) * (r + 1),
    ensures
        r == sqrt_floor(n),
{
    lemma_sqrt_floor_bounds(n);
    let s = sqrt_floor(n);
    if r < s {
        assert((r + 1) * (r + 1) <= s * s) by (nonlinear_arith)
            requires 0 <= r + 1 <= s;
        assert(false);
    } else if s < r {
        assert((s + 1) * (s + 1) <= r * r) by (nonlinear_arith)
            requires 0 <= s + 1 <= r;
        assert(false);
    }
}

/// Integer square root by bisection.
pub fn isqrt(n: u64) -> (r: u64)
    ensures
        r == sqrt_floor(n as int),
{
    let mut lo: u64 = 0;
    let mut hi: u64 = 0x1_0000_0000;
    assert((hi as int) * (hi as int) > n as int) by (nonlinear_arith)
        requires hi == 0x1_0000_0000u64 && n <= 0xffff_ffff_ffff_ffffu64;
    while lo + 1 < hi
        invariant
            lo < hi,
            hi <= 0x1_0000_0000,
            (lo as int) * (lo as int) <= n as int,
            (n as int) < (hi as int) * (hi as int),
        decreases hi - lo,
    {
        let mid = lo + (hi - lo) / 2;
        assert((mid as u128) * (mid as u128) <= 0x1_0000_0000_0000_0000u128) by (nonlinear_arith)
            requires mid <= 0x1_0000_0000u64;
        let sq: u128 = (mid as u128) * (mid as u128);
        if sq <= n as u128 {
            lo = mid;
        } else {
            hi = mid;
        }
    }
    proof {
        lemma_sqrt_floor_unique(n as int, lo as int);
    }
    lo
}

/// The value of `v` pulled into the closed interval `[lo, hi]`.
pub open spec fn clamp_spec(v: int, lo: int, hi: int) -> int {
    if v < lo {
        lo
    } else if v > hi {
        hi
    } else {
        v
    }
}

/// Clamp `v` into the closed interval `[lo, hi]`.
pub fn clamp_i64(v: i64, lo: i64, hi: i64) -> (r: i64)
    requires
        lo <= hi,
    ensures
        r == clamp_spec(v as int, lo as int, hi as int),
        lo <= r <= hi,
{
    if v < lo {
        lo
    } else if v > hi {
        hi
    } else {
        v
    }
}

/// Squared distance between two points.
pub open spec fn dist_sq(from: Vec2i, to: Vec2i) -> int {
    (to.x - from.x) * (to.x - from.x) + (to.y - from.y) * (to.y - from.y)
}

/// One axis of a pursuit step: `d * mag / len`, rounded to the nearest
/// whole coordinate away from the sign boundary, so that slow movers
/// still make progress (see `lemma_pursuit_progress`).
pub open spec fn step_component(d: int, len: int, mag: int) -> int {
    if d >= 0 {
        (d * mag + len / 2) / len
    } else {
        -(((-d) * mag + len / 2) / len)
    }
}

/// The x component of the displacement `step_toward` returns.
pub open spec fn step_x_spec(from: Vec2i, to: Vec2i, mag: int) -> int {
    let len = sqrt_floor(dist_sq(from, to));
    if len == 0 {
        0
    } else {
        step_component(to.x - from.x, len, mag)
    }
}

/// The y component of the displacement `step_toward` returns.
pub open spec fn step_y_spec(from: Vec2i, to: Vec2i, mag: int) -> int {
    let len = sqrt_floor(dist_sq(from, to));
    if len == 0 {
        0
    } else {
        step_component(to.y - from.y, len, mag)
    }
}

/// A truncated scaled offset is at most `mag` and is nonnegative.
pub proof fn lemma_step_magnitude(a: int, len: int, mag: int)
    requires
        0 <= a <= len,
        0 < len,
        0 <= mag,
    ensures
        0 <= (a * mag) / len <= mag,
{
    lemma_mul_nonnegative(a, mag);
    lemma_div_pos_is_pos(a * mag, len);
    lemma_mul_inequality(a, len, mag);
    lemma_div_is_ordered(a * mag, len * mag, len);
    lemma_mul_is_commutative(len, mag);
    lemma_div_multiples_vanish(mag, len);
}

/// A rounded step component is at most `mag`, is nonnegative, and is zero
/// when the axis difference is zero.
pub proof fn lemma_step_magnitude_rounded(a: int, len: int, mag: int)
    requires
        0 <= a <= len,
        0 < len,
        0 <= mag,
    ensures
        0 <= (a * mag + len / 2) / len <= mag,
        a == 0 ==> (a * mag + len / 2) / len == 0,
{
    lemma_mul_nonnegative(a, mag);
    vstd::arithmetic::div_mod::lemma_div_pos_is_pos(len, 2);
    lemma_div_pos_is_pos(a * mag + len / 2, len);
    lemma_mul_inequality(a, len, mag);
    lemma_div_is_ordered(a * mag + len / 2, len * mag + len / 2, len);
    assert(2 * (len / 2) <= len) by {
        vstd::arithmetic::div_mod::lemma_fundamental_div_mod(len, 2);
        vstd::arithmetic::div_mod::lemma_mod_division_less_than_divisor(len, 2);
    }
    vstd::arithmetic::div_mod::lemma_div_multiples_vanish_fancy(mag, len / 2, len);
    if a == 0 {
        assert(a * mag == 0) by (nonlinear_arith)
            requires a == 0;
        vstd::arithmetic::div_mod::lemma_basic_div(len / 2, len);
    }
}

/// Pursuit never stalls: toward a point that is not the starting point,
/// any positive step magnitude moves at least one whole coordinate along
/// the dominant axis.
pub proof fn lemma_pursuit_progress(from: Vec2i, to: Vec2i, mag: int)
    requires
        !(from == to),
        mag >= 1,
    ensures
        step_x_spec(from, to, mag) != 0 || step_y_spec(from, to, mag) != 0,
{
    let dx = to.x - from.x;
    let dy = to.y - from.y;
    let adx: int = if dx >= 0 { dx } else { -dx };
    let ady: int = if dy >= 0 { dy } else { -dy };
    let n = dist_sq(from, to);
    assert(n == adx * adx + ady * ady && n >= 1 && adx >= 0 && ady >= 0) by (nonlinear_arith)
        requires
            n == (to.x - from.x) * (to.x - from.x) + (to.y - from.y) * (to.y - from.y),
            dx == to.x - from.x,
            dy == to.y - from.y,
            adx == (if dx >= 0 { dx } else { -dx }),
            ady == (if dy >= 0 { dy } else { -dy }),
            dx != 0 || dy != 0;
    lemma_sqrt_floor_bounds(n);
    let len = sqrt_floor(n);
    if len == 0 {
        assert(n < 1) by (nonlinear_arith)
            requires len == 0, n < (len + 1) * (len + 1);
        assert(false);
    }
    let a: int = if adx >= ady { adx } else { ady };
    assert(n <= 2 * a * a) by (nonlinear_arith)
        requires n == adx * adx + ady * ady, 0 <= adx <= a, 0 <= ady <= a;
    let h = len / 2;
    vstd::arithmetic::div_mod::lemma_fundamental_div_mod(len, 2);
    vstd::arithmetic::div_mod::lemma_mod_division_less_than_divisor(len, 2);
    let r = len % 2;
    if a < len - h {
        assert(2 * a * a < len * len) by (nonlinear_arith)
            requires
                a <= h + r - 1,
                len == 2 * h + r,
                0 <= r < 2,
                h >= 0,
                len >= 1,
                a >= 0;
        assert(false);
    }
    assert(a * mag >= a) by (nonlinear_arith)
        requires a >= 0, mag >= 1;
    lemma_div_is_ordered(len, a * mag + h, len);
    vstd::arithmetic::div_mod::lemma_div_by_self(len);
    assert((a * mag + h) / len >= 1);
}

/// The displacement from `from` toward `to` along the normalized
/// direction, each axis scaled by `mag` and rounded to the nearest whole
/// coordinate (so each axis moves at most `mag`); zero when the points
/// coincide.
#[verifier::rlimit(30)]
pub fn step_toward(from: Vec2i, to: Vec2i, mag: i64) -> (s: Vec2i)
    requires
        in_coord_range(from),
        in_coord_range(to),
        0 <= mag <= SPEED_LIMIT,
    ensures
        s.x == step_x_spec(from, to, mag as int),
        s.y == step_y_spec(from, to, mag as int),
        -mag <= s.x <= mag,
        -mag <= s.y <= mag,
        to.x - from.x >= 0 ==> s.x >= 0,
        to.x - from.x <= 0 ==> s.x <= 0,
        to.y - from.y >= 0 ==> s.y >= 0,
        to.y - from.y <= 0 ==> s.y <= 0,
        from == to ==> s == (Vec2i { x: 0, y: 0 }),
{
    let dx: i64 = to.x - from.x;
    let dy: i64 = to.y - from.y;
    let adx: u64 = (if dx >= 0 { dx } else { -dx }) as u64;
    let ady: u64 = (if dy >= 0 { dy } else { -dy }) as u64;
    proof {
        assert((adx as int) * (adx as int) == (dx as int) * (dx as int)) by (nonlinear_arith)
            requires adx as int == if dx as int >= 0 { dx as int } else { -(dx as int) };
        assert((ady as int) * (ady as int) == (dy as int) * (dy as int)) by (nonlinear_arith)
            requires ady as int == if dy as int >= 0 { dy as int } else { -(dy as int) };
        assert((adx as int) * (adx as int) <= 0x4000_0000_0000_0000int
            && (ady as int) * (ady as int) <= 0x4000_0000_0000_0000int) by (nonlinear_arith)
            requires adx <= 0x8000_0000u64 && ady <= 0x8000_0000u64;
    }
    let sq_sum: u64 = adx * adx + ady * ady;
    let ghost sf: int = sqrt_floor(sq_sum as int);
    let len: u64 = isqrt(sq_sum);
    proof {
        lemma_sqrt_floor_bounds(sq_sum as int);
        lemma_mul_nonnegative(adx as int, adx as int);
        lemma_mul_nonnegative(ady as int, ady as int);
        assert(dist_sq(from, to) == sq_sum as int);
    }
    if len == 0 {
        proof {
            assert(sq_sum as int == 0) by (nonlinear_arith)
                requires
                    sf == 0,
                    (sq_sum as int) < (sf + 1) * (sf + 1),
                    sq_sum >= 0u64;
            assert(adx == 0 && ady == 0) by (nonlinear_arith)
                requires
                    (adx as int) * (adx as int) + (ady as int) * (ady as int) == 0,
                    adx >= 0u64,
                    ady >= 0u64;
        }
        Vec2i { x: 0, y: 0 }
    } else {
        proof {
            assert(adx <= len && ady <= len) by (nonlinear_arith)
                requires
                    (adx as int) * (adx as int) <= sq_sum as int,
                    (ady as int) * (ady as int) <= sq_sum as int,
                    (sq_sum as int) < (len as int + 1) * (len as int + 1),
                    adx >= 0u64,
                    ady >= 0u64,
                    len >= 0u64;
            assert((adx as int) * (mag as int) <= 0x8_0000_0000_0000int
                && (ady as int) * (mag as int) <= 0x8_0000_0000_0000int) by (nonlinear_arith)
                requires
                    adx <= 0x8000_0000u64,
                    ady <= 0x8000_0000u64,
                    0 <= mag <= 0x10_0000i64;
            lemma_step_magnitude_rounded(adx as int, len as int, mag as int);
            lemma_step_magnitude_rounded(ady as int, len as int, mag as int);
        }
        let sxm: u64 = (adx * (mag as u64) + len / 2) / len;
        let sym: u64 = (ady * (mag as u64) + len / 2) / len;
        let sx: i64 = if dx >= 0 { sxm as i64 } else { -(sxm as i64) };
        let sy: i64 = if dy >= 0 { sym as i64 } else { -(sym as i64) };
        Vec2i { x: sx, y: sy }
    }
}

/// Coarse piecewise-linear cosine on a circle of `ANGLE_STEPS` steps,
/// scaled by `DIR_SCALE`: 1 at step 0, -1 at the half turn, linear between.
pub open spec fn cos_approx_spec(a: int) -> int {
    if a <= 2048 {
        1024 - a
    } else {
        a - 3072
    }
}

/// Coarse piecewise-linear sine, a quarter turn behind `cos_approx_spec`.
pub open spec fn sin_approx_spec(a: int) -> int {
    cos_approx_spec((a + 3072) % 4096)
}

/// Fixed-point cosine of an angle given in circle steps.
pub fn cos_approx(a: i64) -> (r: i64)
    requires
        0 <= a < ANGLE_STEPS,
    ensures
        r == cos_approx_spec(a as int),
        -DIR_SCALE <= r <= DIR_SCALE,
{
    if a <= 2048 {
        1024 - a
    } else {
        a - 3072
    }
}

/// Fixed-point sine of an angle given in circle steps.
pub fn sin_approx(a: i64) -> (r: i64)
    requires
        0 <= a < ANGLE_STEPS,
    ensures
        r == sin_approx_spec(a as int),
        -DIR_SCALE <= r <= DIR_SCALE,
{
    cos_approx((a + 3072) % 4096)
}

} // verus!
