//! The gun and projectile pipeline: aim update, firing cadence with
//! per-axis spread, bullet travel, and bullet expiry.

use vstd::prelude::*;
use crate::geometry::{clamp_i64, clamp_spec, in_coord_range, in_player_range, step_component, step_toward, step_x_spec, step_y_spec, Vec2i};
use crate::rng::rand_in_range;
use crate::world::InGameEntity;
use crate::{BULLET_DAMAGE, BULLET_SPAWN_INTERVAL_MS, BULLET_SPEED, BULLET_SPREAD, BULLET_TIME_MS, COORD_LIMIT, DIR_SCALE, GUN_OFFSET, GUN_X_ADJUST, GUN_Y_ADJUST, NUM_BULLETS_PER_SHOT, SPEED_LIMIT, TIME_LIMIT_MS};

verus! {

/// Marker for the equipped weapon.
#[derive(Clone, Copy, PartialEq, Eq, Structural, Debug)]
pub struct Gun;

/// The gun's accumulating cadence stopwatch, in milliseconds.
#[derive(Clone, Copy, PartialEq, Eq, Structural, Debug)]
pub struct GunTimer(pub u64);

/// The closed set of gun kinds. Only `Default` has a velocity model; the
/// others are declared extension points whose use must fail loudly.
#[derive(Clone, Copy, PartialEq, Eq, Structural, Debug)]
pub enum GunType {
    Default,
    Gun1,
    Gun2,
}

/// Which gun kinds have a defined velocity model. Reaching one without
/// is a fatal programming-time misuse, not a recoverable condition: the
/// firing and travel passes exclude such kinds by precondition, and a
/// driver is expected to abort before handing one in.
pub open spec fn velocity_model_defined(t: GunType) -> bool {
    t == GunType::Default
}

impl GunType {
    /// Whether this gun kind has a velocity model.
    pub fn has_velocity_model(&self) -> (r: bool)
        ensures
            r == velocity_model_defined(*self),
    {
        match self {
            GunType::Default => true,
            GunType::Gun1 => false,
            GunType::Gun2 => false,
        }
    }
}

/// Stats a bullet copies from its gun at spawn time.
#[derive(Clone, Copy, PartialEq, Eq, Structural, Debug)]
pub struct BulletStats {
    pub speed: i64,
    pub damage: i64,
    pub lifespan_ms: u64,
}

/// The gun's firing configuration.
#[derive(Clone, Copy, PartialEq, Eq, Structural, Debug)]
pub struct GunStats {
    pub bullets_per_shot: usize,
    pub firing_interval_ms: u64,
    pub bullet_spread: i64,
}

/// The wall-clock instant a bullet was fired, in milliseconds.
#[derive(Clone, Copy, PartialEq, Eq, Structural, Debug)]
pub struct SpawnInstant(pub u64);

/// One live projectile.
#[derive(Clone, Copy, PartialEq, Eq, Structural, Debug)]
pub struct Bullet {
    pub pos: Vec2i,
    pub direction: Vec2i,
    pub stats: BulletStats,
    pub gun_type: GunType,
    pub spawn: SpawnInstant,
}

/// Everything one equipped gun carries.
pub struct GunBundle {
    pub gun: Gun,
    pub gun_timer: GunTimer,
    pub gun_type: GunType,
    pub bullet_stats: BulletStats,
    pub gun_stats: GunStats,
    pub in_game_entity: InGameEntity,
}

pub open spec fn bullet_stats_wf(s: BulletStats) -> bool {
    &&& 0 <= s.speed <= SPEED_LIMIT
    &&& s.lifespan_ms <= TIME_LIMIT_MS
}

pub open spec fn gun_stats_wf(s: GunStats) -> bool {
    &&& 0 < s.firing_interval_ms <= TIME_LIMIT_MS
    &&& 0 <= s.bullet_spread <= DIR_SCALE
}

pub open spec fn bullet_wf(b: Bullet) -> bool {
    &&& in_coord_range(b.pos)
    &&& b.spawn.0 <= crate::CLOCK_LIMIT_MS
    &&& -2 * DIR_SCALE <= b.direction.x <= 2 * DIR_SCALE
    &&& -2 * DIR_SCALE <= b.direction.y <= 2 * DIR_SCALE
    &&& bullet_stats_wf(b.stats)
}

impl Default for GunBundle {
    /// A fresh default gun: cadence stopwatch at zero and the default
    /// firing and bullet configuration.
    fn default() -> (g: GunBundle)
        ensures
            g.gun_timer == (GunTimer(0)),
            g.gun_type == GunType::Default,
            g.bullet_stats == (BulletStats {
                speed: BULLET_SPEED,
                damage: BULLET_DAMAGE,
                lifespan_ms: BULLET_TIME_MS,
            }),
            g.gun_stats == (GunStats {
                bullets_per_shot: NUM_BULLETS_PER_SHOT,
                firing_interval_ms: BULLET_SPAWN_INTERVAL_MS,
                bullet_spread: BULLET_SPREAD,
            }),
            bullet_stats_wf(g.bullet_stats),
            gun_stats_wf(g.gun_stats),
            g.gun_timer.0 < g.gun_stats.firing_interval_ms,
    {
        GunBundle {
            gun: Gun,
            gun_timer: GunTimer(0),
            gun_type: GunType::Default,
            bullet_stats: BulletStats {
                speed: BULLET_SPEED,
                damage: BULLET_DAMAGE,
                lifespan_ms: BULLET_TIME_MS,
            },
            gun_stats: GunStats {
                bullets_per_shot: NUM_BULLETS_PER_SHOT,
                firing_interval_ms: BULLET_SPAWN_INTERVAL_MS,
                bullet_spread: BULLET_SPREAD,
            },
            in_game_entity: InGameEntity,
        }
    }
}

/// Aim update: the gun's forward axis is the unit direction from the
/// player toward the aim target (the muzzle faces outward, a half turn
/// from the target-to-player direction), and the gun sits a fixed radial
/// offset from the player along that axis, with a fixed sprite-anchor
/// adjustment. With no aim target, or one exactly on the player, the gun
/// aims along the negative x axis.
pub fn update_gun_transform(player_pos: Vec2i, cursor_pos: Option<Vec2i>) -> (r: (Vec2i, Vec2i))
    requires
        in_player_range(player_pos),
        match cursor_pos {
            Some(c) => in_player_range(c),
            None => true,
        },
    ensures
        -DIR_SCALE <= r.1.x <= DIR_SCALE,
        -DIR_SCALE <= r.1.y <= DIR_SCALE,
        match cursor_pos {
            Some(c) => {
                if c == player_pos {
                    r.1 == (Vec2i { x: (-DIR_SCALE) as i64, y: 0 })
                } else {
                    r.1.x == step_x_spec(player_pos, c, DIR_SCALE as int)
                        && r.1.y == step_y_spec(player_pos, c, DIR_SCALE as int)
                }
            },
            None => r.1 == (Vec2i { x: (-DIR_SCALE) as i64, y: 0 }),
        },
        r.0.x == player_pos.x + step_component(r.1.x as int, DIR_SCALE as int, GUN_OFFSET as int)
            - GUN_X_ADJUST,
        r.0.y == player_pos.y + step_component(r.1.y as int, DIR_SCALE as int, GUN_OFFSET as int)
            - GUN_Y_ADJUST,
        in_coord_range(r.0),
{
    let fwd = match cursor_pos {
        None => Vec2i { x: -DIR_SCALE, y: 0 },
        Some(c) => {
            if c.x == player_pos.x && c.y == player_pos.y {
                Vec2i { x: -DIR_SCALE, y: 0 }
            } else {
                step_toward(player_pos, c, DIR_SCALE)
            }
        },
    };
    let ax: i64 = if fwd.x >= 0 { fwd.x } else { -fwd.x };
    let ay: i64 = if fwd.y >= 0 { fwd.y } else { -fwd.y };
    proof {
        crate::geometry::lemma_step_magnitude_rounded(ax as int, DIR_SCALE as int, GUN_OFFSET as int);
        crate::geometry::lemma_step_magnitude_rounded(ay as int, DIR_SCALE as int, GUN_OFFSET as int);
    }
    let offx_mag = (ax * GUN_OFFSET + DIR_SCALE / 2) / DIR_SCALE;
    let offy_mag = (ay * GUN_OFFSET + DIR_SCALE / 2) / DIR_SCALE;
    let offx = if fwd.x >= 0 { offx_mag } else { -offx_mag };
    let offy = if fwd.y >= 0 { offy_mag } else { -offy_mag };
    let gpos = Vec2i {
        x: player_pos.x + offx - GUN_X_ADJUST,
        y: player_pos.y + offy - GUN_Y_ADJUST,
    };
    (gpos, fwd)
}

/// A bullet as the firing pass emits it: spawned at the gun, carrying a
/// copy of the gun's bullet stats and kind, stamped with the firing
/// instant, its direction the gun's forward axis jittered independently
/// on each axis by at most the spread.
pub open spec fn fired_bullet_ok(
    b: Bullet,
    gun_pos: Vec2i,
    forward: Vec2i,
    stats: BulletStats,
    t: GunType,
    now_ms: u64,
    spread: i64,
) -> bool {
    &&& b.pos == gun_pos
    &&& b.stats == stats
    &&& b.gun_type == t
    &&& b.spawn == (SpawnInstant(now_ms))
    &&& forward.x - spread <= b.direction.x <= forward.x + spread
    &&& forward.y - spread <= b.direction.y <= forward.y + spread
    &&& bullet_wf(b)
}

/// Firing pass: the cadence stopwatch accumulates the tick's elapsed
/// time; once it reaches the firing interval it resets and a full volley
/// of jittered bullets is emitted in this one tick. A gun kind without a
/// velocity model is a fatal misuse excluded by precondition, so that a
/// driver must fail loudly before reaching it.
pub fn handle_gun_firing(
    gun_pos: Vec2i,
    forward: Vec2i,
    gun_timer: &mut GunTimer,
    gun_type: &GunType,
    bullet_stats: &BulletStats,
    gun_stats: &GunStats,
    bullets: &mut Vec<Bullet>,
    now_ms: u64,
    delta_ms: u64,
) -> (fired: usize)
    requires
        velocity_model_defined(*gun_type),
        in_coord_range(gun_pos),
        -DIR_SCALE <= forward.x <= DIR_SCALE,
        -DIR_SCALE <= forward.y <= DIR_SCALE,
        bullet_stats_wf(*bullet_stats),
        gun_stats_wf(*gun_stats),
        old(gun_timer).0 < gun_stats.firing_interval_ms,
        delta_ms <= TIME_LIMIT_MS,
        now_ms <= crate::CLOCK_LIMIT_MS,
    ensures
        final(gun_timer).0 < gun_stats.firing_interval_ms,
        old(gun_timer).0 + delta_ms < gun_stats.firing_interval_ms ==> {
            &&& fired == 0
            &&& final(gun_timer).0 == old(gun_timer).0 + delta_ms
            &&& final(bullets)@ == old(bullets)@
        },
        old(gun_timer).0 + delta_ms >= gun_stats.firing_interval_ms ==> {
            &&& final(gun_timer).0 == 0
            &&& fired == gun_stats.bullets_per_shot
            &&& final(bullets)@.len() == old(bullets)@.len() + gun_stats.bullets_per_shot
            &&& forall|j: int| 0 <= j < old(bullets)@.len() ==> final(bullets)@[j] == old(bullets)@[j]
            &&& forall|j: int| old(bullets)@.len() <= j < final(bullets)@.len()
                ==> fired_bullet_ok(#[trigger] final(bullets)@[j], gun_pos, forward, *bullet_stats,
                        *gun_type, now_ms, gun_stats.bullet_spread)
        },
{
    let total = gun_timer.0 + delta_ms;
    if total < gun_stats.firing_interval_ms {
        gun_timer.0 = total;
        return 0;
    }
    gun_timer.0 = 0;
    match gun_type {
        GunType::Default => {
            let ghost orig = bullets@;
            let mut fired: usize = 0;
            while fired < gun_stats.bullets_per_shot
                invariant
                    fired <= gun_stats.bullets_per_shot,
                    now_ms <= crate::CLOCK_LIMIT_MS,
                    in_coord_range(gun_pos),
                    -DIR_SCALE <= forward.x <= DIR_SCALE,
                    -DIR_SCALE <= forward.y <= DIR_SCALE,
                    bullet_stats_wf(*bullet_stats),
                    gun_stats_wf(*gun_stats),
                    *gun_type == GunType::Default,
                    bullets@.len() == orig.len() + fired,
                    forall|j: int| 0 <= j < orig.len() ==> bullets@[j] == orig[j],
                    forall|j: int| orig.len() <= j < bullets@.len()
                        ==> fired_bullet_ok(#[trigger] bullets@[j], gun_pos, forward, *bullet_stats,
                                *gun_type, now_ms, gun_stats.bullet_spread),
                decreases gun_stats.bullets_per_shot - fired,
            {
                let jx = rand_in_range(-gun_stats.bullet_spread, gun_stats.bullet_spread + 1);
                let jy = rand_in_range(-gun_stats.bullet_spread, gun_stats.bullet_spread + 1);
                let dir = Vec2i { x: forward.x + jx, y: forward.y + jy };
                bullets.push(Bullet {
                    pos: gun_pos,
                    direction: dir,
                    stats: *bullet_stats,
                    gun_type: *gun_type,
                    spawn: SpawnInstant(now_ms),
                });
                fired = fired + 1;
            }
            fired
        },
        GunType::Gun1 => vstd::pervasive::unreached(),
        GunType::Gun2 => vstd::pervasive::unreached(),
    }
}

/// One bullet after a travel step: position advanced by its speed along
/// its normalized direction, rounded per axis and held inside the
/// coordinate range.
pub open spec fn advanced_bullet(post: Bullet, pre: Bullet) -> bool {
    &&& post.pos.x == clamp_spec(
        pre.pos.x + step_x_spec(Vec2i { x: 0, y: 0 }, pre.direction, pre.stats.speed as int),
        -COORD_LIMIT as int,
        COORD_LIMIT as int,
    )
    &&& post.pos.y == clamp_spec(
        pre.pos.y + step_y_spec(Vec2i { x: 0, y: 0 }, pre.direction, pre.stats.speed as int),
        -COORD_LIMIT as int,
        COORD_LIMIT as int,
    )
    &&& post.direction == pre.direction
    &&& post.stats == pre.stats
    &&& post.gun_type == pre.gun_type
    &&& post.spawn == pre.spawn
}

/// Travel pass: every bullet advances by its own speed along its
/// direction. A bullet of a gun kind without a velocity model is a fatal
/// misuse excluded by precondition, so that a driver must fail loudly
/// before reaching it.
pub fn update_bullets(bullets: &mut Vec<Bullet>)
    requires
        forall|j: int| 0 <= j < old(bullets)@.len() ==> bullet_wf(#[trigger] old(bullets)@[j]),
        forall|j: int| 0 <= j < old(bullets)@.len()
            ==> velocity_model_defined(#[trigger] old(bullets)@[j].gun_type),
    ensures
        final(bullets)@.len() == old(bullets)@.len(),
        forall|j: int| 0 <= j < old(bullets)@.len()
            ==> advanced_bullet(#[trigger] final(bullets)@[j], old(bullets)@[j]),
        forall|j: int| 0 <= j < final(bullets)@.len() ==> bullet_wf(#[trigger] final(bullets)@[j]),
{
    let n = bullets.len();
    let ghost orig = bullets@;
    let mut i: usize = 0;
    while i < n
        invariant
            n == bullets@.len() == orig.len(),
            i <= n,
            forall|j: int| 0 <= j < n ==> bullet_wf(#[trigger] orig[j]),
            forall|j: int| i <= j < n ==> #[trigger] bullets@[j] == orig[j],
            forall|j: int| 0 <= j < i ==> advanced_bullet(#[trigger] bullets@[j], orig[j]),
            forall|j: int| 0 <= j < i ==> bullet_wf(#[trigger] bullets@[j]),
        decreases n - i,
    {
        let b = bullets[i];
        let step = step_toward(Vec2i { x: 0, y: 0 }, b.direction, b.stats.speed);
        let px = clamp_i64(b.pos.x + step.x, -COORD_LIMIT, COORD_LIMIT);
        let py = clamp_i64(b.pos.y + step.y, -COORD_LIMIT, COORD_LIMIT);
        bullets[i].pos = Vec2i { x: px, y: py };
        i = i + 1;
    }
}

/// A bullet has expired once its wall-clock age reaches its lifespan.
pub open spec fn bullet_expired(b: Bullet, now_ms: u64) -> bool {
    now_ms >= b.spawn.0 + b.stats.lifespan_ms
}

/// The bullets that are still within their lifespan at `now_ms`.
pub open spec fn live_bullets(s: Seq<Bullet>, now_ms: u64) -> Seq<Bullet>
    decreases s.len(),
{
    if s.len() == 0 {
        Seq::empty()
    } else {
        let rest = live_bullets(s.subrange(1, s.len() as int), now_ms);
        if !bullet_expired(s[0], now_ms) {
            seq![s[0]] + rest
        } else {
            rest
        }
    }
}

/// Every bullet the expiry sweep keeps is strictly younger than its
/// lifespan.
pub proof fn lemma_live_bullets_not_expired(s: Seq<Bullet>, now_ms: u64)
    ensures
        forall|j: int| 0 <= j < live_bullets(s, now_ms).len()
            ==> !bullet_expired(#[trigger] live_bullets(s, now_ms)[j], now_ms),
    decreases s.len(),
{
    if s.len() > 0 {
        let rest = live_bullets(s.subrange(1, s.len() as int), now_ms);
        lemma_live_bullets_not_expired(s.subrange(1, s.len() as int), now_ms);
        if !bullet_expired(s[0], now_ms) {
            assert forall|j: int| 0 <= j < live_bullets(s, now_ms).len()
                implies !bullet_expired(live_bullets(s, now_ms)[j], now_ms) by {
                if j > 0 {
                    assert(live_bullets(s, now_ms)[j] == rest[j - 1]);
                }
            }
        }
    }
}

/// Expiry sweep: remove every bullet whose wall-clock age has reached its
/// lifespan; a bullet strictly younger than its lifespan stays.
pub fn despawn_old_bullets(bullets: &mut Vec<Bullet>, now_ms: u64)
    requires
        forall|j: int| 0 <= j < old(bullets)@.len() ==> bullet_wf(#[trigger] old(bullets)@[j]),
    ensures
        final(bullets)@ == live_bullets(old(bullets)@, now_ms),
        forall|j: int| 0 <= j < final(bullets)@.len() ==> bullet_wf(#[trigger] final(bullets)@[j]),
{
    let ghost orig = bullets@;
    let mut kept: Vec<Bullet> = Vec::new();
    proof {
        assert(kept@ + live_bullets(bullets@, now_ms) =~= live_bullets(orig, now_ms));
    }
    while bullets.len() > 0
        invariant
            forall|j: int| 0 <= j < bullets@.len() ==> bullet_wf(#[trigger] bullets@[j]),
            forall|j: int| 0 <= j < kept@.len() ==> bullet_wf(#[trigger] kept@[j]),
            live_bullets(orig, now_ms) == kept@ + live_bullets(bullets@, now_ms),
        decreases bullets@.len(),
    {
        let ghost cur = bullets@;
        let b = bullets.remove(0);
        proof {
            assert(cur.subrange(1, cur.len() as int) =~= bullets@);
        }
        let expired = now_ms >= b.spawn.0 + b.stats.lifespan_ms;
        if !expired {
            kept.push(b);
            proof {
                assert(kept@ + live_bullets(bullets@, now_ms) =~= live_bullets(orig, now_ms));
            }
        }
    }
    proof {
        assert(bullets@ =~= Seq::<Bullet>::empty());
        assert(kept@ + live_bullets(bullets@, now_ms) =~= kept@);
    }
    *bullets = kept;
}

} // verus!
