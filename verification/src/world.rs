//! Session setup: the marker for per-run entities and the initial state a
//! game run starts from.

use vstd::prelude::*;
use crate::gun::{BulletStats, GunBundle, GunStats, GunTimer, GunType, bullet_stats_wf, gun_stats_wf};
use crate::wave::Wave;

verus! {

/// Marker for entities that are cleared after each game run.
#[derive(Clone, Copy, PartialEq, Eq, Structural, Debug)]
pub struct InGameEntity;

/// The state a session starts from: a wave record before wave zero, the
/// default starting gun, and a second, rapid-fire gun of an extension
/// kind with heavier, short-lived bullets.
pub fn init_world() -> (r: (Wave, GunBundle, GunBundle))
    ensures
        r.0 == (Wave { number: 0, enemies_total: 0, enemies_left: 0, enemies_spawned: 0 }),
        r.0.wf(),
        r.1.gun_timer == (GunTimer(0)),
        r.1.gun_type == GunType::Default,
        r.1.bullet_stats == (BulletStats {
            speed: crate::BULLET_SPEED,
            damage: crate::BULLET_DAMAGE,
            lifespan_ms: crate::BULLET_TIME_MS,
        }),
        r.1.gun_stats == (GunStats {
            bullets_per_shot: crate::NUM_BULLETS_PER_SHOT,
            firing_interval_ms: crate::BULLET_SPAWN_INTERVAL_MS,
            bullet_spread: crate::BULLET_SPREAD,
        }),
        r.2.gun_timer == (GunTimer(0)),
        r.2.gun_type == GunType::Gun1,
        r.2.bullet_stats == (BulletStats { speed: 30, damage: 100, lifespan_ms: 200 }),
        r.2.gun_stats == (GunStats {
            bullets_per_shot: 20,
            firing_interval_ms: 100,
            bullet_spread: 100,
        }),
        bullet_stats_wf(r.1.bullet_stats) && gun_stats_wf(r.1.gun_stats),
        bullet_stats_wf(r.2.bullet_stats) && gun_stats_wf(r.2.gun_stats),
        r.1.gun_timer.0 < r.1.gun_stats.firing_interval_ms,
        r.2.gun_timer.0 < r.2.gun_stats.firing_interval_ms,
{
    let wave = Wave::default();
    let gun1 = GunBundle::default();
    let mut gun2 = GunBundle::default();
    gun2.gun_type = GunType::Gun1;
    gun2.gun_stats = GunStats { bullets_per_shot: 20, firing_interval_ms: 100, bullet_spread: 100 };
    gun2.bullet_stats = BulletStats { speed: 30, damage: 100, lifespan_ms: 200 };
    (wave, gun1, gun2)
}

} // verus!
