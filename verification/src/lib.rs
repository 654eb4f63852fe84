//! Combat-simulation core of a top-down survival shooter.
//!
//! The simulation works on a fixed-point model of the game world: positions
//! are integer coordinates, directions are vectors scaled by `DIR_SCALE`,
//! and time is counted in milliseconds. Each simulation tick runs an ordered
//! pipeline of passes: wave spawning, enemy pursuit movement, trait effects,
//! gun firing, bullet travel, and finally the lifecycle sweep.

use vstd::prelude::*;

pub mod enemy;
pub mod geometry;
pub mod gun;
pub mod rng;
pub mod timer;
pub mod wave;
pub mod world;

verus! {

/// Half-extent of the world along the x axis, in world units.
pub const WORLD_W: i64 = 3000;

/// Half-extent of the world along the y axis, in world units.
pub const WORLD_H: i64 = 2500;

/// Coordinates handled by the simulation stay within this bound, which keeps
/// every squared distance inside `u64` range.
pub const COORD_LIMIT: i64 = 0x4000_0000;

/// Player and aim-target positions are held to this tighter bound so that a
/// pursuit step from anywhere inside `COORD_LIMIT` lands back inside it.
pub const PLAYER_COORD_LIMIT: i64 = 0x2000_0000;

/// Largest per-tick displacement magnitude the movement passes accept.
pub const SPEED_LIMIT: i64 = 0x10_0000;

/// Largest single tick duration and timer threshold, in milliseconds.
pub const TIME_LIMIT_MS: u64 = 0x100_0000_0000;

/// Largest wall-clock timestamp the pipeline accepts, in milliseconds,
/// so that a bullet's age arithmetic stays inside `u64`.
pub const CLOCK_LIMIT_MS: u64 = 0x1000_0000_0000_0000;

/// Fixed-point scale of direction vectors: a unit vector has length
/// `DIR_SCALE` in fixed-point coordinates.
pub const DIR_SCALE: i64 = 1024;

/// Number of discrete angle steps in a full turn for spawn-point sampling.
pub const ANGLE_STEPS: i64 = 4096;

/// Smallest distance from the spawn center at which enemies appear.
pub const SPAWN_RADIUS_MIN: i64 = 1000;

/// Largest distance from the spawn center at which enemies appear.
pub const SPAWN_RADIUS_MAX: i64 = 3000;

/// Upper cap on the number of enemies admitted in a single spawn tick.
pub const SPAWN_RATE_PER_TICK: u32 = 5;

/// Number of enemies in the first wave.
pub const WAVE_BASE_ENEMIES: u32 = 10;

/// Wave numbers beyond this exponent no longer double the enemy count, so
/// the per-wave count never overflows `u32`.
pub const MAX_WAVE_EXPONENT: u32 = 28;

/// One-shot lifetime of a damage trail, in milliseconds.
pub const TRAIL_LIFETIME_MS: u64 = 5000;

/// Radius of a damage trail, in world units.
pub const TRAIL_RADIUS: i64 = 10;


/// Default number of bullets a gun emits per shot.
pub const NUM_BULLETS_PER_SHOT: usize = 10;

/// Default cadence of the gun, in milliseconds between shots.
pub const BULLET_SPAWN_INTERVAL_MS: u64 = 100;

/// Default per-axis direction jitter of a fired bullet, in fixed-point
/// direction units.
pub const BULLET_SPREAD: i64 = 100;

/// Default bullet travel per tick, in world units.
pub const BULLET_SPEED: i64 = 15;

/// Default damage one bullet carries.
pub const BULLET_DAMAGE: i64 = 15;

/// Default bullet lifespan, in milliseconds of wall-clock time.
pub const BULLET_TIME_MS: u64 = 500;

/// Radial distance of the gun from the player, in world units.
pub const GUN_OFFSET: i64 = 20;

/// Fixed x adjustment of the gun sprite anchor, in world units.
pub const GUN_X_ADJUST: i64 = 5;

/// Fixed y adjustment of the gun sprite anchor, in world units.
pub const GUN_Y_ADJUST: i64 = 10;

} // verus!
