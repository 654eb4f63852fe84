//! Enemies: archetype configuration, wave spawning around the player,
//! pursuit movement, periodic damage-trail traits, and the death sweep.

use vstd::prelude::*;
use crate::geometry::{clamp_i64, clamp_spec, cos_approx, cos_approx_spec, in_coord_range, in_player_range, sin_approx, sin_approx_spec, step_toward, step_x_spec, step_y_spec, Vec2i};
use crate::rng::rand_in_range;
use crate::timer::{Timer, TimerMode};
use crate::wave::Wave;
use crate::{ANGLE_STEPS, COORD_LIMIT, DIR_SCALE, SPAWN_RADIUS_MAX, SPAWN_RADIUS_MIN, SPAWN_RATE_PER_TICK, SPEED_LIMIT, TIME_LIMIT_MS, TRAIL_LIFETIME_MS, TRAIL_RADIUS, WORLD_H, WORLD_W};
use vstd::arithmetic::mul::{lemma_mul_is_commutative, lemma_mul_nonnegative};

verus! {

/// The closed roster of enemy archetypes.
#[derive(Clone, Copy, PartialEq, Eq, Structural, Debug)]
pub enum EnemyType {
    Green,
    Toxic,
}

/// A recurring timed behavior owned by one enemy.
#[derive(Clone, Copy, PartialEq, Eq, Structural, Debug)]
pub enum EnemyTrait {
    LeaveTrail { timer: Timer, trail_damage: i64 },
}

/// Per-instance combat state of one live enemy.
pub struct Enemy {
    pub health: i64,
    pub speed: i64,
    pub damage: i64,
    pub traits: Vec<EnemyTrait>,
    pub pos: Vec2i,
}

/// The immutable per-archetype template.
pub struct EnemyConfig {
    pub health: i64,
    pub speed: i64,
    pub damage: i64,
    pub traits: Vec<EnemyTrait>,
}

/// An ephemeral damage hazard left behind by an enemy trait.
#[derive(Clone, Copy, PartialEq, Eq, Structural, Debug)]
pub struct Trail {
    pub damage: i64,
    pub lifetime: Timer,
    pub radius: i64,
    pub pos: Vec2i,
}

pub open spec fn trait_wf(t: EnemyTrait) -> bool {
    match t {
        EnemyTrait::LeaveTrail { timer, trail_damage } => {
            timer.wf() && timer.mode == TimerMode::Repeating
        },
    }
}

pub open spec fn enemy_wf(e: Enemy) -> bool {
    &&& 0 <= e.speed <= SPEED_LIMIT
    &&& in_coord_range(e.pos)
    &&& forall|j: int| 0 <= j < e.traits@.len() ==> trait_wf(#[trigger] e.traits@[j])
}

pub open spec fn trail_wf(t: Trail) -> bool {
    t.lifetime.wf() && t.lifetime.mode == TimerMode::Once
}

/// What the Green archetype's template holds.
pub open spec fn green_config(c: EnemyConfig) -> bool {
    &&& c.health == 100
    &&& c.speed == 1
    &&& c.damage == 1
    &&& c.traits@ == Seq::<EnemyTrait>::empty()
}

/// What the Toxic archetype's template holds: no contact damage, but a
/// repeating damage trail on a tenth-of-a-second interval.
pub open spec fn toxic_config(c: EnemyConfig) -> bool {
    &&& c.health == 50
    &&& c.speed == 2
    &&& c.damage == 0
    &&& c.traits@ == seq![
        EnemyTrait::LeaveTrail {
            timer: Timer { elapsed_ms: 0, duration_ms: 100, mode: TimerMode::Repeating },
            trail_damage: 2,
        },
    ]
}

/// A ring offset along one axis: the drawn distance scaled by the
/// fixed-point cosine or sine value `c`, truncated toward zero.
pub open spec fn ring_offset(c: int, d: int) -> int {
    if c >= 0 {
        (d * c) / (DIR_SCALE as int)
    } else {
        -((d * (-c)) / (DIR_SCALE as int))
    }
}

/// A point the spawn sampler can produce around `center`: for one shared
/// pair of draws, an angle on the discrete circle and a ring distance,
/// each axis is the center plus that ring offset, clamped into the world
/// half-extents.
pub open spec fn is_ring_sample(p: Vec2i, center: Vec2i, w: int, h: int) -> bool {
    exists|a: int, d: int|
        #![trigger ring_offset(cos_approx_spec(a), d), ring_offset(sin_approx_spec(a), d)]
        {
            &&& 0 <= a < ANGLE_STEPS
            &&& SPAWN_RADIUS_MIN <= d < SPAWN_RADIUS_MAX
            &&& p.x == clamp_spec(center.x + ring_offset(cos_approx_spec(a), d), -w, w)
            &&& p.y == clamp_spec(center.y + ring_offset(sin_approx_spec(a), d), -h, h)
        }
}

/// A freshly admitted enemy: a sampled spawn point around the player,
/// inside world bounds, well formed, and an instance of one archetype of
/// the roster.
pub open spec fn spawned_enemy_ok(e: Enemy, center: Vec2i) -> bool {
    &&& -WORLD_W <= e.pos.x <= WORLD_W
    &&& -WORLD_H <= e.pos.y <= WORLD_H
    &&& is_ring_sample(e.pos, center, WORLD_W as int, WORLD_H as int)
    &&& enemy_wf(e)
    &&& {
        ||| (e.health == 100 && e.speed == 1 && e.damage == 1 && e.traits@ == Seq::<EnemyTrait>::empty())
        ||| (e.health == 50 && e.speed == 2 && e.damage == 0 && e.traits@ == seq![
                EnemyTrait::LeaveTrail {
                    timer: Timer { elapsed_ms: 0, duration_ms: 100, mode: TimerMode::Repeating },
                    trail_damage: 2,
                },
            ])
    }
}

impl EnemyType {
    /// The roster member a weighted roll selects: the first archetype on
    /// rolls below `first_weight`, the second otherwise.
    pub fn enemy_type_for_roll(roll: i64, first_weight: i64, total: i64) -> (t: EnemyType)
        requires
            0 <= roll < total,
            0 <= first_weight <= total,
        ensures
            t == EnemyType::Green <==> roll < first_weight,
            t == EnemyType::Toxic <==> roll >= first_weight,
    {
        if roll < first_weight {
            EnemyType::Green
        } else {
            EnemyType::Toxic
        }
    }

    /// A random roster member, weighted one in five toward Green.
    pub fn get_rand_enemy() -> (t: EnemyType) {
        let roll = rand_in_range(0, 5);
        EnemyType::enemy_type_for_roll(roll, 1, 5)
    }

    /// Which sprite-atlas cell the archetype's animation starts at.
    pub open spec fn base_sprite_index_spec(self) -> int {
        match self {
            EnemyType::Green => 8,
            EnemyType::Toxic => 12,
        }
    }

    pub fn get_base_sprite_index(&self) -> (idx: usize)
        ensures
            idx == self.base_sprite_index_spec(),
    {
        match self {
            EnemyType::Green => 8,
            EnemyType::Toxic => 12,
        }
    }

    /// The archetype's template of base stats and trait set.
    pub fn get_config(&self) -> (c: EnemyConfig)
        ensures
            *self == EnemyType::Green ==> green_config(c),
            *self == EnemyType::Toxic ==> toxic_config(c),
    {
        match self {
            EnemyType::Green => EnemyConfig {
                health: 100,
                speed: 1,
                damage: 1,
                traits: Vec::new(),
            },
            EnemyType::Toxic => {
                let mut traits: Vec<EnemyTrait> = Vec::new();
                traits.push(EnemyTrait::LeaveTrail {
                    timer: Timer::new(100, TimerMode::Repeating),
                    trail_damage: 2,
                });
                proof {
                    assert(traits@ =~= seq![
                        EnemyTrait::LeaveTrail {
                            timer: Timer { elapsed_ms: 0, duration_ms: 100, mode: TimerMode::Repeating },
                            trail_damage: 2,
                        },
                    ]);
                }
                EnemyConfig { health: 50, speed: 2, damage: 0, traits }
            },
        }
    }
}

/// A point at a random angle and a random ring distance around `pos`, each
/// axis clamped into the world half-extents `[-w, w]` and `[-h, h]`.
pub fn get_random_position_around(pos: Vec2i, w: i64, h: i64) -> (p: Vec2i)
    requires
        in_coord_range(pos),
        0 <= w <= COORD_LIMIT,
        0 <= h <= COORD_LIMIT,
    ensures
        -w <= p.x <= w,
        -h <= p.y <= h,
        is_ring_sample(p, pos, w as int, h as int),
{
    let angle = rand_in_range(0, ANGLE_STEPS);
    let dist = rand_in_range(SPAWN_RADIUS_MIN, SPAWN_RADIUS_MAX);
    let c = cos_approx(angle);
    let s = sin_approx(angle);
    let ac: i64 = if c >= 0 { c } else { -c };
    let asn: i64 = if s >= 0 { s } else { -s };
    proof {
        lemma_mul_nonnegative(ac as int, dist as int);
        lemma_mul_nonnegative(asn as int, dist as int);
        crate::geometry::lemma_step_magnitude(ac as int, DIR_SCALE as int, dist as int);
        crate::geometry::lemma_step_magnitude(asn as int, DIR_SCALE as int, dist as int);
        lemma_mul_is_commutative(dist as int, ac as int);
        lemma_mul_is_commutative(dist as int, asn as int);
    }
    let off_x_mag = dist * ac / DIR_SCALE;
    let off_y_mag = dist * asn / DIR_SCALE;
    let off_x = if c >= 0 { off_x_mag } else { -off_x_mag };
    let off_y = if s >= 0 { off_y_mag } else { -off_y_mag };
    let px = clamp_i64(pos.x + off_x, -w, w);
    let py = clamp_i64(pos.y + off_y, -h, h);
    proof {
        assert(off_x as int == ring_offset(cos_approx_spec(angle as int), dist as int));
        assert(off_y as int == ring_offset(sin_approx_spec(angle as int), dist as int));
        assert(is_ring_sample(Vec2i { x: px, y: py }, pos, w as int, h as int));
    }
    Vec2i { x: px, y: py }
}

/// One enemy after a pursuit step toward the player.
pub open spec fn is_moved(post: Enemy, pre: Enemy, player: Vec2i) -> bool {
    &&& post.health == pre.health
    &&& post.speed == pre.speed
    &&& post.damage == pre.damage
    &&& post.traits == pre.traits
    &&& post.pos.x == pre.pos.x + step_x_spec(pre.pos, player, pre.speed as int)
    &&& post.pos.y == pre.pos.y + step_y_spec(pre.pos, player, pre.speed as int)
}

/// An enemy standing exactly on the player takes a zero step.
pub proof fn lemma_coincident_enemy_stays(e: Enemy, player: Vec2i)
    requires
        e.pos == player,
    ensures
        step_x_spec(e.pos, player, e.speed as int) == 0,
        step_y_spec(e.pos, player, e.speed as int) == 0,
{
}

/// Pursuit movement: every enemy steps toward the player by its own speed
/// along the truncated normalized direction; an enemy already on the player
/// does not move.
pub fn update_enemy_transform(player_pos: Vec2i, enemies: &mut Vec<Enemy>)
    requires
        in_player_range(player_pos),
        forall|j: int| 0 <= j < old(enemies)@.len() ==> enemy_wf(#[trigger] old(enemies)@[j]),
    ensures
        final(enemies)@.len() == old(enemies)@.len(),
        forall|j: int| 0 <= j < old(enemies)@.len()
            ==> is_moved(#[trigger] final(enemies)@[j], old(enemies)@[j], player_pos),
        forall|j: int| 0 <= j < final(enemies)@.len() ==> enemy_wf(#[trigger] final(enemies)@[j]),
{
    let n = enemies.len();
    let mut i: usize = 0;
    while i < n
        invariant
            n == enemies@.len() == old(enemies)@.len(),
            i <= n,
            in_player_range(player_pos),
            forall|j: int| i <= j < n ==> #[trigger] enemies@[j] == old(enemies)@[j],
            forall|j: int| 0 <= j < n ==> enemy_wf(#[trigger] old(enemies)@[j]),
            forall|j: int| 0 <= j < i
                ==> is_moved(#[trigger] enemies@[j], old(enemies)@[j], player_pos),
            forall|j: int| 0 <= j < i ==> enemy_wf(#[trigger] enemies@[j]),
        decreases n - i,
    {
        let epos = enemies[i].pos;
        let espeed = enemies[i].speed;
        let step = step_toward(epos, player_pos, espeed);
        enemies[i].pos = Vec2i { x: epos.x + step.x, y: epos.y + step.y };
        i = i + 1;
    }
}

/// The subsequence of enemies that are still alive.
pub open spec fn alive_filter(s: Seq<Enemy>) -> Seq<Enemy>
    decreases s.len(),
{
    if s.len() == 0 {
        Seq::empty()
    } else if s[0].health > 0 {
        seq![s[0]] + alive_filter(s.subrange(1, s.len() as int))
    } else {
        alive_filter(s.subrange(1, s.len() as int))
    }
}

/// How many enemies of the sequence are dead.
pub open spec fn dead_count(s: Seq<Enemy>) -> nat
    decreases s.len(),
{
    if s.len() == 0 {
        0
    } else if s[0].health > 0 {
        dead_count(s.subrange(1, s.len() as int))
    } else {
        1 + dead_count(s.subrange(1, s.len() as int))
    }
}

/// Subtraction on the wave's alive counter, held at zero.
pub open spec fn sat_sub_u32(a: u32, b: nat) -> u32 {
    if b <= a {
        (a - b) as u32
    } else {
        0u32
    }
}

/// The sweep keeps exactly the live enemies: everything kept has positive
/// health, and kept plus dead accounts for the whole sequence.
pub proof fn lemma_alive_filter_all_alive(s: Seq<Enemy>)
    ensures
        forall|j: int| 0 <= j < alive_filter(s).len() ==> #[trigger] alive_filter(s)[j].health > 0,
        alive_filter(s).len() + dead_count(s) == s.len(),
    decreases s.len(),
{
    if s.len() > 0 {
        lemma_alive_filter_all_alive(s.subrange(1, s.len() as int));
    }
}

/// Death sweep: remove every enemy whose health is not positive, and for
/// each removal count the wave's alive counter down, never below zero.
pub fn despawn_dead_enemies(enemies: &mut Vec<Enemy>, wave: &mut Wave)
    requires
        forall|j: int| 0 <= j < old(enemies)@.len() ==> enemy_wf(#[trigger] old(enemies)@[j]),
    ensures
        final(enemies)@ == alive_filter(old(enemies)@),
        final(wave).enemies_left == sat_sub_u32(old(wave).enemies_left, dead_count(old(enemies)@)),
        final(wave).number == old(wave).number,
        final(wave).enemies_total == old(wave).enemies_total,
        final(wave).enemies_spawned == old(wave).enemies_spawned,
        forall|j: int| 0 <= j < final(enemies)@.len() ==> enemy_wf(#[trigger] final(enemies)@[j]),
{
    let ghost orig = enemies@;
    let ghost old_left = wave.enemies_left;
    let mut kept: Vec<Enemy> = Vec::new();
    proof {
        assert(kept@ + alive_filter(enemies@) =~= alive_filter(orig));
    }
    while enemies.len() > 0
        invariant
            forall|j: int| 0 <= j < enemies@.len() ==> enemy_wf(#[trigger] enemies@[j]),
            forall|j: int| 0 <= j < kept@.len() ==> enemy_wf(#[trigger] kept@[j]),
            alive_filter(orig) == kept@ + alive_filter(enemies@),
            dead_count(enemies@) <= dead_count(orig),
            wave.enemies_left == sat_sub_u32(old_left, (dead_count(orig) - dead_count(enemies@)) as nat),
            wave.number == old(wave).number,
            wave.enemies_total == old(wave).enemies_total,
            wave.enemies_spawned == old(wave).enemies_spawned,
            old_left == old(wave).enemies_left,
        decreases enemies@.len(),
    {
        let ghost cur = enemies@;
        let e = enemies.remove(0);
        proof {
            assert(cur.subrange(1, cur.len() as int) =~= enemies@);
        }
        if e.health > 0 {
            kept.push(e);
            proof {
                assert(kept@ + alive_filter(enemies@) =~= alive_filter(orig));
            }
        } else {
            if wave.enemies_left > 0 {
                wave.enemies_left = wave.enemies_left - 1;
            }
        }
    }
    proof {
        assert(enemies@ =~= Seq::<Enemy>::empty());
        assert(kept@ + alive_filter(enemies@) =~= kept@);
        assert(alive_filter(orig) == kept@);
    }
    *enemies = kept;
}

/// Wave director tick: run the replenish check, then admit up to the
/// per-tick rate of new enemies around the player, each at a random spawn
/// point and of a randomly drawn archetype. Without a player the admit
/// step is skipped.
pub fn spawn_enemies(wave: &mut Wave, player_pos: Option<Vec2i>, enemies: &mut Vec<Enemy>)
    requires
        old(wave).wf(),
        old(wave).number < 0xffff_ffffu32,
        match player_pos {
            Some(p) => in_player_range(p),
            None => true,
        },
    ensures
        final(wave).number == old(wave).replenished_spec().number,
        final(wave).enemies_total == old(wave).replenished_spec().enemies_total,
        final(wave).enemies_left == old(wave).replenished_spec().enemies_left,
        final(wave).enemies_spawned == old(wave).replenished_spec().enemies_spawned
            + old(wave).replenished_spec().admit_count_spec(player_pos is Some, SPAWN_RATE_PER_TICK),
        final(wave).wf(),
        final(enemies)@.len() == old(enemies)@.len()
            + old(wave).replenished_spec().admit_count_spec(player_pos is Some, SPAWN_RATE_PER_TICK),
        forall|j: int| 0 <= j < old(enemies)@.len() ==> final(enemies)@[j] == old(enemies)@[j],
        match player_pos {
            Some(p) => forall|j: int| old(enemies)@.len() <= j < final(enemies)@.len()
                ==> spawned_enemy_ok(#[trigger] final(enemies)@[j], p),
            None => true,
        },
{
    wave.replenish();
    let ghost w1 = *wave;
    if wave.enemies_spawned >= wave.enemies_total {
        return;
    }
    let p = match player_pos {
        None => {
            return;
        },
        Some(p) => p,
    };
    let base = if wave.enemies_left < SPAWN_RATE_PER_TICK {
        wave.enemies_left
    } else {
        SPAWN_RATE_PER_TICK
    };
    let room = wave.enemies_total - wave.enemies_spawned;
    let n = if base < room { base } else { room };
    proof {
        assert(n == w1.admit_count_spec(player_pos is Some, SPAWN_RATE_PER_TICK));
    }
    let ghost orig = enemies@;
    let mut k: u32 = 0;
    while k < n
        invariant
            k <= n,
            n == w1.admit_count_spec(player_pos is Some, SPAWN_RATE_PER_TICK),
            w1.wf(),
            n <= w1.enemies_total - w1.enemies_spawned,
            in_player_range(p),
            wave.number == w1.number,
            wave.enemies_total == w1.enemies_total,
            wave.enemies_left == w1.enemies_left,
            wave.enemies_spawned == w1.enemies_spawned + k,
            enemies@.len() == orig.len() + k,
            forall|j: int| 0 <= j < orig.len() ==> enemies@[j] == orig[j],
            forall|j: int| orig.len() <= j < enemies@.len()
                ==> spawned_enemy_ok(#[trigger] enemies@[j], p),
        decreases n - k,
    {
        let epos = get_random_position_around(p, WORLD_W, WORLD_H);
        let etype = EnemyType::get_rand_enemy();
        let config = etype.get_config();
        enemies.push(Enemy {
            health: config.health,
            speed: config.speed,
            damage: config.damage,
            traits: config.traits,
            pos: epos,
        });
        wave.enemies_spawned = wave.enemies_spawned + 1;
        k = k + 1;
    }
}

/// The damage carried by a trait's trail emissions.
pub open spec fn trait_damage_of(t: EnemyTrait) -> int {
    match t {
        EnemyTrait::LeaveTrail { timer, trail_damage } => trail_damage as int,
    }
}

/// A trait after its timer took one tick.
pub open spec fn tick_trait_spec(t: EnemyTrait, delta_ms: u64) -> EnemyTrait {
    match t {
        EnemyTrait::LeaveTrail { timer, trail_damage } => EnemyTrait::LeaveTrail {
            timer: timer.ticked_spec(delta_ms),
            trail_damage,
        },
    }
}

/// How many trails one trait emits during a tick of `delta_ms`.
pub open spec fn trait_emissions(t: EnemyTrait, delta_ms: u64) -> nat {
    match t {
        EnemyTrait::LeaveTrail { timer, trail_damage } => timer.completions_spec(delta_ms),
    }
}

/// Total trail emissions of a trait sequence during one tick.
pub open spec fn traits_emissions(ts: Seq<EnemyTrait>, delta_ms: u64) -> nat
    decreases ts.len(),
{
    if ts.len() == 0 {
        0
    } else {
        traits_emissions(ts.drop_last(), delta_ms) + trait_emissions(ts.last(), delta_ms)
    }
}

/// Total trail emissions of all enemies during one tick.
pub open spec fn enemies_emissions(es: Seq<Enemy>, delta_ms: u64) -> nat
    decreases es.len(),
{
    if es.len() == 0 {
        0
    } else {
        enemies_emissions(es.drop_last(), delta_ms) + traits_emissions(es.last().traits@, delta_ms)
    }
}

pub proof fn lemma_traits_emissions_take_step(ts: Seq<EnemyTrait>, j: int, delta_ms: u64)
    requires
        0 <= j < ts.len(),
    ensures
        traits_emissions(ts.take(j + 1), delta_ms)
            == traits_emissions(ts.take(j), delta_ms) + trait_emissions(ts[j], delta_ms),
{
    assert(ts.take(j + 1).drop_last() =~= ts.take(j));
    assert(ts.take(j + 1).last() == ts[j]);
}

pub proof fn lemma_enemies_emissions_take_step(es: Seq<Enemy>, i: int, delta_ms: u64)
    requires
        0 <= i < es.len(),
    ensures
        enemies_emissions(es.take(i + 1), delta_ms)
            == enemies_emissions(es.take(i), delta_ms) + traits_emissions(es[i].traits@, delta_ms),
{
    assert(es.take(i + 1).drop_last() =~= es.take(i));
    assert(es.take(i + 1).last() == es[i]);
}

/// One enemy after all its trait timers took one tick; combat state and
/// position are untouched.
pub open spec fn ticked_enemy(post: Enemy, pre: Enemy, delta_ms: u64) -> bool {
    &&& post.health == pre.health
    &&& post.speed == pre.speed
    &&& post.damage == pre.damage
    &&& post.pos == pre.pos
    &&& post.traits@.len() == pre.traits@.len()
    &&& forall|q: int| 0 <= q < pre.traits@.len()
        ==> post.traits@[q] == tick_trait_spec(#[trigger] pre.traits@[q], delta_ms)
}

/// A trail as the trait engine emits it: a fresh one-shot lifetime, the
/// fixed radius, and position and damage taken from some enemy's trail
/// trait.
pub open spec fn emitted_trail_ok(t: Trail, es: Seq<Enemy>) -> bool {
    &&& t.lifetime == (Timer { elapsed_ms: 0, duration_ms: TRAIL_LIFETIME_MS, mode: TimerMode::Once })
    &&& t.radius == TRAIL_RADIUS
    &&& trail_wf(t)
    &&& exists|i: int, k: int|
        0 <= i < es.len() && 0 <= k < es[i].traits@.len()
            && t.pos == es[i].pos && t.damage == trait_damage_of(#[trigger] es[i].traits@[k])
}

/// A fresh trail hazard at `position` carrying `damage`.
pub fn spawn_trail(position: Vec2i, damage: i64) -> (t: Trail)
    ensures
        t == (Trail {
            damage,
            lifetime: Timer { elapsed_ms: 0, duration_ms: TRAIL_LIFETIME_MS, mode: TimerMode::Once },
            radius: TRAIL_RADIUS,
            pos: position,
        }),
        trail_wf(t),
{
    Trail {
        damage,
        lifetime: Timer::new(TRAIL_LIFETIME_MS, TimerMode::Once),
        radius: TRAIL_RADIUS,
        pos: position,
    }
}

/// Trait engine tick: every enemy's trait timers accumulate the tick's
/// elapsed time, and each completed trail interval emits exactly one trail
/// at the enemy's position, however coarse the tick.
pub fn apply_enemy_traits(enemies: &mut Vec<Enemy>, trails: &mut Vec<Trail>, delta_ms: u64)
    requires
        forall|j: int| 0 <= j < old(enemies)@.len() ==> enemy_wf(#[trigger] old(enemies)@[j]),
        delta_ms <= TIME_LIMIT_MS,
    ensures
        final(enemies)@.len() == old(enemies)@.len(),
        forall|j: int| 0 <= j < old(enemies)@.len()
            ==> ticked_enemy(#[trigger] final(enemies)@[j], old(enemies)@[j], delta_ms),
        forall|j: int| 0 <= j < final(enemies)@.len() ==> enemy_wf(#[trigger] final(enemies)@[j]),
        final(trails)@.len() == old(trails)@.len() + enemies_emissions(old(enemies)@, delta_ms),
        forall|j: int| 0 <= j < old(trails)@.len() ==> final(trails)@[j] == old(trails)@[j],
        forall|j: int| old(trails)@.len() <= j < final(trails)@.len()
            ==> emitted_trail_ok(#[trigger] final(trails)@[j], old(enemies)@),
{
    let ghost orig_es = enemies@;
    let ghost orig_trails = trails@;
    let n = enemies.len();
    let mut i: usize = 0;
    while i < n
        invariant
            n == enemies@.len() == orig_es.len(),
            i <= n,
            delta_ms <= TIME_LIMIT_MS,
            forall|j: int| 0 <= j < n ==> enemy_wf(#[trigger] orig_es[j]),
            forall|j: int| i <= j < n ==> #[trigger] enemies@[j] == orig_es[j],
            forall|j: int| 0 <= j < i ==> ticked_enemy(#[trigger] enemies@[j], orig_es[j], delta_ms),
            forall|j: int| 0 <= j < i ==> enemy_wf(#[trigger] enemies@[j]),
            trails@.len() == orig_trails.len() + enemies_emissions(orig_es.take(i as int), delta_ms),
            forall|j: int| 0 <= j < orig_trails.len() ==> trails@[j] == orig_trails[j],
            forall|j: int| orig_trails.len() <= j < trails@.len()
                ==> emitted_trail_ok(#[trigger] trails@[j], orig_es),
        decreases n - i,
    {
        let epos = enemies[i].pos;
        let m = enemies[i].traits.len();
        let ghost orig_tr = orig_es[i as int].traits@;
        let mut j: usize = 0;
        while j < m
            invariant
                n == enemies@.len() == orig_es.len(),
                i < n,
                j <= m,
                delta_ms <= TIME_LIMIT_MS,
                m == enemies@[i as int].traits@.len() == orig_tr.len(),
                orig_tr == orig_es[i as int].traits@,
                epos == orig_es[i as int].pos,
                forall|jj: int| 0 <= jj < n ==> enemy_wf(#[trigger] orig_es[jj]),
                forall|jj: int| i < jj < n ==> #[trigger] enemies@[jj] == orig_es[jj],
                forall|jj: int| 0 <= jj < i ==> ticked_enemy(#[trigger] enemies@[jj], orig_es[jj], delta_ms),
                forall|jj: int| 0 <= jj < i ==> enemy_wf(#[trigger] enemies@[jj]),
                enemies@[i as int].health == orig_es[i as int].health,
                enemies@[i as int].speed == orig_es[i as int].speed,
                enemies@[i as int].damage == orig_es[i as int].damage,
                enemies@[i as int].pos == orig_es[i as int].pos,
                forall|q: int| j <= q < m ==> #[trigger] enemies@[i as int].traits@[q] == orig_tr[q],
                forall|q: int| 0 <= q < j
                    ==> #[trigger] enemies@[i as int].traits@[q] == tick_trait_spec(orig_tr[q], delta_ms),
                forall|q: int| 0 <= q < j ==> trait_wf(#[trigger] enemies@[i as int].traits@[q]),
                trails@.len() == orig_trails.len() + enemies_emissions(orig_es.take(i as int), delta_ms)
                    + traits_emissions(orig_tr.take(j as int), delta_ms),
                forall|jj: int| 0 <= jj < orig_trails.len() ==> trails@[jj] == orig_trails[jj],
                forall|jj: int| orig_trails.len() <= jj < trails@.len()
                    ==> emitted_trail_ok(#[trigger] trails@[jj], orig_es),
            decreases m - j,
        {
            let t0 = enemies[i].traits[j];
            let ghost pre_t = t0;
            match t0 {
                EnemyTrait::LeaveTrail { timer, trail_damage } => {
                    let mut tm = timer;
                    let c = tm.tick(delta_ms);
                    let ghost trails_base = trails@.len();
                    let mut q: u64 = 0;
                    while q < c
                        invariant
                            q <= c,
                            trails@.len() == trails_base + q,
                            trails_base >= orig_trails.len(),
                            epos == orig_es[i as int].pos,
                            0 <= i < orig_es.len(),
                            0 <= (j as int) < orig_es[i as int].traits@.len(),
                            orig_es[i as int].traits@[j as int] == pre_t,
                            trait_damage_of(pre_t) == trail_damage,
                            forall|jj: int| 0 <= jj < orig_trails.len() ==> trails@[jj] == orig_trails[jj],
                            forall|jj: int| orig_trails.len() <= jj < trails@.len()
                                ==> emitted_trail_ok(#[trigger] trails@[jj], orig_es),
                        decreases c - q,
                    {
                        trails.push(spawn_trail(epos, trail_damage));
                        q = q + 1;
                    }
                    enemies[i].traits[j] = EnemyTrait::LeaveTrail { timer: tm, trail_damage };
                },
            }
            proof {
                lemma_traits_emissions_take_step(orig_tr, j as int, delta_ms);
            }
            j = j + 1;
        }
        proof {
            assert(orig_tr.take(m as int) =~= orig_tr);
            lemma_enemies_emissions_take_step(orig_es, i as int, delta_ms);
        }
        i = i + 1;
    }
    proof {
        assert(orig_es.take(n as int) =~= orig_es);
    }
}

/// A trail after its one-shot lifetime took one tick.
pub open spec fn tick_trail_spec(t: Trail, delta_ms: u64) -> Trail {
    Trail { lifetime: t.lifetime.ticked_spec(delta_ms), ..t }
}

/// The trails that outlive a tick of `delta_ms`, each with its lifetime
/// advanced: a trail survives exactly when its accumulated lifetime stays
/// below the one-shot threshold.
pub open spec fn surviving_trails(s: Seq<Trail>, delta_ms: u64) -> Seq<Trail>
    decreases s.len(),
{
    if s.len() == 0 {
        Seq::empty()
    } else {
        let rest = surviving_trails(s.subrange(1, s.len() as int), delta_ms);
        if s[0].lifetime.elapsed_ms + delta_ms < s[0].lifetime.duration_ms {
            seq![tick_trail_spec(s[0], delta_ms)] + rest
        } else {
            rest
        }
    }
}

/// Trail sweep: advance every trail's one-shot lifetime and remove each
/// trail whose lifetime has completed.
pub fn update_trails(trails: &mut Vec<Trail>, delta_ms: u64)
    requires
        forall|j: int| 0 <= j < old(trails)@.len() ==> trail_wf(#[trigger] old(trails)@[j]),
        delta_ms <= TIME_LIMIT_MS,
    ensures
        final(trails)@ == surviving_trails(old(trails)@, delta_ms),
        forall|j: int| 0 <= j < final(trails)@.len() ==> trail_wf(#[trigger] final(trails)@[j]),
{
    let ghost orig = trails@;
    let mut kept: Vec<Trail> = Vec::new();
    proof {
        assert(kept@ + surviving_trails(trails@, delta_ms) =~= surviving_trails(orig, delta_ms));
    }
    while trails.len() > 0
        invariant
            delta_ms <= TIME_LIMIT_MS,
            forall|j: int| 0 <= j < trails@.len() ==> trail_wf(#[trigger] trails@[j]),
            forall|j: int| 0 <= j < kept@.len() ==> trail_wf(#[trigger] kept@[j]),
            surviving_trails(orig, delta_ms) == kept@ + surviving_trails(trails@, delta_ms),
        decreases trails@.len(),
    {
        let ghost cur = trails@;
        let mut t = trails.remove(0);
        proof {
            assert(cur.subrange(1, cur.len() as int) =~= trails@);
        }
        let _completions: u64 = t.lifetime.tick(delta_ms);
        if !t.lifetime.finished() {
            kept.push(t);
            proof {
                assert(kept@ + surviving_trails(trails@, delta_ms) =~= surviving_trails(orig, delta_ms));
            }
        }
    }
    proof {
        assert(trails@ =~= Seq::<Trail>::empty());
        assert(kept@ + surviving_trails(trails@, delta_ms) =~= kept@);
    }
    *trails = kept;
}

/// Granularity independence of trail emission: over two consecutive
/// ticks a trail trait emits exactly as many trails in total as over one
/// combined tick, however the elapsed time is split.
pub proof fn lemma_trait_emissions_accumulate(t: EnemyTrait, d1: u64, d2: u64)
    requires
        trait_wf(t),
        d1 <= TIME_LIMIT_MS,
        d2 <= TIME_LIMIT_MS,
    ensures
        trait_emissions(t, d1) + trait_emissions(tick_trait_spec(t, d1), d2)
            == trait_emissions(t, (d1 + d2) as u64),
        tick_trait_spec(tick_trait_spec(t, d1), d2) == tick_trait_spec(t, (d1 + d2) as u64),
{
    match t {
        EnemyTrait::LeaveTrail { timer, trail_damage } => {
            crate::timer::lemma_repeating_tick_accumulates(timer, d1, d2);
        },
    }
}

} // verus!
