//! The wave director's record: wave number and the spawn and alive
//! counters, with the doubling schedule of enemies per wave.

use vstd::prelude::*;
use crate::{MAX_WAVE_EXPONENT, WAVE_BASE_ENEMIES};

verus! {

/// Powers of two.
pub open spec fn pow2(n: nat) -> nat
    decreases n,
{
    if n == 0 {
        1
    } else {
        2 * pow2((n - 1) as nat)
    }
}

pub proof fn lemma_pow2_pos(n: nat)
    ensures
        pow2(n) >= 1,
    decreases n,
{
    if n != 0 {
        lemma_pow2_pos((n - 1) as nat);
    }
}

pub proof fn lemma_pow2_monotone(a: nat, b: nat)
    requires
        a <= b,
    ensures
        pow2(a) <= pow2(b),
    decreases b,
{
    if a < b {
        lemma_pow2_monotone(a, (b - 1) as nat);
        lemma_pow2_pos((b - 1) as nat);
    }
}

/// How many enemies a wave schedules: ten, doubled per wave, held at the
/// cap exponent so the count fits in `u32`.
pub open spec fn enemies_per_wave_spec(n: nat) -> nat {
    if n <= MAX_WAVE_EXPONENT as nat {
        (WAVE_BASE_ENEMIES as nat) * pow2(n)
    } else {
        (WAVE_BASE_ENEMIES as nat) * pow2(MAX_WAVE_EXPONENT as nat)
    }
}

/// Consecutive waves below the cap schedule strictly more enemies.
pub proof fn lemma_enemies_per_wave_strictly_increasing(n: nat)
    requires
        n < MAX_WAVE_EXPONENT as nat,
    ensures
        enemies_per_wave_spec(n) < enemies_per_wave_spec(n + 1),
{
    lemma_pow2_pos(n);
    assert(pow2(n + 1) == 2 * pow2(n));
}

/// The number of enemies scheduled for the given wave.
pub fn calculate_enemies_per_wave(wave: u32) -> (count: u32)
    ensures
        count == enemies_per_wave_spec(wave as nat),
{
    let e: u32 = if wave > MAX_WAVE_EXPONENT {
        MAX_WAVE_EXPONENT
    } else {
        wave
    };
    let mut count: u32 = WAVE_BASE_ENEMIES;
    let mut i: u32 = 0;
    while i < e
        invariant
            i <= e <= MAX_WAVE_EXPONENT,
            count == (WAVE_BASE_ENEMIES as nat) * pow2(i as nat),
        decreases e - i,
    {
        proof {
            lemma_pow2_monotone((i + 1) as nat, MAX_WAVE_EXPONENT as nat);
            reveal_with_fuel(pow2, 32);
            assert(pow2(MAX_WAVE_EXPONENT as nat) == 268435456);
            assert(pow2((i + 1) as nat) == 2 * pow2(i as nat));
        }
        count = count * 2;
        i = i + 1;
    }
    count
}

/// The shared per-session wave record.
#[derive(Clone, Copy, PartialEq, Eq, Structural, Debug)]
pub struct Wave {
    pub number: u32,
    pub enemies_total: u32,
    pub enemies_left: u32,
    pub enemies_spawned: u32,
}

impl Wave {
    /// Never more enemies spawned than the wave scheduled.
    pub open spec fn wf(self) -> bool {
        self.enemies_spawned <= self.enemies_total
    }

    /// Replenish: exactly when no enemy of the current wave is left alive,
    /// schedule the next wave's batch and reset the spawn counter.
    pub open spec fn replenished_spec(self) -> Wave {
        if self.enemies_left == 0 {
            let count = enemies_per_wave_spec(self.number as nat) as u32;
            Wave {
                number: (self.number + 1) as u32,
                enemies_total: count,
                enemies_left: count,
                enemies_spawned: 0,
            }
        } else {
            self
        }
    }

    /// Run the replenish check of the wave director.
    pub fn replenish(&mut self)
        requires
            old(self).wf(),
            old(self).number < 0xffff_ffffu32,
        ensures
            *final(self) == old(self).replenished_spec(),
            final(self).wf(),
    {
        if self.enemies_left == 0 {
            let count = calculate_enemies_per_wave(self.number);
            self.number = self.number + 1;
            self.enemies_left = count;
            self.enemies_total = count;
            self.enemies_spawned = 0;
        }
    }

    /// How many enemies the admit pass lets in this tick: at most the
    /// per-tick rate, never more than are left to kill, and never past the
    /// wave's schedule. Zero without a player to spawn around.
    pub open spec fn admit_count_spec(self, has_player: bool, rate: u32) -> u32 {
        if !has_player || self.enemies_spawned >= self.enemies_total {
            0u32
        } else {
            let room = (self.enemies_total - self.enemies_spawned) as u32;
            let base = if self.enemies_left < rate {
                self.enemies_left
            } else {
                rate
            };
            if base < room {
                base
            } else {
                room
            }
        }
    }
}

impl Default for Wave {
    /// A session starts before wave zero with empty counters, so the first
    /// replenish schedules wave zero's batch.
    fn default() -> (w: Wave)
        ensures
            w == (Wave { number: 0, enemies_total: 0, enemies_left: 0, enemies_spawned: 0 }),
            w.wf(),
    {
        Wave { number: 0, enemies_total: 0, enemies_left: 0, enemies_spawned: 0 }
    }
}

} // verus!
