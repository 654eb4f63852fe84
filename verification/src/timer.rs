//! Accumulating timers, the only clock the simulation sees: a caller feeds
//! every timer the tick's elapsed milliseconds. A repeating timer can
//! complete several times in one large tick; a one-shot timer clamps at its
//! threshold and reports completion once.

use vstd::prelude::*;
use crate::TIME_LIMIT_MS;

verus! {

/// Whether a timer starts over after completing or stays finished.
#[derive(Clone, Copy, PartialEq, Eq, Structural, Debug)]
pub enum TimerMode {
    Repeating,
    Once,
}

/// An accumulated-time counter against a threshold.
#[derive(Clone, Copy, PartialEq, Eq, Structural, Debug)]
pub struct Timer {
    pub elapsed_ms: u64,
    pub duration_ms: u64,
    pub mode: TimerMode,
}

impl Timer {
    /// A timer is well formed when its threshold is positive and bounded and
    /// its accumulated time sits inside one period.
    pub open spec fn wf(self) -> bool {
        &&& 0 < self.duration_ms <= TIME_LIMIT_MS
        &&& self.mode == TimerMode::Repeating ==> self.elapsed_ms < self.duration_ms
        &&& self.mode == TimerMode::Once ==> self.elapsed_ms <= self.duration_ms
    }

    /// How many times a tick of `delta_ms` completes this timer.
    pub open spec fn completions_spec(self, delta_ms: u64) -> nat {
        match self.mode {
            TimerMode::Repeating => ((self.elapsed_ms + delta_ms) / (self.duration_ms as int)) as nat,
            TimerMode::Once => {
                if self.elapsed_ms < self.duration_ms
                    && self.elapsed_ms + delta_ms >= self.duration_ms {
                    1
                } else {
                    0
                }
            },
        }
    }

    /// The timer state after a tick of `delta_ms`.
    pub open spec fn ticked_spec(self, delta_ms: u64) -> Timer {
        match self.mode {
            TimerMode::Repeating => Timer {
                elapsed_ms: ((self.elapsed_ms + delta_ms) % (self.duration_ms as int)) as u64,
                ..self
            },
            TimerMode::Once => Timer {
                elapsed_ms: if self.elapsed_ms + delta_ms <= self.duration_ms {
                    (self.elapsed_ms + delta_ms) as u64
                } else {
                    self.duration_ms
                },
                ..self
            },
        }
    }

    /// A fresh timer with nothing accumulated.
    pub fn new(duration_ms: u64, mode: TimerMode) -> (t: Timer)
        requires
            0 < duration_ms <= TIME_LIMIT_MS,
        ensures
            t == (Timer { elapsed_ms: 0, duration_ms, mode }),
            t.wf(),
    {
        Timer { elapsed_ms: 0, duration_ms, mode }
    }

    /// Advance the timer by one tick and report how many times it completed.
    pub fn tick(&mut self, delta_ms: u64) -> (completions: u64)
        requires
            old(self).wf(),
            delta_ms <= TIME_LIMIT_MS,
        ensures
            completions == old(self).completions_spec(delta_ms),
            *final(self) == old(self).ticked_spec(delta_ms),
            final(self).wf(),
    {
        match self.mode {
            TimerMode::Repeating => {
                let total = self.elapsed_ms + delta_ms;
                let c = total / self.duration_ms;
                self.elapsed_ms = total % self.duration_ms;
                c
            },
            TimerMode::Once => {
                let was_running = self.elapsed_ms < self.duration_ms;
                let total = self.elapsed_ms + delta_ms;
                if total <= self.duration_ms {
                    self.elapsed_ms = total;
                } else {
                    self.elapsed_ms = self.duration_ms;
                }
                if was_running && self.elapsed_ms >= self.duration_ms {
                    1
                } else {
                    0
                }
            },
        }
    }

    /// Whether the timer has reached its threshold.
    pub fn finished(&self) -> (r: bool)
        ensures
            r == (self.elapsed_ms >= self.duration_ms),
    {
        self.elapsed_ms >= self.duration_ms
    }
}

/// Granularity independence of a repeating timer: splitting a tick in two
/// completes exactly as many intervals in total as the one combined tick,
/// and leaves the same accumulated remainder.
pub proof fn lemma_repeating_tick_accumulates(t: Timer, d1: u64, d2: u64)
    requires
        t.wf(),
        t.mode == TimerMode::Repeating,
        d1 <= TIME_LIMIT_MS,
        d2 <= TIME_LIMIT_MS,
    ensures
        t.completions_spec(d1) + t.ticked_spec(d1).completions_spec(d2)
            == t.completions_spec((d1 + d2) as u64),
        t.ticked_spec(d1).ticked_spec(d2) == t.ticked_spec((d1 + d2) as u64),
{
    let dur = t.duration_ms as int;
    let e = t.elapsed_ms as int;
    let a = e + d1;
    vstd::arithmetic::div_mod::lemma_div_pos_is_pos(a, dur);
    vstd::arithmetic::div_mod::lemma_fundamental_div_mod(a, dur);
    vstd::arithmetic::div_mod::lemma_mod_division_less_than_divisor(a, dur);
    let q = a / dur;
    let r = a % dur;
    let s = r + d2;
    vstd::arithmetic::div_mod::lemma_div_pos_is_pos(s, dur);
    vstd::arithmetic::div_mod::lemma_fundamental_div_mod(s, dur);
    vstd::arithmetic::div_mod::lemma_mod_division_less_than_divisor(s, dur);
    vstd::arithmetic::mul::lemma_mul_is_distributive_add(dur, q, s / dur);
    assert(e + d1 + d2 == dur * (q + s / dur) + s % dur);
    vstd::arithmetic::div_mod::lemma_div_multiples_vanish_fancy(q + s / dur, s % dur, dur);
    assert((e + d1 + d2) / dur == q + s / dur);
    vstd::arithmetic::div_mod::lemma_mod_multiples_vanish(q + s / dur, s % dur, dur);
    vstd::arithmetic::div_mod::lemma_small_mod((s % dur) as nat, dur as nat);
    assert((e + d1 + d2) % dur == s % dur);
}

} // verus!
