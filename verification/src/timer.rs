//! A timer that accumulates frame deltas towards a duration.

use vstd::prelude::*;
use crate::constants::NANOS_PER_SEC;

verus! {

/// What a timer does once its duration has elapsed.
#[derive(Debug, Clone, Copy, PartialEq, Eq, Structural, Hash)]
pub enum TimerMode {
    /// It stays finished until it is reset.
    Once,
    /// It starts over, keeping the time beyond its duration.
    Repeating,
}

/// Elapsed time on the way to a duration, both in nanoseconds.
#[derive(Debug, Clone, Copy, PartialEq, Eq, Structural, Hash)]
pub struct Timer {
    pub duration: u64,
    pub elapsed: u64,
    pub mode: TimerMode,
    pub finished: bool,
    pub times_finished_this_tick: u32,
}

/// How many times `total` holds `duration`, as far as the counter of a timer can tell.
pub open spec fn times_crossed(total: int, duration: int) -> u32
    recommends
        duration > 0,
        total >= 0,
{
    if total / duration > u32::MAX {
        u32::MAX
    } else {
        (total / duration) as u32
    }
}

impl Timer {
    /// The timer after `delta` more nanoseconds.
    ///
    /// A finished one-shot timer stays as it is and no longer reports that it just
    /// finished. A repeating timer wraps around its duration and counts how often it did.
    pub open spec fn ticked(self, delta: u64) -> Timer {
        let total = self.elapsed + delta;
        if self.mode == TimerMode::Once && self.finished {
            Timer { times_finished_this_tick: 0, ..self }
        } else if total < self.duration {
            Timer { elapsed: total as u64, finished: false, times_finished_this_tick: 0, ..self }
        } else if self.mode == TimerMode::Once {
            Timer { elapsed: self.duration, finished: true, times_finished_this_tick: 1, ..self }
        } else if self.duration == 0 {
            Timer { elapsed: 0, finished: true, times_finished_this_tick: u32::MAX, ..self }
        } else {
            Timer {
                elapsed: (total % (self.duration as int)) as u64,
                finished: true,
                times_finished_this_tick: times_crossed(total, self.duration as int),
                ..self
            }
        }
    }

    /// The timer wound back to its start.
    pub open spec fn rewound(self) -> Timer {
        Timer { elapsed: 0, finished: false, times_finished_this_tick: 0, ..self }
    }

    /// Time left until the duration is reached.
    pub open spec fn spec_remaining(&self) -> u64 {
        if self.elapsed >= self.duration {
            0
        } else {
            (self.duration - self.elapsed) as u64
        }
    }

    /// Whether the last tick reached the duration.
    pub open spec fn spec_just_finished(&self) -> bool {
        self.times_finished_this_tick > 0
    }

    /// A fresh timer over `duration` nanoseconds.
    pub fn new(duration: u64, mode: TimerMode) -> (t: Timer)
        ensures
            t == (Timer {
                duration,
                elapsed: 0,
                mode,
                finished: false,
                times_finished_this_tick: 0,
            }),
    {
        Timer { duration, elapsed: 0, mode, finished: false, times_finished_this_tick: 0 }
    }

    /// A fresh timer over `seconds` whole seconds.
    pub fn from_seconds(seconds: u32, mode: TimerMode) -> (t: Timer)
        ensures
            t == (Timer {
                duration: (seconds * NANOS_PER_SEC) as u64,
                elapsed: 0,
                mode,
                finished: false,
                times_finished_this_tick: 0,
            }),
    {
        Timer::new(seconds as u64 * NANOS_PER_SEC, mode)
    }

    /// Advances the timer by `delta` nanoseconds.
    pub fn tick(&mut self, delta: u64)
        ensures
            *final(self) == old(self).ticked(delta),
    {
        if self.mode == TimerMode::Once && self.finished {
            self.times_finished_this_tick = 0;
            return;
        }
        let total: u128 = self.elapsed as u128 + delta as u128;
        let duration: u128 = self.duration as u128;
        if total < duration {
            self.elapsed = total as u64;
            self.finished = false;
            self.times_finished_this_tick = 0;
        } else if self.mode == TimerMode::Once {
            self.elapsed = self.duration;
            self.finished = true;
            self.times_finished_this_tick = 1;
        } else if self.duration == 0 {
            self.elapsed = 0;
            self.finished = true;
            self.times_finished_this_tick = u32::MAX;
        } else {
            let times: u128 = total / duration;
            let rest: u128 = total % duration;
            self.elapsed = rest as u64;
            self.finished = true;
            self.times_finished_this_tick = if times > u32::MAX as u128 {
                u32::MAX
            } else {
                times as u32
            };
        }
    }

    /// Winds the timer back to its start.
    pub fn reset(&mut self)
        ensures
            *final(self) == old(self).rewound(),
    {
        self.elapsed = 0;
        self.finished = false;
        self.times_finished_this_tick = 0;
    }

    #[verifier::when_used_as_spec(spec_remaining)]
    pub fn remaining(&self) -> (r: u64)
        ensures
            r == self.spec_remaining(),
    {
        if self.elapsed >= self.duration {
            0
        } else {
            self.duration - self.elapsed
        }
    }

    /// Whole seconds left until the duration is reached.
    pub fn remaining_secs(&self) -> (r: u64)
        ensures
            r == self.spec_remaining() / NANOS_PER_SEC,
    {
        self.remaining() / NANOS_PER_SEC
    }

    pub fn elapsed(&self) -> (r: u64)
        ensures
            r == self.elapsed,
    {
        self.elapsed
    }

    pub fn duration(&self) -> (r: u64)
        ensures
            r == self.duration,
    {
        self.duration
    }

    pub fn mode(&self) -> (r: TimerMode)
        ensures
            r == self.mode,
    {
        self.mode
    }

    pub fn finished(&self) -> (r: bool)
        ensures
            r == self.finished,
    {
        self.finished
    }

    #[verifier::when_used_as_spec(spec_just_finished)]
    pub fn just_finished(&self) -> (r: bool)
        ensures
            r == self.spec_just_finished(),
    {
        self.times_finished_this_tick > 0
    }

    pub fn times_finished_this_tick(&self) -> (r: u32)
        ensures
            r == self.times_finished_this_tick,
    {
        self.times_finished_this_tick
    }
}

/// The time that a run of ticks adds up to.
pub open spec fn time_passed(deltas: Seq<u64>) -> int
    decreases deltas.len(),
{
    if deltas.len() == 0 {
        0
    } else {
        deltas[0] + time_passed(deltas.drop_first())
    }
}

/// On how many ticks of a run the timer reports that it just finished.
pub open spec fn times_fired(timer: Timer, deltas: Seq<u64>) -> nat
    decreases deltas.len(),
{
    if deltas.len() == 0 {
        0
    } else {
        let ticked = timer.ticked(deltas[0]);
        let fired: nat = if ticked.spec_just_finished() {
            1
        } else {
            0
        };
        fired + times_fired(ticked, deltas.drop_first())
    }
}

/// A one-shot timer that has finished reports it on no later tick.
pub proof fn lemma_finished_timer_stays_silent(timer: Timer, deltas: Seq<u64>)
    requires
        timer.mode == TimerMode::Once,
        timer.finished,
    ensures
        times_fired(timer, deltas) == 0,
    decreases deltas.len(),
{
    if deltas.len() > 0 {
        lemma_finished_timer_stays_silent(timer.ticked(deltas[0]), deltas.drop_first());
    }
}

/// A one-shot timer reports that it just finished on exactly one tick of a run that
/// reaches its duration, and on none of a run that does not, however the time is cut
/// into ticks.
pub proof fn lemma_once_timer_fires_once(timer: Timer, deltas: Seq<u64>)
    requires
        timer.mode == TimerMode::Once,
        !timer.finished,
    ensures
        times_fired(timer, deltas) == if deltas.len() > 0 && timer.elapsed + time_passed(deltas)
            >= timer.duration {
            1nat
        } else {
            0nat
        },
    decreases deltas.len(),
{
    lemma_time_passes(deltas);
    if deltas.len() > 0 {
        let ticked = timer.ticked(deltas[0]);
        lemma_time_passes(deltas.drop_first());
        if ticked.finished {
            lemma_finished_timer_stays_silent(ticked, deltas.drop_first());
        } else {
            lemma_once_timer_fires_once(ticked, deltas.drop_first());
        }
    }
}

proof fn lemma_time_passes(deltas: Seq<u64>)
    ensures
        time_passed(deltas) >= 0,
    decreases deltas.len(),
{
    if deltas.len() > 0 {
        lemma_time_passes(deltas.drop_first());
    }
}

} // verus!
