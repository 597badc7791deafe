//! Countdown timers, advanced by the time that passed since the last tick.

use vstd::prelude::*;

verus! {

/// Microseconds in one second.
pub const MICROS_PER_SECOND: u64 = 1_000_000;

/// What a timer does once its time is up.
#[derive(Clone, Copy, Debug, PartialEq, Eq, Structural)]
pub enum TimerMode {
    /// Runs out once and stays finished.
    Once,
    /// Starts over each time it runs out.
    Repeating,
}

/// A countdown over a fixed duration, in microseconds.
#[derive(Clone, Copy, Debug, PartialEq, Eq, Structural)]
pub struct Timer {
    pub duration: u64,
    pub elapsed: u64,
    pub mode: TimerMode,
    pub finished: bool,
    pub times_finished_this_tick: u32,
}

/// `a + b`, stopping at the largest `u64`.
pub open spec fn saturating_sum(a: int, b: int) -> int {
    if a + b > u64::MAX {
        u64::MAX as int
    } else {
        a + b
    }
}

/// How often a repeating timer of `duration` ran out over `elapsed`.
pub open spec fn laps(elapsed: int, duration: int) -> int {
    if duration == 0 {
        u32::MAX as int
    } else if elapsed / duration > u32::MAX {
        u32::MAX as int
    } else {
        elapsed / duration
    }
}

/// A timer over `duration` that has not run at all.
pub open spec fn fresh_timer(duration: u64, mode: TimerMode) -> Timer {
    Timer { duration, elapsed: 0, mode, finished: false, times_finished_this_tick: 0 }
}

impl Timer {
    /// The elapsed time never passes the duration once a tick is over.
    pub open spec fn wf(self) -> bool {
        &&& self.elapsed <= self.duration
        &&& self.mode == TimerMode::Once && self.finished ==> self.elapsed == self.duration
    }

    /// The timer after `delta` more microseconds.
    pub open spec fn after_tick(self, delta: u64) -> Timer {
        let total = saturating_sum(self.elapsed as int, delta as int);
        if self.mode == TimerMode::Once && self.finished {
            Timer { times_finished_this_tick: 0, ..self }
        } else if total < self.duration {
            Timer { elapsed: total as u64, finished: false, times_finished_this_tick: 0, ..self }
        } else if self.mode == TimerMode::Once {
            Timer { elapsed: self.duration, finished: true, times_finished_this_tick: 1, ..self }
        } else {
            Timer {
                elapsed: if self.duration == 0 {
                    0
                } else {
                    (total % (self.duration as int)) as u64
                },
                finished: true,
                times_finished_this_tick: laps(total, self.duration as int) as u32,
                ..self
            }
        }
    }

    /// A fresh timer over `duration` microseconds.
    pub fn new(duration: u64, mode: TimerMode) -> (t: Timer)
        ensures
            t == fresh_timer(duration, mode),
            t.wf(),
    {
        Timer { duration, elapsed: 0, mode, finished: false, times_finished_this_tick: 0 }
    }

    /// A fresh timer over `seconds` whole seconds.
    pub fn from_seconds(seconds: u32, mode: TimerMode) -> (t: Timer)
        ensures
            t == (Timer {
                duration: (seconds * MICROS_PER_SECOND) as u64,
                elapsed: 0,
                mode,
                finished: false,
                times_finished_this_tick: 0,
            }),
    {
        Timer::new(seconds as u64 * MICROS_PER_SECOND, mode)
    }

    /// Advances the timer by `delta` microseconds.
    pub fn tick(&mut self, delta: u64)
        ensures
            *final(self) == old(self).after_tick(delta),
    {
        if self.mode == TimerMode::Once && self.finished {
            self.times_finished_this_tick = 0;
            return ;
        }
        let total: u64 = if delta > u64::MAX - self.elapsed {
            u64::MAX
        } else {
            self.elapsed + delta
        };
        if total < self.duration {
            self.elapsed = total;
            self.finished = false;
            self.times_finished_this_tick = 0;
        } else if self.mode == TimerMode::Once {
            self.elapsed = self.duration;
            self.finished = true;
            self.times_finished_this_tick = 1;
        } else {
            self.finished = true;
            if self.duration == 0 {
                self.elapsed = 0;
                self.times_finished_this_tick = u32::MAX;
            } else {
                let count: u64 = total / self.duration;
                self.elapsed = total % self.duration;
                self.times_finished_this_tick = if count > u32::MAX as u64 {
                    u32::MAX
                } else {
                    count as u32
                };
            }
        }
    }

    /// The time is up.
    pub fn finished(&self) -> (done: bool)
        ensures
            done == self.finished,
    {
        self.finished
    }

    /// The time ran out during the last tick.
    pub fn just_finished(&self) -> (done: bool)
        ensures
            done == (self.times_finished_this_tick > 0),
    {
        self.times_finished_this_tick > 0
    }

    pub fn elapsed(&self) -> (e: u64)
        ensures
            e == self.elapsed,
    {
        self.elapsed
    }

    pub fn duration(&self) -> (d: u64)
        ensures
            d == self.duration,
    {
        self.duration
    }
}

/// A tick keeps a timer valid; a one-shot timer that has run out stays so,
/// and one that has not run out finishes exactly when the time that passed
/// reaches its duration.
pub proof fn lemma_tick_keeps_timer_valid(t: Timer, delta: u64)
    requires
        t.wf(),
    ensures
        t.after_tick(delta).wf(),
        t.after_tick(delta).duration == t.duration,
        t.after_tick(delta).mode == t.mode,
        t.mode == TimerMode::Once && t.finished ==> t.after_tick(delta).finished,
        t.mode == TimerMode::Once && !t.finished ==> (t.after_tick(delta).finished <==> t.elapsed
            + delta >= t.duration),
        t.mode == TimerMode::Once ==> (t.after_tick(delta).times_finished_this_tick > 0 <==> !t.finished
            && t.elapsed + delta >= t.duration),
{
    let total = saturating_sum(t.elapsed as int, delta as int);
    if t.mode == TimerMode::Repeating && total >= t.duration && t.duration > 0 {
        assert(0 <= total % (t.duration as int) < t.duration) by (nonlinear_arith)
            requires
                t.duration > 0,
                total >= 0,
        ;
    }
}

} // verus!
