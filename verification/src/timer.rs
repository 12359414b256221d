//! A timer over whole nanoseconds, in a one-shot and a repeating mode.
//! Cooldowns, combo windows, wave intervals and delayed casts all run on it.

use vstd::prelude::*;

verus! {

/// Whether a timer stops once it has run out or starts over.
#[derive(Copy, Clone, Debug, PartialEq, Eq, Structural)]
pub enum TimerMode {
    Once,
    Repeating,
}

/// What a timer holds, as plain values.
#[derive(Copy, Clone, Debug, PartialEq, Eq, Structural)]
pub struct TimerView {
    pub duration: u64,
    pub elapsed: u64,
    pub mode: TimerMode,
    pub finished: bool,
    pub times_finished_this_tick: u32,
}

/// A timer that counts `elapsed` up towards `duration`.
#[derive(Copy, Clone, Debug)]
pub struct Timer {
    duration: u64,
    elapsed: u64,
    mode: TimerMode,
    finished: bool,
    times_finished_this_tick: u32,
}

impl Timer {
    #[verifier::type_invariant]
    spec fn within_duration(&self) -> bool {
        self.elapsed <= self.duration
    }
}

impl View for Timer {
    type V = TimerView;

    closed spec fn view(&self) -> TimerView {
        TimerView {
            duration: self.duration,
            elapsed: self.elapsed,
            mode: self.mode,
            finished: self.finished,
            times_finished_this_tick: self.times_finished_this_tick,
        }
    }
}

/// A timer never runs past its duration.
pub open spec fn timer_wf(t: TimerView) -> bool {
    t.elapsed <= t.duration
}

/// `a + b`, held at `u64::MAX`.
pub open spec fn saturating_sum(a: u64, b: u64) -> u64 {
    if a + b > u64::MAX {
        u64::MAX
    } else {
        (a + b) as u64
    }
}

/// The timer after `delta` nanoseconds have passed. A one-shot timer that
/// has finished stays as it is. Otherwise the time is added; once the
/// duration is reached a one-shot timer stops at its duration, and a
/// repeating one keeps the remainder and counts how many times it ran out.
pub open spec fn ticked(t: TimerView, delta: u64) -> TimerView {
    if t.mode == TimerMode::Once && t.finished {
        TimerView { times_finished_this_tick: 0, ..t }
    } else {
        let e = saturating_sum(t.elapsed, delta);
        if e >= t.duration {
            if t.mode == TimerMode::Repeating {
                if t.duration == 0 {
                    TimerView {
                        elapsed: 0,
                        finished: true,
                        times_finished_this_tick: u32::MAX,
                        ..t
                    }
                } else {
                    TimerView {
                        elapsed: (e % t.duration) as u64,
                        finished: true,
                        times_finished_this_tick: (e / t.duration) as u32,
                        ..t
                    }
                }
            } else {
                TimerView {
                    elapsed: t.duration,
                    finished: true,
                    times_finished_this_tick: 1,
                    ..t
                }
            }
        } else {
            TimerView { elapsed: e, finished: false, times_finished_this_tick: 0, ..t }
        }
    }
}

/// A fresh timer of `duration` nanoseconds.
pub open spec fn fresh_timer(duration: u64, mode: TimerMode) -> TimerView {
    TimerView { duration, elapsed: 0, mode, finished: false, times_finished_this_tick: 0 }
}

/// A timer of `duration` nanoseconds that has already run out.
pub open spec fn spent_timer(duration: u64, mode: TimerMode) -> TimerView {
    TimerView { duration, elapsed: duration, mode, finished: true, times_finished_this_tick: 0 }
}

impl Timer {
    /// A timer of `duration` nanoseconds that has already run out, as if
    /// its whole duration had passed before.
    pub fn spent(duration: u64, mode: TimerMode) -> (t: Self)
        ensures
            t@ == spent_timer(duration, mode),
            timer_wf(t@),
    {
        Timer { duration, elapsed: duration, mode, finished: true, times_finished_this_tick: 0 }
    }

    /// A timer of `duration` nanoseconds that has not started.
    pub fn from_duration(duration: u64, mode: TimerMode) -> (t: Self)
        ensures
            t@ == fresh_timer(duration, mode),
            timer_wf(t@),
    {
        Timer { duration, elapsed: 0, mode, finished: false, times_finished_this_tick: 0 }
    }

    /// Lets `delta` nanoseconds pass.
    pub fn tick(&mut self, delta: u64)
        ensures
            final(self)@ == ticked(old(self)@, delta),
            timer_wf(final(self)@),
    {
        proof {
            use_type_invariant(&*self);
        }
        if self.mode == TimerMode::Once && self.finished {
            self.times_finished_this_tick = 0;
            return ;
        }
        let e = self.elapsed.saturating_add(delta);
        let finished = e >= self.duration;
        let (elapsed, times): (u64, u32) = if finished {
            if self.mode == TimerMode::Repeating {
                if self.duration == 0 {
                    (0, u32::MAX)
                } else {
                    (e % self.duration, (e / self.duration) as u32)
                }
            } else {
                (self.duration, 1)
            }
        } else {
            (e, 0)
        };
        *self = Timer {
            duration: self.duration,
            elapsed,
            mode: self.mode,
            finished,
            times_finished_this_tick: times,
        };
    }

    /// Starts the timer over, keeping its duration and mode.
    pub fn reset(&mut self)
        ensures
            final(self)@ == fresh_timer(old(self)@.duration, old(self)@.mode),
            timer_wf(final(self)@),
    {
        self.elapsed = 0;
        self.finished = false;
        self.times_finished_this_tick = 0;
    }

    /// Whether the timer had run out at its last tick.
    pub fn finished(&self) -> (b: bool)
        ensures
            b == self@.finished,
    {
        self.finished
    }

    /// Whether the timer ran out during its last tick.
    pub fn just_finished(&self) -> (b: bool)
        ensures
            b == (self@.times_finished_this_tick > 0),
    {
        self.times_finished_this_tick > 0
    }

    /// How many times the timer ran out during its last tick.
    pub fn times_finished_this_tick(&self) -> (n: u32)
        ensures
            n == self@.times_finished_this_tick,
    {
        self.times_finished_this_tick
    }

    pub fn duration(&self) -> (d: u64)
        ensures
            d == self@.duration,
    {
        self.duration
    }

    pub fn elapsed(&self) -> (e: u64)
        ensures
            e == self@.elapsed,
    {
        self.elapsed
    }

    pub fn mode(&self) -> (m: TimerMode)
        ensures
            m == self@.mode,
    {
        self.mode
    }

    /// The time left until the timer runs out.
    pub fn remaining(&self) -> (r: u64)
        ensures
            r == self@.duration - self@.elapsed,
    {
        proof {
            use_type_invariant(self);
        }
        self.duration - self.elapsed
    }
}

/// A timer is never past its duration, whatever passes.
pub proof fn law_tick_keeps_elapsed_within_duration(t: TimerView, delta: u64)
    requires
        timer_wf(t),
    ensures
        timer_wf(ticked(t, delta)),
{
}

/// A one-shot timer, once finished, stays finished however long passes,
/// until it is reset.
pub proof fn law_once_timer_stays_finished(t: TimerView, delta: u64)
    requires
        t.mode == TimerMode::Once,
        t.finished,
    ensures
        ticked(t, delta).finished,
        ticked(t, delta).elapsed == t.elapsed,
        ticked(t, delta).times_finished_this_tick == 0,
{
}

/// A one-shot timer finishes exactly when the time that has passed since it
/// started reaches its duration.
pub proof fn law_once_timer_finishes_at_duration(t: TimerView, delta: u64)
    requires
        timer_wf(t),
        t.mode == TimerMode::Once,
        !t.finished,
    ensures
        ticked(t, delta).finished == (t.elapsed + delta >= t.duration),
        ticked(t, delta).just_finished_once() == (t.elapsed + delta >= t.duration),
{
}

impl TimerView {
    /// The timer ran out exactly once at its last tick.
    pub open spec fn just_finished_once(self) -> bool {
        self.times_finished_this_tick == 1
    }
}

} // verus!
