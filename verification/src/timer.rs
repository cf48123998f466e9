//! A one-shot countdown.

use vstd::prelude::*;
use crate::constants::{NANOS_PER_MILLI, NANOS_PER_SEC, PRIMED_DIVISOR};

verus! {

/// A countdown that runs once from `duration` to zero and then stays there.
///
/// Both fields count nanoseconds. The timer is finished as soon as `elapsed`
/// has reached `duration`; a timer of duration zero is finished from the start.
#[derive(Clone, Copy, Debug, PartialEq, Eq, Structural)]
pub struct Timer {
    pub duration: u64,
    pub elapsed: u64,
}

impl Timer {
    /// Whether the countdown has reached zero.
    pub open spec fn is_finished(self) -> bool {
        self.elapsed >= self.duration
    }

    /// Nanoseconds until the countdown reaches zero.
    pub open spec fn time_left(self) -> int {
        if self.elapsed >= self.duration {
            0
        } else {
            self.duration - self.elapsed
        }
    }

    /// Whether at most one hundredth of the duration is left.
    pub open spec fn is_in_final_percent(self) -> bool {
        self.time_left() * 100 <= self.duration
    }

    /// The timer after `dt` nanoseconds have passed. Time never runs
    /// backward: a negative `dt` counts as zero.
    pub open spec fn ticked(self, dt: int) -> Timer {
        if dt <= 0 || self.is_finished() {
            self
        } else if self.elapsed + dt >= self.duration {
            Timer { duration: self.duration, elapsed: self.duration }
        } else {
            Timer { duration: self.duration, elapsed: (self.elapsed + dt) as u64 }
        }
    }

    /// A fresh countdown of `duration` nanoseconds.
    pub fn new(duration: u64) -> (timer: Timer)
        ensures
            timer.duration == duration,
            timer.elapsed == 0,
    {
        Timer { duration, elapsed: 0 }
    }

    /// A fresh countdown of `millis` milliseconds.
    pub fn from_millis(millis: u64) -> (timer: Timer)
        requires
            millis * NANOS_PER_MILLI <= u64::MAX,
        ensures
            timer.duration == millis * NANOS_PER_MILLI,
            timer.elapsed == 0,
    {
        Timer { duration: millis * NANOS_PER_MILLI, elapsed: 0 }
    }

    /// A fresh countdown of `secs` seconds.
    pub fn from_secs(secs: u64) -> (timer: Timer)
        requires
            secs * NANOS_PER_SEC <= u64::MAX,
        ensures
            timer.duration == secs * NANOS_PER_SEC,
            timer.elapsed == 0,
    {
        Timer { duration: secs * NANOS_PER_SEC, elapsed: 0 }
    }

    /// Lets `dt` nanoseconds pass.
    pub fn tick(&mut self, dt: i64)
        ensures
            *final(self) == old(self).ticked(dt as int),
    {
        if dt > 0 && self.elapsed < self.duration {
            let step: u64 = dt as u64;
            if step >= self.duration - self.elapsed {
                self.elapsed = self.duration;
            } else {
                self.elapsed = self.elapsed + step;
            }
        }
    }

    /// Whether the countdown has reached zero.
    pub fn finished(&self) -> (done: bool)
        ensures
            done == self.is_finished(),
    {
        self.elapsed >= self.duration
    }

    /// Nanoseconds until the countdown reaches zero.
    pub fn remaining(&self) -> (left: u64)
        ensures
            left == self.time_left(),
    {
        if self.elapsed >= self.duration {
            0
        } else {
            self.duration - self.elapsed
        }
    }

    /// Whether at most one hundredth of the duration is left.
    pub fn in_final_percent(&self) -> (primed: bool)
        ensures
            primed == self.is_in_final_percent(),
    {
        let left: u64 = self.remaining();
        left <= self.duration / PRIMED_DIVISOR
    }
}

/// A running timer on which time passes comes strictly closer to zero, and
/// no tick ever moves a timer away from zero.
pub proof fn lemma_tick_counts_down(timer: Timer, dt: int)
    ensures
        timer.ticked(dt).time_left() <= timer.time_left(),
        dt > 0 && !timer.is_finished() ==> timer.ticked(dt).time_left() < timer.time_left(),
        timer.ticked(dt).is_finished() <==> timer.time_left() <= (if dt > 0 { dt } else { 0 }),
        timer.ticked(dt).duration == timer.duration,
{
}

} // verus!
