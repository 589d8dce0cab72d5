//! An elapsed-time gate pacing wave duration. Times are monotonic
//! milliseconds handed in by the clock collaborator.

use vstd::prelude::*;
use crate::fixed::TIME_LIMIT;

verus! {

pub struct Timer {
    pub interval: u64,
    pub last_time: u64,
    pub running: bool,
}

impl Timer {
    /// Stored instants and the interval stay small enough that
    /// `last_time + interval` never wraps.
    pub open spec fn wf(self) -> bool {
        self.interval <= TIME_LIMIT && self.last_time <= TIME_LIMIT
    }

    /// The timer has run for its whole interval.
    pub open spec fn elapsed_spec(self, now: u64) -> bool {
        self.running && now - self.last_time >= self.interval
    }

    /// Milliseconds left before the interval elapses: zero once it has
    /// elapsed (or while stopped), never negative, and never more than the
    /// interval itself.
    pub open spec fn time_left_spec(self, now: u64) -> int {
        if !self.running || now - self.last_time >= self.interval {
            0
        } else if now <= self.last_time {
            self.interval as int
        } else {
            self.last_time + self.interval - now
        }
    }

    pub fn new(interval: u64, now: u64) -> (t: Timer)
        requires
            interval <= TIME_LIMIT,
            now <= TIME_LIMIT,
        ensures
            t.interval == interval,
            t.last_time == now,
            !t.running,
            t.wf(),
    {
        Timer { interval, last_time: now, running: false }
    }

    pub fn start(&mut self, now: u64)
        requires
            now <= TIME_LIMIT,
        ensures
            final(self).interval == old(self).interval,
            final(self).last_time == now,
            final(self).running,
            old(self).wf() ==> final(self).wf(),
    {
        self.last_time = now;
        self.running = true;
    }

    pub fn stop(&mut self)
        ensures
            final(self).interval == old(self).interval,
            final(self).last_time == old(self).last_time,
            !final(self).running,
            old(self).wf() ==> final(self).wf(),
    {
        self.running = false;
    }

    /// True exactly once per started interval: the elapsing call stops the
    /// timer, so repeats return false until the timer is started again.
    pub fn has_elapsed(&mut self, now: u64) -> (r: bool)
        requires
            old(self).wf(),
        ensures
            r == old(self).elapsed_spec(now),
            final(self).interval == old(self).interval,
            final(self).last_time == old(self).last_time,
            final(self).running == (old(self).running && !r),
            final(self).wf(),
    {
        if !self.running {
            return false;
        }
        if now >= self.last_time && now - self.last_time >= self.interval {
            self.running = false;
            true
        } else {
            false
        }
    }

    pub fn time_left(&self, now: u64) -> (r: u64)
        requires
            self.wf(),
        ensures
            r == self.time_left_spec(now),
            r <= self.interval,
    {
        if !self.running {
            return 0;
        }
        if now <= self.last_time {
            return self.interval;
        }
        let passed = now - self.last_time;
        if passed >= self.interval {
            0
        } else {
            self.interval - passed
        }
    }
}

/// The time left on a well-formed timer never increases as the clock moves
/// forward.
pub proof fn lemma_time_left_monotone(t: Timer, now1: u64, now2: u64)
    requires
        t.wf(),
        now1 <= now2,
    ensures
        t.time_left_spec(now2) <= t.time_left_spec(now1),
{
}

} // verus!
