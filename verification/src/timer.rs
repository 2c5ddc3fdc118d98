//! Deadline timers for the door dwell and the stuck watchdog.
//!
//! A timer is a single deadline: `start` arms it at `now + duration`,
//! `timeout` tests whether `now` has passed the deadline. A fired timer is
//! not self-clearing; the caller arms it again with `start`. The clock
//! itself lives outside this crate: every call takes the current time in
//! milliseconds as a plain value, so the timer logic is checked for every
//! possible reading.

use vstd::prelude::*;

verus! {

/// A single deadline, armed at creation and re-armed by [`Timer::start`].
pub struct Timer {
    /// Time at which the timer fires, in milliseconds.
    pub deadline_ms: u64,
    /// Distance between arming and firing, in milliseconds.
    pub duration_ms: u64,
}

impl Timer {
    /// A timer that fires `duration_ms` after `now_ms`.
    pub fn new(duration_ms: u64, now_ms: u64) -> (t: Timer)
        requires
            now_ms + duration_ms <= u64::MAX,
        ensures
            t.duration_ms == duration_ms,
            t.deadline_ms == now_ms + duration_ms,
    {
        Timer { deadline_ms: now_ms + duration_ms, duration_ms }
    }

    /// Arm the timer: it will fire its duration after `now_ms`.
    pub fn start(&mut self, now_ms: u64)
        requires
            now_ms + old(self).duration_ms <= u64::MAX,
        ensures
            final(self).duration_ms == old(self).duration_ms,
            final(self).deadline_ms == now_ms + old(self).duration_ms,
    {
        self.deadline_ms = now_ms + self.duration_ms;
    }

    /// Whether the deadline has passed at `now_ms`.
    pub fn timeout(&self, now_ms: u64) -> (fired: bool)
        ensures
            fired == (now_ms > self.deadline_ms),
    {
        now_ms > self.deadline_ms
    }
}

} // verus!
