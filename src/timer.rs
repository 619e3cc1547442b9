//! The decisions of a border's animation timer.
//!
//! The ticking routine itself runs outside the library: it asks `poll` what
//! to do at each wake-up, posts a tick when told to, and sleeps as long as it
//! is told.
use vstd::prelude::*;

verus! {

#[derive(Clone, Copy, Debug, PartialEq, Eq, Structural)]
pub enum TimerState {
    Running,
    Paused,
    Stopped,
}

/// A timer with an absolute next deadline, advanced by whole intervals so
/// that ticks do not drift. Once stopped it never runs again.
pub struct AnimationTimer {
    pub state: TimerState,
    pub interval_us: u64,
    pub next_tick_us: u64,
}

/// What the ticking routine does on one wake-up.
#[derive(Clone, Copy, Debug, PartialEq, Eq, Structural)]
pub struct TimerStep {
    /// Post a tick to the border now.
    pub post_tick: bool,
    /// End the routine.
    pub exit: bool,
    /// Sleep this long before the next wake-up.
    pub sleep_us: u64,
}

pub open spec fn sat_add(a: int, b: int) -> int {
    if a + b > u64::MAX {
        u64::MAX as int
    } else {
        a + b
    }
}

pub open spec fn sat_sub(a: int, b: int) -> int {
    if a >= b {
        a - b
    } else {
        0
    }
}

impl AnimationTimer {
    /// A running timer whose first tick is due one interval after `now_us`.
    pub fn start(now_us: u64, interval_ms: u64) -> (r: AnimationTimer)
        ensures
            r.state == TimerState::Running,
            r.interval_us == if interval_ms as int * 1000 > u64::MAX { u64::MAX as int } else { interval_ms as int * 1000 },
            r.next_tick_us == sat_add(now_us as int, r.interval_us as int),
    {
        let interval_us: u64 = if interval_ms > u64::MAX / 1000 {
            u64::MAX
        } else {
            interval_ms * 1000
        };
        AnimationTimer { state: TimerState::Running, interval_us, next_tick_us: now_us.saturating_add(interval_us) }
    }

    /// Stops the timer for good.
    pub fn stop(&mut self)
        ensures
            final(self).state == TimerState::Stopped,
            final(self).interval_us == old(self).interval_us,
            final(self).next_tick_us == old(self).next_tick_us,
    {
        self.state = TimerState::Stopped;
    }

    /// Pauses a timer that has not been stopped.
    pub fn pause(&mut self)
        ensures
            final(self).state == if old(self).state == TimerState::Stopped {
                TimerState::Stopped
            } else {
                TimerState::Paused
            },
            final(self).interval_us == old(self).interval_us,
            final(self).next_tick_us == old(self).next_tick_us,
    {
        if self.state != TimerState::Stopped {
            self.state = TimerState::Paused;
        }
    }

    /// Resumes a timer that has not been stopped; a stopped timer stays
    /// stopped.
    pub fn resume(&mut self)
        ensures
            final(self).state == if old(self).state == TimerState::Stopped {
                TimerState::Stopped
            } else {
                TimerState::Running
            },
            final(self).interval_us == old(self).interval_us,
            final(self).next_tick_us == old(self).next_tick_us,
    {
        if self.state != TimerState::Stopped {
            self.state = TimerState::Running;
        }
    }

    /// Records that a tick could not be delivered because its border is
    /// gone: the timer stops for good, so the next `poll` ends the routine.
    pub fn delivery_failed(&mut self)
        ensures
            final(self).state == TimerState::Stopped,
            final(self).interval_us == old(self).interval_us,
            final(self).next_tick_us == old(self).next_tick_us,
    {
        self.state = TimerState::Stopped;
    }

    pub fn get_state(&self) -> (r: TimerState)
        ensures
            r == self.state,
    {
        self.state
    }

    /// The decision at one wake-up at `now_us`. A stopped timer ends the
    /// routine; a paused one posts nothing and sleeps one interval; a running
    /// one posts a tick when its deadline has come, moving the deadline on by
    /// one interval, and sleeps until the deadline.
    pub fn poll(&mut self, now_us: u64) -> (r: TimerStep)
        ensures
            final(self).state == old(self).state,
            final(self).interval_us == old(self).interval_us,
            old(self).state == TimerState::Stopped ==> r.exit && !r.post_tick
                && final(self).next_tick_us == old(self).next_tick_us,
            old(self).state == TimerState::Paused ==> !r.exit && !r.post_tick
                && r.sleep_us == old(self).interval_us
                && final(self).next_tick_us == old(self).next_tick_us,
            old(self).state == TimerState::Running ==> {
                &&& !r.exit
                &&& r.post_tick == (now_us >= old(self).next_tick_us)
                &&& final(self).next_tick_us == if r.post_tick {
                    sat_add(old(self).next_tick_us as int, old(self).interval_us as int)
                } else {
                    old(self).next_tick_us as int
                }
                &&& r.sleep_us == sat_sub(final(self).next_tick_us as int, now_us as int)
            },
    {
        match self.state {
            TimerState::Stopped => TimerStep { post_tick: false, exit: true, sleep_us: 0 },
            TimerState::Paused => TimerStep { post_tick: false, exit: false, sleep_us: self.interval_us },
            TimerState::Running => {
                let post_tick = now_us >= self.next_tick_us;
                if post_tick {
                    self.next_tick_us = self.next_tick_us.saturating_add(self.interval_us);
                }
                TimerStep { post_tick, exit: false, sleep_us: self.next_tick_us.saturating_sub(now_us) }
            },
        }
    }
}

} // verus!
