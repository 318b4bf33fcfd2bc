//! The state of the one countdown.

use vstd::prelude::*;
use crate::text::copy_text;

verus! {

/// Length of a countdown, in seconds, until one is configured: 25 minutes.
pub const DEFAULT_DURATION: u32 = 25 * 60;

/// The single live timer.
///
/// `duration` is the planned length and `remaining` what is left of it, both
/// in seconds. A timer that is running and not paused is *counting*: only
/// then does time pass for it.
#[derive(Clone, Debug)]
pub struct TimerState {
    pub duration: u32,
    pub remaining: u32,
    pub is_running: bool,
    pub is_paused: bool,
    pub session_name: Option<String>,
    pub current_session_id: Option<String>,
}

impl TimerState {
    /// What every operation of the engine keeps: no more is left than was
    /// planned, and only a running timer is paused.
    pub open spec fn wf(&self) -> bool {
        &&& self.remaining <= self.duration
        &&& self.is_paused ==> self.is_running
    }

    /// Running and not paused.
    pub open spec fn counting(&self) -> bool {
        self.is_running && !self.is_paused
    }

    /// The timer a fresh engine holds.
    pub open spec fn initial() -> TimerState {
        TimerState {
            duration: DEFAULT_DURATION,
            remaining: DEFAULT_DURATION,
            is_running: false,
            is_paused: false,
            session_name: None,
            current_session_id: None,
        }
    }

    /// A copy of this state.
    pub fn snapshot(&self) -> (copy: TimerState)
        ensures
            copy == *self,
    {
        TimerState {
            duration: self.duration,
            remaining: self.remaining,
            is_running: self.is_running,
            is_paused: self.is_paused,
            session_name: copy_text(&self.session_name),
            current_session_id: copy_text(&self.current_session_id),
        }
    }

    /// Whether the timer is running and not paused.
    pub fn is_counting(&self) -> (b: bool)
        ensures
            b == self.counting(),
    {
        self.is_running && !self.is_paused
    }

    /// Whole minutes left.
    pub open spec fn minutes_left(&self) -> nat {
        (self.remaining / 60) as nat
    }

    /// Seconds left beyond the whole minutes.
    pub open spec fn seconds_left(&self) -> nat {
        (self.remaining % 60) as nat
    }

    /// Seconds counted so far; zero on a state that claims more remaining
    /// than was planned.
    pub open spec fn elapsed(&self) -> nat {
        if self.remaining <= self.duration {
            (self.duration - self.remaining) as nat
        } else {
            0
        }
    }

    /// How much of the plan is done, in whole percent, rounded down; zero for
    /// an empty plan.
    pub open spec fn percent_complete(&self) -> nat {
        if self.duration == 0 {
            0
        } else {
            self.elapsed() * 100 / (self.duration as nat)
        }
    }

    /// How much of the plan is done, in whole percent.
    pub fn percent(&self) -> (p: u32)
        ensures
            p == self.percent_complete(),
            p <= 100,
    {
        if self.duration == 0 || self.remaining > self.duration {
            return 0;
        }
        let done: u64 = (self.duration - self.remaining) as u64;
        let scaled: u64 = done * 100;
        let p: u64 = scaled / (self.duration as u64);
        assert(p <= 100) by (nonlinear_arith)
            requires
                p == scaled / (self.duration as u64),
                scaled == done * 100,
                done <= self.duration,
                self.duration > 0,
        ;
        p as u32
    }
}

impl Default for TimerState {
    fn default() -> (s: Self)
        ensures
            s == TimerState::initial(),
    {
        TimerState {
            duration: DEFAULT_DURATION,
            remaining: DEFAULT_DURATION,
            is_running: false,
            is_paused: false,
            session_name: None,
            current_session_id: None,
        }
    }
}

} // verus!
