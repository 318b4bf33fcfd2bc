//! The timer engine: the commands that change the timer, and the decision a
//! tick loop takes each time it wakes.
//!
//! The engine never sleeps, spawns or notifies. A command returns an
//! [`Effect`] that says what the caller has to carry out; a wake of a tick
//! loop returns a [`Tick`] that says what happened. Time is a reading of a
//! monotonic clock in milliseconds, handed in by the caller.

use vstd::prelude::*;
use crate::timer::TimerState;

verus! {

/// Milliseconds between two wakes of a tick loop.
pub const TICK_INTERVAL_MS: u64 = 100;

/// Milliseconds that must have passed since the last decrement before the
/// next one.
pub const SECOND_MS: u64 = 1000;

/// Progress ticks between two refreshes of the status display while the main
/// window is visible.
pub const VISIBLE_REFRESH_EVERY: u32 = 15;

/// What one tick loop carries from wake to wake.
///
/// `id` is the token the engine issued when it started the loop; the loop
/// counts only while the engine still has that token registered.
#[derive(Clone, Copy, Debug, PartialEq, Eq, Structural)]
pub struct TickLoop {
    pub id: u64,
    pub last_second_update: u64,
    pub tray_update_counter: u32,
}

/// What the caller must do after a command, in this order: cancel the task
/// that runs loop `abort`, schedule a task for `spawn`, refresh the status
/// display if `resync` is set.
#[derive(Clone, Copy, Debug, PartialEq, Eq, Structural)]
pub struct Effect {
    pub abort: Option<u64>,
    pub spawn: Option<TickLoop>,
    pub resync: bool,
}

impl Effect {
    /// Nothing to do.
    pub open spec fn nothing() -> Effect {
        Effect { abort: None, spawn: None, resync: false }
    }

    /// Only the status display is to be refreshed.
    pub open spec fn refresh() -> Effect {
        Effect { abort: None, spawn: None, resync: true }
    }
}

/// What a wake of a tick loop came to.
#[derive(Clone, Copy, Debug, PartialEq, Eq, Structural)]
pub enum Tick {
    /// The loop is not the registered one, or the timer is stopped or
    /// paused: the loop ends without a trace.
    Exit,
    /// Less than a second has passed since the last decrement.
    Wait,
    /// One second was counted: a progress notification is due, and with
    /// `resync` a refresh of the status display.
    Progress { resync: bool },
    /// Nothing is left: a completion notification and a refresh of the
    /// status display are due and the loop ends. With `progress` this wake
    /// also counted the last second, and a progress notification comes
    /// first.
    Complete { progress: bool },
}

impl Tick {
    /// The loop does not wake again.
    pub open spec fn ends_loop(self) -> bool {
        self is Exit || self is Complete
    }

    /// Progress notifications this wake calls for.
    pub open spec fn progress_notifications(self) -> nat {
        match self {
            Tick::Progress { .. } => 1,
            Tick::Complete { progress } => if progress { 1 } else { 0 },
            _ => 0,
        }
    }

    /// Completion notifications this wake calls for.
    pub open spec fn completion_notifications(self) -> nat {
        if self is Complete { 1 } else { 0 }
    }

    /// The status display is to be refreshed after this wake.
    pub open spec fn refreshes(self) -> bool {
        match self {
            Tick::Progress { resync } => resync,
            Tick::Complete { .. } => true,
            _ => false,
        }
    }
}

/// The refresh policy for progress ticks: given the loop's counter and
/// whether the main window is hidden, whether the status display is due now
/// and the counter to carry on with. Hidden, every tick refreshes; visible,
/// every fifteenth.
pub open spec fn cadence(counter: u32, hidden: bool) -> (bool, u32) {
    if hidden || counter >= VISIBLE_REFRESH_EVERY - 1 {
        (true, 0)
    } else {
        (false, (counter + 1) as u32)
    }
}

/// Applies the refresh policy to one progress tick.
pub fn next_refresh(counter: u32, hidden: bool) -> (r: (bool, u32))
    ensures
        r == cadence(counter, hidden),
{
    if hidden || counter >= VISIBLE_REFRESH_EVERY - 1 {
        (true, 0)
    } else {
        (false, counter + 1)
    }
}

/// The engine: the timer, the token of the tick loop it has registered, and
/// the clock reading of the last start.
///
/// `generation` is the token of the loop started last, whether or not it is
/// still registered; tokens are handed out in sequence.
#[derive(Debug)]
pub struct TimerManager {
    pub state: TimerState,
    pub timer_handle: Option<u64>,
    pub last_update_time: Option<u64>,
    pub generation: u64,
}

impl TimerManager {
    /// The timer is well formed and a registered loop is the one started
    /// last.
    pub open spec fn wf(&self) -> bool {
        &&& self.state.wf()
        &&& self.timer_handle matches Some(h) ==> h == self.generation
    }

    /// `lp` is the loop this engine has registered: the only one allowed to
    /// count.
    pub open spec fn drives(&self, lp: TickLoop) -> bool {
        self.timer_handle == Some(lp.id)
    }

    /// A fresh engine.
    pub open spec fn initial() -> TimerManager {
        TimerManager {
            state: TimerState::initial(),
            timer_handle: None,
            last_update_time: None,
            generation: 0,
        }
    }

    /// The engine once its registered loop, if any, is struck off.
    pub open spec fn aborted(self) -> TimerManager {
        TimerManager { timer_handle: None, last_update_time: None, ..self }
    }

    /// The engine after a request for a countdown of `duration` seconds, and
    /// what the caller owes. While counting the request changes nothing.
    pub open spec fn set_duration_spec(self, duration: u32) -> (TimerManager, Effect) {
        if self.state.counting() {
            (self, Effect::nothing())
        } else {
            (
                TimerManager {
                    state: TimerState { duration: duration, remaining: duration, ..self.state },
                    ..self
                },
                Effect::refresh(),
            )
        }
    }

    /// The token the next loop will carry.
    pub open spec fn next_token(self) -> u64 {
        if self.generation == u64::MAX {
            0
        } else {
            (self.generation + 1) as u64
        }
    }

    /// The engine after a start at clock reading `now`, and what the caller
    /// owes. While counting a start changes nothing; otherwise the registered
    /// loop is struck off and a new one, born at `now`, takes its place.
    pub open spec fn start_spec(self, now: u64) -> (TimerManager, Effect) {
        if self.state.counting() {
            (self, Effect::nothing())
        } else {
            let token = self.next_token();
            (
                TimerManager {
                    state: TimerState { is_running: true, is_paused: false, ..self.state },
                    timer_handle: Some(token),
                    last_update_time: Some(now),
                    generation: token,
                },
                Effect {
                    abort: self.timer_handle,
                    spawn: Some(
                        TickLoop { id: token, last_second_update: now, tray_update_counter: 0 },
                    ),
                    resync: true,
                },
            )
        }
    }

    /// The engine after a pause, and what the caller owes. Only a running
    /// timer becomes paused; the status display is refreshed either way.
    pub open spec fn pause_spec(self) -> (TimerManager, Effect) {
        if self.state.is_running {
            (
                TimerManager { state: TimerState { is_paused: true, ..self.state }, ..self },
                Effect::refresh(),
            )
        } else {
            (self, Effect::refresh())
        }
    }

    /// The engine after a stop, and what the caller owes: the registered
    /// loop is struck off and the whole plan is left again.
    pub open spec fn stop_spec(self) -> (TimerManager, Effect) {
        (
            TimerManager {
                state: TimerState {
                    is_running: false,
                    is_paused: false,
                    remaining: self.state.duration,
                    ..self.state
                },
                timer_handle: None,
                last_update_time: None,
                ..self
            },
            Effect { abort: self.timer_handle, spawn: None, resync: true },
        )
    }

    /// The engine, the loop and the outcome after `lp` wakes at clock reading
    /// `now` with the main window hidden or not.
    ///
    /// A loop that is not registered, or finds the timer stopped or paused,
    /// ends and changes nothing. A counting timer with nothing left
    /// completes at once. Otherwise a second is counted if at least
    /// [`SECOND_MS`] have passed since the loop last counted one (a clock
    /// reading before that moment counts as no time passed), and the
    /// countdown completes when that second was the last.
    pub open spec fn tick_spec(self, lp: TickLoop, now: u64, hidden: bool) -> (
        TimerManager,
        TickLoop,
        Tick,
    ) {
        if !self.drives(lp) || !self.state.counting() {
            (self, lp, Tick::Exit)
        } else if self.state.remaining == 0 {
            (
                TimerManager { state: TimerState { is_running: false, ..self.state }, ..self },
                lp,
                Tick::Complete { progress: false },
            )
        } else if now < lp.last_second_update || now - lp.last_second_update < SECOND_MS {
            (self, lp, Tick::Wait)
        } else if self.state.remaining == 1 {
            (
                TimerManager {
                    state: TimerState { remaining: 0, is_running: false, ..self.state },
                    ..self
                },
                TickLoop { last_second_update: now, ..lp },
                Tick::Complete { progress: true },
            )
        } else {
            let (resync, counter) = cadence(lp.tray_update_counter, hidden);
            (
                TimerManager {
                    state: TimerState {
                        remaining: (self.state.remaining - 1) as u32,
                        ..self.state
                    },
                    ..self
                },
                TickLoop { last_second_update: now, tray_update_counter: counter, ..lp },
                Tick::Progress { resync },
            )
        }
    }

    /// The state a progress notification carries after a wake that came to
    /// `out`: the state as it is, but for the wake that counted the last
    /// second, whose notification still shows the timer running. Other wakes
    /// call for no progress notification.
    pub open spec fn progress_payload(self, out: Tick) -> Option<TimerState> {
        match out {
            Tick::Progress { .. } => Some(self.state),
            Tick::Complete { progress } => if progress {
                Some(TimerState { is_running: true, ..self.state })
            } else {
                None
            },
            _ => None,
        }
    }

    /// A fresh engine: the default timer, no loop registered.
    pub fn new() -> (m: Self)
        ensures
            m == TimerManager::initial(),
            m.wf(),
    {
        TimerManager {
            state: TimerState::default(),
            timer_handle: None,
            last_update_time: None,
            generation: 0,
        }
    }

    /// Strikes the registered loop off and returns its token, so that the
    /// caller can cancel the task that runs it.
    pub fn abort_timer(&mut self) -> (handle: Option<u64>)
        ensures
            handle == old(self).timer_handle,
            *final(self) == old(self).aborted(),
            old(self).wf() ==> final(self).wf(),
    {
        let handle = self.timer_handle.take();
        self.last_update_time = None;
        handle
    }

    /// Plans a countdown of `duration` seconds, unless the timer is
    /// counting.
    pub fn set_duration(&mut self, duration: u32) -> (effect: Effect)
        ensures
            (*final(self), effect) == old(self).set_duration_spec(duration),
            old(self).wf() ==> final(self).wf(),
    {
        if self.state.is_counting() {
            return Effect { abort: None, spawn: None, resync: false };
        }
        self.state.duration = duration;
        self.state.remaining = duration;
        Effect { abort: None, spawn: None, resync: true }
    }

    /// Starts or resumes the countdown at clock reading `now`, unless the
    /// timer is counting already.
    pub fn start_timer(&mut self, now: u64) -> (effect: Effect)
        ensures
            (*final(self), effect) == old(self).start_spec(now),
            old(self).wf() ==> final(self).wf(),
    {
        if self.state.is_counting() {
            return Effect { abort: None, spawn: None, resync: false };
        }
        let previous = self.abort_timer();
        let token: u64 = if self.generation == u64::MAX {
            0
        } else {
            self.generation + 1
        };
        self.state.is_running = true;
        self.state.is_paused = false;
        self.last_update_time = Some(now);
        self.generation = token;
        self.timer_handle = Some(token);
        Effect {
            abort: previous,
            spawn: Some(TickLoop { id: token, last_second_update: now, tray_update_counter: 0 }),
            resync: true,
        }
    }

    /// Pauses a running timer. The registered loop is left to find that out
    /// at its next wake.
    pub fn pause_timer(&mut self) -> (effect: Effect)
        ensures
            (*final(self), effect) == old(self).pause_spec(),
            old(self).wf() ==> final(self).wf(),
    {
        if self.state.is_running {
            self.state.is_paused = true;
        }
        Effect { abort: None, spawn: None, resync: true }
    }

    /// Stops the timer and discards what was counted.
    pub fn stop_timer(&mut self) -> (effect: Effect)
        ensures
            (*final(self), effect) == old(self).stop_spec(),
            final(self).state.remaining == final(self).state.duration,
            !final(self).state.is_running,
            !final(self).state.is_paused,
            final(self).wf(),
    {
        let previous = self.abort_timer();
        self.state.is_running = false;
        self.state.is_paused = false;
        self.state.remaining = self.state.duration;
        Effect { abort: previous, spawn: None, resync: true }
    }

    /// One wake of the tick loop `lp` at clock reading `now`; `hidden` says
    /// whether the main window is out of sight.
    pub fn tick(&mut self, lp: &mut TickLoop, now: u64, hidden: bool) -> (out: Tick)
        ensures
            (*final(self), *final(lp), out) == old(self).tick_spec(*old(lp), now, hidden),
            old(self).wf() ==> final(self).wf(),
    {
        let registered = match self.timer_handle {
            Some(h) => h == lp.id,
            None => false,
        };
        if !registered || !self.state.is_counting() {
            return Tick::Exit;
        }
        if self.state.remaining == 0 {
            self.state.is_running = false;
            return Tick::Complete { progress: false };
        }
        if now < lp.last_second_update || now - lp.last_second_update < SECOND_MS {
            return Tick::Wait;
        }
        self.state.remaining = self.state.remaining - 1;
        lp.last_second_update = now;
        if self.state.remaining == 0 {
            self.state.is_running = false;
            return Tick::Complete { progress: true };
        }
        let (resync, counter) = next_refresh(lp.tray_update_counter, hidden);
        lp.tray_update_counter = counter;
        Tick::Progress { resync }
    }

    /// A copy of the timer state.
    pub fn get_timer_state(&self) -> (state: TimerState)
        ensures
            state == self.state,
    {
        self.state.snapshot()
    }

    /// Names the session, or takes its name away.
    pub fn set_session_name(&mut self, name: Option<String>)
        ensures
            *final(self) == (TimerManager {
                state: TimerState { session_name: name, ..old(self).state },
                ..*old(self)
            }),
            old(self).wf() ==> final(self).wf(),
    {
        self.state.session_name = name;
    }

    /// The state to send with the progress notification that `out` calls
    /// for, if it calls for one; `self` is the engine after the wake.
    pub fn progress_snapshot(&self, out: Tick) -> (payload: Option<TimerState>)
        ensures
            payload == self.progress_payload(out),
    {
        match out {
            Tick::Progress { .. } => Some(self.state.snapshot()),
            Tick::Complete { progress } => {
                if progress {
                    let mut state = self.state.snapshot();
                    state.is_running = true;
                    Some(state)
                } else {
                    None
                }
            },
            _ => None,
        }
    }
}

} // verus!
