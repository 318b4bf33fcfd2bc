//! How the engine behaves over time: a tick loop fed a sequence of wakes,
//! and what follows for whole countdowns.
//!
//! Nothing here runs. [`run`] replays the decisions of
//! [`TimerManager::tick`](crate::engine::TimerManager::tick) over any
//! sequence of wakes, and the proof functions state what holds of every such
//! replay.

use vstd::prelude::*;
use crate::engine::{cadence, Effect, Tick, TickLoop, TimerManager, SECOND_MS, TICK_INTERVAL_MS, VISIBLE_REFRESH_EVERY};
use crate::timer::TimerState;

verus! {

/// One wake of a tick loop: the clock reading, and whether the main window
/// was hidden then.
pub struct Wake {
    pub now: u64,
    pub hidden: bool,
}

/// Where an engine and one tick loop stand after some wakes, and what has
/// been called for so far.
pub struct Trace {
    pub manager: TimerManager,
    pub tick_loop: TickLoop,
    /// The loop has not ended.
    pub alive: bool,
    /// Progress notifications.
    pub progress: nat,
    /// Completion notifications.
    pub completions: nat,
    /// Refreshes of the status display.
    pub refreshes: nat,
}

/// The trace before any wake.
pub open spec fn begin(manager: TimerManager, tick_loop: TickLoop) -> Trace {
    Trace { manager, tick_loop, alive: true, progress: 0, completions: 0, refreshes: 0 }
}

/// The trace after one more wake. A loop that has ended does not wake.
pub open spec fn advance(tr: Trace, w: Wake) -> Trace {
    if !tr.alive {
        tr
    } else {
        let (manager, tick_loop, out) = tr.manager.tick_spec(tr.tick_loop, w.now, w.hidden);
        Trace {
            manager,
            tick_loop,
            alive: !out.ends_loop(),
            progress: tr.progress + out.progress_notifications(),
            completions: tr.completions + out.completion_notifications(),
            refreshes: tr.refreshes + if out.refreshes() { 1nat } else { 0nat },
        }
    }
}

/// The trace after the wakes `wakes`, in order, starting from `tr`.
pub open spec fn run_from(tr: Trace, wakes: Seq<Wake>) -> Trace
    decreases wakes.len(),
{
    if wakes.len() == 0 {
        tr
    } else {
        advance(run_from(tr, wakes.drop_last()), wakes.last())
    }
}

/// The trace of loop `tick_loop` on engine `manager` over `wakes`.
pub open spec fn run(manager: TimerManager, tick_loop: TickLoop, wakes: Seq<Wake>) -> Trace {
    run_from(begin(manager, tick_loop), wakes)
}

/// The wakes of a loop born at `t0` that wakes punctually, every
/// [`TICK_INTERVAL_MS`]; `hidden[i]` says whether the window was hidden at
/// wake `i`, and there are as many wakes as there are flags.
pub open spec fn steady_wakes(t0: u64, hidden: Seq<bool>) -> Seq<Wake> {
    Seq::new(
        hidden.len(),
        |i: int| Wake { now: (t0 + TICK_INTERVAL_MS * (i + 1)) as u64, hidden: hidden[i] },
    )
}

/// The engine and loop a countdown of `d` seconds starts with: `manager`
/// after `set_duration(d)` and `start_timer(t0)`.
pub open spec fn launched(manager: TimerManager, d: u32, t0: u64) -> (TimerManager, Effect) {
    manager.set_duration_spec(d).0.start_spec(t0)
}

/// A running loop never counts two seconds less than a second apart:
/// whatever the wakes, each progress notification moves the loop's record
/// of its last decrement forward by a second or more, and nothing moves it
/// back.
pub proof fn lemma_one_decrement_per_second(tr: Trace, wakes: Seq<Wake>)
    ensures
        run_from(tr, wakes).progress >= tr.progress,
        run_from(tr, wakes).tick_loop.last_second_update >= tr.tick_loop.last_second_update,
        SECOND_MS * (run_from(tr, wakes).progress - tr.progress) <= run_from(
            tr,
            wakes,
        ).tick_loop.last_second_update - tr.tick_loop.last_second_update,
    decreases wakes.len(),
{
    if wakes.len() > 0 {
        lemma_one_decrement_per_second(tr, wakes.drop_last());
    }
}

/// What is left plus what was counted stays what it was: every progress
/// notification stands for exactly one second taken off `remaining`, and
/// nothing else changes `remaining`.
pub proof fn lemma_progress_is_remaining_lost(tr: Trace, wakes: Seq<Wake>)
    ensures
        run_from(tr, wakes).manager.state.remaining + (run_from(tr, wakes).progress - tr.progress)
            == tr.manager.state.remaining,
        run_from(tr, wakes).manager.state.duration == tr.manager.state.duration,
    decreases wakes.len(),
{
    if wakes.len() > 0 {
        lemma_progress_is_remaining_lost(tr, wakes.drop_last());
    }
}

/// A loop completes at most once, and then it is over.
pub proof fn lemma_completes_at_most_once(tr: Trace, wakes: Seq<Wake>)
    requires
        tr.alive,
        tr.completions == 0,
    ensures
        run_from(tr, wakes).completions <= 1,
        run_from(tr, wakes).completions == 1 ==> !run_from(tr, wakes).alive
            && !run_from(tr, wakes).manager.state.is_running
            && run_from(tr, wakes).manager.state.remaining == 0,
    decreases wakes.len(),
{
    if wakes.len() > 0 {
        lemma_completes_at_most_once(tr, wakes.drop_last());
    }
}

/// Only the registered loop counts: a loop the engine does not drive ends
/// at its first wake and leaves the engine as it was.
pub proof fn lemma_unregistered_loop_is_inert(
    manager: TimerManager,
    tick_loop: TickLoop,
    wakes: Seq<Wake>,
)
    requires
        !manager.drives(tick_loop),
    ensures
        run(manager, tick_loop, wakes).manager == manager,
        run(manager, tick_loop, wakes).progress == 0,
        run(manager, tick_loop, wakes).completions == 0,
        run(manager, tick_loop, wakes).refreshes == 0,
        wakes.len() > 0 ==> !run(manager, tick_loop, wakes).alive,
    decreases wakes.len(),
{
    if wakes.len() > 0 {
        lemma_unregistered_loop_is_inert(manager, tick_loop, wakes.drop_last());
    }
}

/// A counting timer with nothing left does not outlast the next wake of its
/// loop: after any wake of the registered loop, a timer with nothing left
/// is not counting.
pub proof fn lemma_wake_settles(manager: TimerManager, tick_loop: TickLoop, now: u64, hidden: bool)
    requires
        manager.drives(tick_loop),
    ensures
        ({
            let (after, _, out) = manager.tick_spec(tick_loop, now, hidden);
            &&& after.state.remaining == 0 ==> !after.state.counting()
            &&& manager.state.counting() && manager.state.remaining == 0 ==> out == (Tick::Complete {
                progress: false,
            })
            &&& after.state.remaining <= manager.state.remaining
            &&& manager.state.remaining - after.state.remaining <= 1
        }),
{
}

/// Of two different loops the engine drives at most one.
pub proof fn lemma_at_most_one_scheduler(manager: TimerManager, a: TickLoop, b: TickLoop)
    requires
        a.id != b.id,
    ensures
        !(manager.drives(a) && manager.drives(b)),
{
}

/// A start replaces the scheduler: the loop it hands out is driven, and any
/// loop started before it no longer is.
pub proof fn lemma_start_replaces_scheduler(manager: TimerManager, now: u64, earlier: TickLoop)
    requires
        manager.wf(),
        !manager.state.counting(),
        earlier.id == manager.generation,
    ensures
        manager.start_spec(now).1.spawn is Some,
        manager.start_spec(now).0.drives(manager.start_spec(now).1.spawn->0),
        !manager.start_spec(now).0.drives(earlier),
        manager.start_spec(now).1.abort == manager.timer_handle,
{
}

/// A second start while the timer is counting starts nothing: of two starts
/// in a row the second spawns no loop, cancels none and leaves the engine
/// as the first left it, so the loop of the first is still the only one
/// driven.
pub proof fn lemma_second_start_is_idle(manager: TimerManager, first: u64, second: u64)
    ensures
        ({
            let (once, _) = manager.start_spec(first);
            let (twice, again) = once.start_spec(second);
            &&& again == Effect::nothing()
            &&& twice == once
            &&& once.state.counting()
        }),
{
}

/// Time does not pass for a paused timer: after a pause, whatever loop
/// wakes however often, nothing is counted, and a later start resumes with
/// all that was left.
pub proof fn lemma_pause_freezes_remaining(
    manager: TimerManager,
    tick_loop: TickLoop,
    wakes: Seq<Wake>,
    resume_at: u64,
)
    ensures
        ({
            let (paused, effect) = manager.pause_spec();
            let during = run(paused, tick_loop, wakes);
            let (resumed, _) = during.manager.start_spec(resume_at);
            &&& effect.resync
            &&& during.manager == paused
            &&& during.progress == 0
            &&& during.completions == 0
            &&& paused.state.remaining == manager.state.remaining
            &&& resumed.state.remaining == manager.state.remaining
        }),
    decreases wakes.len(),
{
    if wakes.len() > 0 {
        lemma_pause_freezes_remaining(manager, tick_loop, wakes.drop_last(), resume_at);
    }
}

/// A stop is a reset from every state: nothing runs, nothing is paused, the
/// whole plan is left and no loop is registered.
pub proof fn lemma_stop_resets(manager: TimerManager)
    ensures
        ({
            let (stopped, effect) = manager.stop_spec();
            &&& stopped.state.remaining == manager.state.duration
            &&& stopped.state.duration == manager.state.duration
            &&& !stopped.state.is_running
            &&& !stopped.state.is_paused
            &&& stopped.timer_handle is None
            &&& effect.abort == manager.timer_handle
            &&& effect.resync
        }),
{
}

/// Wakes of a punctual loop in one second.
pub const WAKES_PER_SECOND: u64 = SECOND_MS / TICK_INTERVAL_MS;

/// Where a countdown of `d` seconds must stand after `j` punctual wakes of
/// the loop it was launched with.
spec fn on_schedule(start: TimerManager, first: TickLoop, d: u32, t0: u64, j: nat, tr: Trace) -> bool {
    let k = j / 10;
    &&& tr.manager == TimerManager {
        state: TimerState { remaining: (d - k) as u32, is_running: k < d, ..start.state },
        ..start
    }
    &&& tr.tick_loop.id == first.id
    &&& tr.tick_loop.last_second_update == t0 + SECOND_MS * k
    &&& tr.alive == (k < d)
    &&& tr.progress == k
    &&& tr.completions == if k == d { 1nat } else { 0nat }
}

/// Every wake found the window hidden.
pub open spec fn hidden_throughout(hidden: Seq<bool>) -> bool {
    forall|i: int| 0 <= i < hidden.len() ==> hidden[i]
}

/// Every wake found the window visible.
pub open spec fn visible_throughout(hidden: Seq<bool>) -> bool {
    forall|i: int| 0 <= i < hidden.len() ==> !hidden[i]
}

proof fn lemma_on_schedule(manager: TimerManager, d: u32, t0: u64, hidden: Seq<bool>)
    requires
        d > 0,
        !manager.state.counting(),
        hidden.len() <= 10 * d,
        t0 + SECOND_MS * d <= u64::MAX,
    ensures
        ({
            let (start, effect) = launched(manager, d, t0);
            let tr = run(start, effect.spawn->0, steady_wakes(t0, hidden));
            let k = hidden.len() / 10;
            &&& effect.spawn is Some
            &&& on_schedule(start, effect.spawn->0, d, t0, hidden.len(), tr)
            &&& hidden_throughout(hidden) ==> tr.refreshes == k
            &&& hidden_throughout(hidden) && k < d ==> tr.tick_loop.tray_update_counter == 0
            &&& visible_throughout(hidden) && k < d ==> tr.refreshes == k / 15
                && tr.tick_loop.tray_update_counter == k % 15
            &&& visible_throughout(hidden) && k == d ==> tr.refreshes == (d - 1) / 15 + 1
        }),
    decreases hidden.len(),
{
    let (start, effect) = launched(manager, d, t0);
    let first = effect.spawn->0;
    let j = hidden.len();
    if j > 0 {
        let earlier = hidden.drop_last();
        lemma_on_schedule(manager, d, t0, earlier);
        let wakes = steady_wakes(t0, hidden);
        assert(wakes.drop_last() =~= steady_wakes(t0, earlier));
        let prev = run(start, first, steady_wakes(t0, earlier));
        let tr = run(start, first, wakes);
        assert(tr == advance(prev, wakes.last()));
        assert(wakes.last().now == t0 + TICK_INTERVAL_MS * j);
        assert(wakes.last().hidden == hidden[j - 1]);
        assert(hidden_throughout(hidden) ==> hidden_throughout(earlier) && hidden[j - 1]) by {
            assert(forall|i: int| 0 <= i < earlier.len() ==> earlier[i] == hidden[i]);
        }
        assert(visible_throughout(hidden) ==> visible_throughout(earlier) && !hidden[j - 1]) by {
            assert(forall|i: int| 0 <= i < earlier.len() ==> earlier[i] == hidden[i]);
        }
        let k = j / 10;
        let kb = (j - 1) / 10;
        assert(kb < d);
        if j % 10 == 0 {
            assert(kb == k - 1);
            assert((k - 1) % 15 == 14 ==> k % 15 == 0 && k / 15 == (k - 1) / 15 + 1);
            assert((k - 1) % 15 != 14 ==> k % 15 == (k - 1) % 15 + 1 && k / 15 == (k - 1) / 15);
        } else {
            assert(kb == k);
        }
    }
}

/// A countdown of `d > 0` seconds, configured and started on an engine that
/// was not counting and watched by a punctual loop, counts one second every
/// tenth wake: after `j` wakes `j / 10` progress notifications have been
/// called for and as many seconds are gone from `remaining`. The tenth wake
/// of second `d` calls for the one completion notification and ends the
/// loop; no wake before it completes anything. So `d` seconds after the
/// start there have been exactly `d` progress notifications and exactly one
/// completion.
pub proof fn lemma_countdown_on_schedule(manager: TimerManager, d: u32, t0: u64, hidden: Seq<bool>)
    requires
        d > 0,
        !manager.state.counting(),
        hidden.len() <= WAKES_PER_SECOND * d,
        t0 + SECOND_MS * d <= u64::MAX,
    ensures
        ({
            let (start, effect) = launched(manager, d, t0);
            let tr = run(start, effect.spawn->0, steady_wakes(t0, hidden));
            let seconds = hidden.len() / (WAKES_PER_SECOND as nat);
            &&& effect.spawn is Some
            &&& start.state.duration == d
            &&& start.state.remaining == d
            &&& tr.manager.state.duration == d
            &&& tr.manager.state.remaining == d - seconds
            &&& tr.progress == seconds
            &&& tr.completions == if seconds == d { 1nat } else { 0nat }
            &&& tr.manager.state.is_running == (seconds < d)
            &&& tr.alive == (seconds < d)
        }),
{
    assert(WAKES_PER_SECOND == 10);
    lemma_on_schedule(manager, d, t0, hidden);
}

/// The status display keeps its cadence over a countdown watched by a
/// punctual loop. With the window hidden throughout, every progress
/// notification comes with a refresh. With the window visible throughout,
/// every fifteenth does, and completion brings one more.
pub proof fn lemma_refresh_cadence(manager: TimerManager, d: u32, t0: u64, hidden: Seq<bool>)
    requires
        d > 0,
        !manager.state.counting(),
        hidden.len() <= WAKES_PER_SECOND * d,
        t0 + SECOND_MS * d <= u64::MAX,
    ensures
        ({
            let (start, effect) = launched(manager, d, t0);
            let tr = run(start, effect.spawn->0, steady_wakes(t0, hidden));
            let seconds = hidden.len() / (WAKES_PER_SECOND as nat);
            &&& hidden_throughout(hidden) ==> tr.refreshes == tr.progress
            &&& visible_throughout(hidden) && seconds < d ==> tr.refreshes == tr.progress / (
            VISIBLE_REFRESH_EVERY as nat)
            &&& visible_throughout(hidden) && seconds == d ==> tr.refreshes == (d - 1) / (
            VISIBLE_REFRESH_EVERY as int) + 1
        }),
{
    assert(WAKES_PER_SECOND == 10);
    lemma_on_schedule(manager, d, t0, hidden);
    let (start, effect) = launched(manager, d, t0);
    let tr = run(start, effect.spawn->0, steady_wakes(t0, hidden));
    let seconds = hidden.len() / (WAKES_PER_SECOND as nat);
    assert(seconds == hidden.len() / 10);
    assert(on_schedule(start, effect.spawn->0, d, t0, hidden.len(), tr));
}

/// The refresh policy by itself: hidden, every progress tick refreshes;
/// visible, a tick refreshes exactly when it is the fifteenth since the
/// last refresh, and the counter never reaches fifteen.
pub proof fn lemma_cadence(counter: u32, hidden: bool)
    ensures
        hidden ==> cadence(counter, hidden) == (true, 0u32),
        !hidden && counter < VISIBLE_REFRESH_EVERY - 1 ==> cadence(counter, hidden) == (
            false,
            (counter + 1) as u32,
        ),
        !hidden && counter >= VISIBLE_REFRESH_EVERY - 1 ==> cadence(counter, hidden) == (
            true,
            0u32,
        ),
        cadence(counter, hidden).1 < VISIBLE_REFRESH_EVERY,
{
}

} // verus!
