//! The status display: what the tray shows for a timer state and the number
//! of sessions completed today.
//!
//! A summary is computed afresh each time; nothing is diffed against what
//! was shown before.

use vstd::prelude::*;
use vstd::string::*;
use crate::text::{
    append_clock_face, append_decimal, append_padded_clock_face, clock_face, copy_text, decimal,
    padded_clock_face,
};
use crate::timer::TimerState;

verus! {

/// What the start/pause slot of the menu offers.
#[derive(Clone, Copy, Debug, PartialEq, Eq, Structural)]
pub enum Toggle {
    Start,
    Pause,
}

/// Everything the status display shows.
#[derive(Debug)]
pub struct StatusSummary {
    /// The status line at the head of the menu.
    pub status_text: String,
    /// Whether the menu offers to start or to pause.
    pub toggle: Toggle,
    /// Whether the menu offers to stop.
    pub stop_enabled: bool,
    /// Whether the menu offers the quick-start durations.
    pub durations_enabled: bool,
    /// The name of the session, shown below the status line if there is one.
    pub session_name: Option<String>,
    /// The text drawn into the tray icon; empty for the default icon.
    pub icon_text: String,
    /// Whether the icon text is drawn at full strength.
    pub icon_active: bool,
    /// The tooltip of the tray icon.
    pub tooltip: String,
}

/// The status line: what is left of a running timer, else what is planned,
/// as minutes and seconds in two digits each.
pub open spec fn status_line(state: TimerState) -> Seq<char> {
    if state.is_running {
        "⏱️ "@ + padded_clock_face(state.remaining as nat) + " remaining"@
    } else {
        "⏱️ "@ + padded_clock_face(state.duration as nat) + " ready"@
    }
}

/// The icon text: whole minutes left while counting, or seconds in the last
/// minute; a pause sign while paused; nothing otherwise.
pub open spec fn icon_label(state: TimerState) -> Seq<char> {
    if state.counting() {
        if state.minutes_left() > 0 {
            decimal(state.minutes_left()) + "m"@
        } else {
            decimal(state.seconds_left()) + "s"@
        }
    } else if state.is_paused {
        "||"@
    } else {
        Seq::empty()
    }
}

/// The minutes shown in the coarse tooltip: whole minutes left, but never
/// less than one.
pub open spec fn coarse_minutes(state: TimerState) -> nat {
    if state.minutes_left() > 0 {
        state.minutes_left()
    } else {
        1
    }
}

/// The tail of every tooltip: the number of sessions completed today.
pub open spec fn today_suffix(session_count: u32) -> Seq<char> {
    " | "@ + decimal(session_count as nat) + " sessions today"@
}

/// The tooltip. While counting it gives the exact time left if the main
/// window is visible, and minutes left with the percentage done if it is
/// hidden; while paused, the exact time left.
pub open spec fn tooltip_text(state: TimerState, session_count: u32, hidden: bool) -> Seq<char> {
    if state.counting() {
        if hidden {
            "Pomo - "@ + decimal(coarse_minutes(state)) + "m left ("@ + decimal(
                state.percent_complete(),
            ) + "%)"@ + today_suffix(session_count)
        } else {
            "Pomo - Running ("@ + clock_face(state.remaining as nat) + ")"@ + today_suffix(
                session_count,
            )
        }
    } else if state.is_paused {
        "Pomo - Paused ("@ + clock_face(state.remaining as nat) + ")"@ + today_suffix(session_count)
    } else {
        "Pomo - Ready"@ + today_suffix(session_count)
    }
}

/// What the start/pause slot offers: to pause while counting, else to
/// start.
pub open spec fn toggle_for(state: TimerState) -> Toggle {
    if state.counting() {
        Toggle::Pause
    } else {
        Toggle::Start
    }
}

fn build_status_line(state: &TimerState) -> (text: String)
    ensures
        text@ == status_line(*state),
{
    let mut text = String::from_str("⏱️ ");
    if state.is_running {
        append_padded_clock_face(&mut text, state.remaining);
        text.append(" remaining");
    } else {
        append_padded_clock_face(&mut text, state.duration);
        text.append(" ready");
    }
    text
}

fn build_icon_label(state: &TimerState) -> (text: String)
    ensures
        text@ == icon_label(*state),
{
    let mut text = String::new();
    if state.is_counting() {
        let minutes = state.remaining / 60;
        if minutes > 0 {
            append_decimal(&mut text, minutes);
            text.append("m");
        } else {
            append_decimal(&mut text, state.remaining % 60);
            text.append("s");
        }
        assert(text@ =~= icon_label(*state));
    } else if state.is_paused {
        text.append("||");
        assert(text@ =~= icon_label(*state));
    }
    text
}

fn append_today_suffix(out: &mut String, session_count: u32)
    ensures
        final(out)@ == old(out)@ + today_suffix(session_count),
{
    out.append(" | ");
    append_decimal(out, session_count);
    out.append(" sessions today");
    assert(out@ =~= old(out)@ + today_suffix(session_count));
}

fn build_tooltip(state: &TimerState, session_count: u32, hidden: bool) -> (text: String)
    ensures
        text@ == tooltip_text(*state, session_count, hidden),
{
    let mut text = String::from_str("Pomo - ");
    proof {
        reveal_strlit("Pomo - ");
        reveal_strlit("Pomo - Running (");
        reveal_strlit("Running (");
        reveal_strlit("Pomo - Paused (");
        reveal_strlit("Paused (");
        reveal_strlit("Pomo - Ready");
        reveal_strlit("Ready");
    }
    if state.is_counting() {
        if hidden {
            let minutes = state.remaining / 60;
            append_decimal(&mut text, if minutes > 0 { minutes } else { 1 });
            text.append("m left (");
            append_decimal(&mut text, state.percent());
            text.append("%)");
        } else {
            text.append("Running (");
            assert(text@ =~= "Pomo - Running ("@);
            append_clock_face(&mut text, state.remaining);
            text.append(")");
        }
    } else if state.is_paused {
        text.append("Paused (");
        assert(text@ =~= "Pomo - Paused ("@);
        append_clock_face(&mut text, state.remaining);
        text.append(")");
    } else {
        text.append("Ready");
        assert(text@ =~= "Pomo - Ready"@);
    }
    append_today_suffix(&mut text, session_count);
    text
}

/// Whether the main window is out of sight, from what is known of it:
/// `None` if there is no window, `Some(None)` if the window cannot tell,
/// else whether it is visible. No window is hidden; a window that cannot
/// tell counts as visible.
pub open spec fn hidden_for(visible: Option<Option<bool>>) -> bool {
    match visible {
        None => true,
        Some(None) => false,
        Some(Some(v)) => !v,
    }
}

/// Whether the main window is out of sight, from what is known of it.
pub fn window_hidden(visible: Option<Option<bool>>) -> (hidden: bool)
    ensures
        hidden == hidden_for(visible),
{
    match visible {
        None => true,
        Some(None) => false,
        Some(Some(v)) => !v,
    }
}

/// The status display for `state`, with `session_count` sessions completed
/// today; `hidden` says whether the main window is out of sight.
pub fn status_summary(state: &TimerState, session_count: u32, hidden: bool) -> (summary:
    StatusSummary)
    ensures
        summary.status_text@ == status_line(*state),
        summary.toggle == toggle_for(*state),
        summary.stop_enabled == state.is_running,
        summary.durations_enabled == !state.is_running,
        summary.session_name == state.session_name,
        summary.icon_text@ == icon_label(*state),
        summary.icon_active == state.counting(),
        summary.tooltip@ == tooltip_text(*state, session_count, hidden),
{
    StatusSummary {
        status_text: build_status_line(state),
        toggle: if state.is_counting() {
            Toggle::Pause
        } else {
            Toggle::Start
        },
        stop_enabled: state.is_running,
        durations_enabled: !state.is_running,
        session_name: copy_text(&state.session_name),
        icon_text: build_icon_label(state),
        icon_active: state.is_counting(),
        tooltip: build_tooltip(state, session_count, hidden),
    }
}

} // verus!
