use pomo::status::{status_summary, window_hidden, Toggle};
use pomo::timer::TimerState;

fn state(duration: u32, remaining: u32, running: bool, paused: bool) -> TimerState {
    TimerState {
        duration,
        remaining,
        is_running: running,
        is_paused: paused,
        session_name: None,
        current_session_id: None,
    }
}

#[test]
fn ready_timer_shows_the_plan() {
    let s = status_summary(&state(1500, 1500, false, false), 0, false);
    assert_eq!(s.status_text, "⏱️ 25:00 ready");
    assert_eq!(s.toggle, Toggle::Start);
    assert!(!s.stop_enabled);
    assert!(s.durations_enabled);
    assert_eq!(s.session_name, None);
    assert_eq!(s.icon_text, "");
    assert!(!s.icon_active);
    assert_eq!(s.tooltip, "Pomo - Ready | 0 sessions today");
}

#[test]
fn ready_timer_ignores_what_is_left() {
    // after a completed countdown nothing is left, but the plan is shown
    let s = status_summary(&state(300, 0, false, false), 12, true);
    assert_eq!(s.status_text, "⏱️ 05:00 ready");
    assert_eq!(s.tooltip, "Pomo - Ready | 12 sessions today");
    assert_eq!(s.icon_text, "");
}

#[test]
fn counting_timer_with_the_window_visible() {
    let s = status_summary(&state(1500, 1499, true, false), 3, false);
    assert_eq!(s.status_text, "⏱️ 24:59 remaining");
    assert_eq!(s.toggle, Toggle::Pause);
    assert!(s.stop_enabled);
    assert!(!s.durations_enabled);
    assert_eq!(s.icon_text, "24m");
    assert!(s.icon_active);
    assert_eq!(s.tooltip, "Pomo - Running (24:59) | 3 sessions today");
}

#[test]
fn counting_timer_with_the_window_hidden() {
    let s = status_summary(&state(1500, 1000, true, false), 1, true);
    assert_eq!(s.status_text, "⏱️ 16:40 remaining");
    assert_eq!(s.icon_text, "16m");
    assert_eq!(s.tooltip, "Pomo - 16m left (33%) | 1 sessions today");
}

#[test]
fn hidden_tooltip_never_shows_zero_minutes() {
    let s = status_summary(&state(1500, 59, true, false), 0, true);
    assert_eq!(s.tooltip, "Pomo - 1m left (96%) | 0 sessions today");
    assert_eq!(s.icon_text, "59s");
    let s = status_summary(&state(1500, 60, true, false), 0, true);
    assert_eq!(s.tooltip, "Pomo - 1m left (96%) | 0 sessions today");
    assert_eq!(s.icon_text, "1m");
    let s = status_summary(&state(0, 0, true, false), 0, true);
    assert_eq!(s.tooltip, "Pomo - 1m left (0%) | 0 sessions today");
    assert_eq!(s.icon_text, "0s");
}

#[test]
fn last_minute_shows_seconds_in_the_icon() {
    let s = status_summary(&state(1500, 5, true, false), 0, false);
    assert_eq!(s.status_text, "⏱️ 00:05 remaining");
    assert_eq!(s.icon_text, "5s");
    assert_eq!(s.tooltip, "Pomo - Running (0:05) | 0 sessions today");
}

#[test]
fn paused_timer() {
    let s = status_summary(&state(1500, 754, true, true), 2, true);
    assert_eq!(s.status_text, "⏱️ 12:34 remaining");
    assert_eq!(s.toggle, Toggle::Start);
    assert!(s.stop_enabled);
    assert!(!s.durations_enabled);
    assert_eq!(s.icon_text, "||");
    assert!(!s.icon_active);
    assert_eq!(s.tooltip, "Pomo - Paused (12:34) | 2 sessions today");
    // hidden or not, a paused timer reads the same
    let t = status_summary(&state(1500, 754, true, true), 2, false);
    assert_eq!(t.tooltip, s.tooltip);
}

#[test]
fn long_countdowns_and_large_counts() {
    let s = status_summary(&state(u32::MAX, u32::MAX, true, false), u32::MAX, false);
    assert_eq!(s.status_text, "⏱️ 71582788:15 remaining");
    assert_eq!(s.icon_text, "71582788m");
    assert_eq!(s.tooltip, "Pomo - Running (71582788:15) | 4294967295 sessions today");
    let s = status_summary(&state(6000, 6000, false, false), 10, false);
    assert_eq!(s.status_text, "⏱️ 100:00 ready");
    assert_eq!(s.tooltip, "Pomo - Ready | 10 sessions today");
}

#[test]
fn session_name_is_carried_over() {
    let mut st = state(1500, 1500, false, false);
    st.session_name = Some("write report".to_string());
    let s = status_summary(&st, 0, false);
    assert_eq!(s.session_name.as_deref(), Some("write report"));
}

#[test]
fn summary_is_the_same_every_time() {
    let st = state(1500, 321, true, false);
    let a = status_summary(&st, 4, true);
    let b = status_summary(&st, 4, true);
    assert_eq!(a.status_text, b.status_text);
    assert_eq!(a.tooltip, b.tooltip);
    assert_eq!(a.icon_text, b.icon_text);
    assert_eq!(a.toggle, b.toggle);
}

#[test]
fn no_window_is_hidden_and_a_mute_window_is_visible() {
    assert!(window_hidden(None));
    assert!(!window_hidden(Some(None)));
    assert!(!window_hidden(Some(Some(true))));
    assert!(window_hidden(Some(Some(false))));
}

#[test]
fn status_line_pads_minutes_and_seconds() {
    for (secs, want) in [
        (0u32, "⏱️ 00:00 remaining"),
        (9, "⏱️ 00:09 remaining"),
        (60, "⏱️ 01:00 remaining"),
        (300, "⏱️ 05:00 remaining"),
        (599, "⏱️ 09:59 remaining"),
        (600, "⏱️ 10:00 remaining"),
        (5999, "⏱️ 99:59 remaining"),
        (6000, "⏱️ 100:00 remaining"),
    ] {
        let s = status_summary(&state(6000, secs, true, false), 0, false);
        assert_eq!(s.status_text, want);
        let s = status_summary(&state(6000, secs, true, true), 0, false);
        assert_eq!(s.status_text, want);
    }
    let s = status_summary(&state(300, 120, false, false), 0, false);
    assert_eq!(s.status_text, "⏱️ 05:00 ready");
    let s = status_summary(&state(45, 45, false, false), 0, false);
    assert_eq!(s.status_text, "⏱️ 00:45 ready");
}

#[test]
fn tooltip_keeps_the_minutes_as_they_are() {
    let s = status_summary(&state(1500, 300, true, false), 0, false);
    assert_eq!(s.status_text, "⏱️ 05:00 remaining");
    assert_eq!(s.tooltip, "Pomo - Running (5:00) | 0 sessions today");
    let s = status_summary(&state(1500, 1125, true, true), 0, false);
    assert_eq!(s.tooltip, "Pomo - Paused (18:45) | 0 sessions today");
    assert_eq!(s.status_text, "⏱️ 18:45 remaining");
}
