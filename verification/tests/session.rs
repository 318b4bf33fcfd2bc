use pomo::clock::Timestamp;
use pomo::session::{
    complete_session_record, get_recent_sessions, get_todays_session_count, start_session_record,
    SessionDatabase, SessionRecord,
};
use pomo::timer::TimerState;

fn at(secs: i64) -> Timestamp {
    Timestamp { secs, nanos: 0 }
}

fn timer(duration: u32, name: Option<&str>) -> TimerState {
    TimerState {
        duration,
        remaining: duration,
        is_running: false,
        is_paused: false,
        session_name: name.map(|n| n.to_string()),
        current_session_id: None,
    }
}

fn record(id: &str, start: i64, completed: bool) -> SessionRecord {
    SessionRecord {
        id: id.to_string(),
        name: None,
        session_type: "focus".to_string(),
        duration: 1500,
        actual_duration: if completed { 1500 } else { 0 },
        completed,
        start_time: at(start),
        end_time: None,
        interrupted: false,
        pause_count: 0,
        pause_duration: 0,
    }
}

fn ids(list: &[SessionRecord]) -> Vec<&str> {
    list.iter().map(|r| r.id.as_str()).collect()
}

#[test]
fn default_database_is_empty() {
    let db = SessionDatabase::default();
    assert!(db.sessions.is_empty());
    assert_eq!(db.version, 0);
}

#[test]
fn begin_session_appends_an_open_record() {
    let mut db = SessionDatabase::default();
    db.version = 3;
    db.begin_session("a".to_string(), "focus".to_string(), &timer(1500, Some("essay")), at(100));
    db.begin_session("b".to_string(), "break".to_string(), &timer(300, None), at(50));
    assert_eq!(db.version, 3);
    assert_eq!(db.sessions.len(), 2);
    let r = &db.sessions[0];
    assert_eq!(r.id, "a");
    assert_eq!(r.name.as_deref(), Some("essay"));
    assert_eq!(r.session_type, "focus");
    assert_eq!(r.duration, 1500);
    assert_eq!(r.actual_duration, 0);
    assert!(!r.completed);
    assert_eq!(r.start_time, at(100));
    assert_eq!(r.end_time, None);
    assert!(!r.interrupted);
    assert_eq!(r.pause_count, 0);
    assert_eq!(r.pause_duration, 0);
    let r = &db.sessions[1];
    assert_eq!(r.id, "b");
    assert_eq!(r.name, None);
    assert_eq!(r.duration, 300);
    assert_eq!(r.start_time, at(50));
}

#[test]
fn complete_session_fills_in_the_end() {
    let mut db = SessionDatabase::default();
    db.begin_session("a".to_string(), "focus".to_string(), &timer(1500, Some("essay")), at(100));
    db.begin_session("b".to_string(), "focus".to_string(), &timer(1500, None), at(200));
    db.complete_session(&"b".to_string(), true, 1490, 2, 35, at(1800));
    let a = &db.sessions[0];
    assert!(!a.completed);
    assert_eq!(a.end_time, None);
    let b = &db.sessions[1];
    assert!(b.completed);
    assert!(!b.interrupted);
    assert_eq!(b.actual_duration, 1490);
    assert_eq!(b.pause_count, 2);
    assert_eq!(b.pause_duration, 35);
    assert_eq!(b.end_time, Some(at(1800)));
    assert_eq!(b.start_time, at(200));
    assert_eq!(b.duration, 1500);
    assert_eq!(b.id, "b");
    db.complete_session(&"a".to_string(), false, 600, 0, 0, at(900));
    let a = &db.sessions[0];
    assert!(!a.completed);
    assert!(a.interrupted);
    assert_eq!(a.actual_duration, 600);
    assert_eq!(a.end_time, Some(at(900)));
    assert_eq!(a.name.as_deref(), Some("essay"));
}

#[test]
fn completing_an_unknown_session_changes_nothing() {
    let mut db = SessionDatabase::default();
    db.begin_session("a".to_string(), "focus".to_string(), &timer(1500, None), at(100));
    db.complete_session(&"zzz".to_string(), true, 1500, 1, 1, at(999));
    assert_eq!(db.sessions.len(), 1);
    let a = &db.sessions[0];
    assert!(!a.completed);
    assert!(!a.interrupted);
    assert_eq!(a.actual_duration, 0);
    assert_eq!(a.end_time, None);
    let mut empty = SessionDatabase::default();
    empty.complete_session(&"a".to_string(), true, 1, 1, 1, at(1));
    assert!(empty.sessions.is_empty());
}

#[test]
fn only_the_first_record_with_the_id_is_closed() {
    let mut db = SessionDatabase::default();
    db.sessions.push(record("x", 1, false));
    db.sessions.push(record("dup", 2, false));
    db.sessions.push(record("dup", 3, false));
    db.complete_session(&"dup".to_string(), true, 77, 0, 0, at(10));
    assert!(!db.sessions[0].completed);
    assert!(db.sessions[1].completed);
    assert_eq!(db.sessions[1].actual_duration, 77);
    assert!(!db.sessions[2].completed);
    assert_eq!(db.sessions[2].end_time, None);
}

#[test]
fn recent_lists_newest_first() {
    let mut db = SessionDatabase::default();
    db.sessions.push(record("a", 300, true));
    db.sessions.push(record("b", 100, false));
    db.sessions.push(record("c", 200, true));
    db.sessions.push(record("d", 400, false));
    assert_eq!(ids(&db.recent(None)), vec!["d", "a", "c", "b"]);
    assert_eq!(ids(&db.recent(Some(2))), vec!["d", "a"]);
    assert_eq!(ids(&db.recent(Some(0))), Vec::<&str>::new());
    assert_eq!(ids(&db.recent(Some(4))), vec!["d", "a", "c", "b"]);
    assert_eq!(ids(&db.recent(Some(u32::MAX))), vec!["d", "a", "c", "b"]);
    assert_eq!(ids(&get_recent_sessions(Some(3), &db)), vec!["d", "a", "c"]);
    // the history itself stays in the order of appending
    assert_eq!(ids(&db.sessions), vec!["a", "b", "c", "d"]);
}

#[test]
fn recent_keeps_records_of_one_instant_in_order() {
    let mut db = SessionDatabase::default();
    db.sessions.push(record("a", 5, true));
    db.sessions.push(record("b", 9, true));
    db.sessions.push(record("c", 5, true));
    db.sessions.push(record("d", 9, true));
    assert_eq!(ids(&db.recent(None)), vec!["b", "d", "a", "c"]);
    assert_eq!(ids(&db.recent(Some(3))), vec!["b", "d", "a"]);
}

#[test]
fn recent_copies_whole_records() {
    let mut db = SessionDatabase::default();
    db.begin_session("a".to_string(), "focus".to_string(), &timer(1500, Some("essay")), at(100));
    db.complete_session(&"a".to_string(), true, 1400, 1, 20, at(1700));
    let list = db.recent(None);
    assert_eq!(list.len(), 1);
    let r = &list[0];
    assert_eq!(r.id, "a");
    assert_eq!(r.name.as_deref(), Some("essay"));
    assert_eq!(r.session_type, "focus");
    assert_eq!(r.duration, 1500);
    assert_eq!(r.actual_duration, 1400);
    assert!(r.completed);
    assert_eq!(r.start_time, at(100));
    assert_eq!(r.end_time, Some(at(1700)));
    assert!(!r.interrupted);
    assert_eq!(r.pause_count, 1);
    assert_eq!(r.pause_duration, 20);
    let d = r.duplicate();
    assert_eq!(d.id, "a");
    assert_eq!(d.end_time, Some(at(1700)));
    assert!(SessionDatabase::default().recent(Some(5)).is_empty());
}

#[test]
fn start_keys_lists_the_start_times() {
    let mut db = SessionDatabase::default();
    db.sessions.push(record("a", 300, true));
    db.sessions.push(record("b", 100, false));
    assert_eq!(db.start_keys(), vec![at(300), at(100)]);
}

#[test]
fn completed_sessions_are_counted_by_civil_day() {
    let day = 19_783i64; // 2024-03-01
    let midnight = day * 86_400;
    let mut db = SessionDatabase::default();
    db.sessions.push(record("late yesterday", midnight - 1, true));
    db.sessions.push(record("first second", midnight, true));
    db.sessions.push(record("noon, abandoned", midnight + 43_200, false));
    db.sessions.push(record("noon", midnight + 43_200, true));
    db.sessions.push(record("last second", midnight + 86_399, true));
    db.sessions.push(record("tomorrow", midnight + 86_400, true));
    assert_eq!(db.count_completed_on(day, 0), 3);
    assert_eq!(db.count_completed_on(day - 1, 0), 1);
    assert_eq!(db.count_completed_on(day + 1, 0), 1);
    assert_eq!(db.count_completed_on(day + 2, 0), 0);
    // a calendar day, not the last 24 hours
    let now = Timestamp { secs: midnight + 10, nanos: 0 };
    assert_eq!(db.count_completed_on(now.day_number(0), 0), 3);
    assert_eq!(SessionDatabase::default().count_completed_on(day, 0), 0);
}

#[test]
fn the_day_is_the_day_of_the_local_clock() {
    let day = 19_783i64; // 2024-03-01
    let midnight = day * 86_400;
    let east = 2 * 3600;
    let mut db = SessionDatabase::default();
    db.sessions.push(record("ten in the morning", midnight + 10 * 3600, true));
    // asked at 22:30 UTC
    let now = Timestamp { secs: midnight + 22 * 3600 + 1800, nanos: 0 };
    // on a clock at UTC the day has not turned
    assert_eq!(db.count_completed_on(now.day_number(0), 0), 1);
    // two hours east it has: today holds nothing yet
    assert_eq!(now.day_number(east), day + 1);
    assert_eq!(db.count_completed_on(now.day_number(east), east), 0);
    // a session begun at 22:10 UTC is of the new local day
    db.sessions.push(record("ten past midnight, locally", midnight + 22 * 3600 + 600, true));
    assert_eq!(db.count_completed_on(now.day_number(east), east), 1);
    assert_eq!(db.count_completed_on(day, east), 1);
    assert_eq!(db.count_completed_on(now.day_number(0), 0), 2);
    // five hours west, a session of 03:00 UTC belongs to the evening before
    let west = -5 * 3600;
    db.sessions.push(record("three at night, UTC", midnight + 3 * 3600, true));
    assert_eq!(db.count_completed_on(day - 1, west), 1);
    assert_eq!(db.count_completed_on(day, west), 2);
    assert_eq!(db.count_completed_on(day, 0), 3);
}

#[test]
fn days_before_the_epoch_are_counted_too() {
    let mut db = SessionDatabase::default();
    db.sessions.push(record("a", -1, true));
    db.sessions.push(record("b", -86_400, true));
    db.sessions.push(record("c", -86_401, true));
    db.sessions.push(record("d", 0, true));
    assert_eq!(db.count_completed_on(-1, 0), 2);
    assert_eq!(db.count_completed_on(-2, 0), 1);
    assert_eq!(db.count_completed_on(0, 0), 1);
    assert_eq!(db.count_completed_on(0, 1), 2);
    assert_eq!(db.count_completed_on(-1, 1), 2);
}

#[test]
fn start_session_record_opens_a_session_now() {
    let mut db = SessionDatabase::default();
    let t = timer(900, Some("reading"));
    let id = start_session_record("focus".to_string(), &t, &mut db);
    assert_eq!(id.chars().count(), 36);
    assert_eq!(id.len(), 36);
    for (i, c) in id.chars().enumerate() {
        if i == 8 || i == 13 || i == 18 || i == 23 {
            assert_eq!(c, '-');
        } else {
            assert!(c.is_ascii_hexdigit() && !c.is_ascii_uppercase());
        }
    }
    assert_eq!(db.sessions.len(), 1);
    let r = &db.sessions[0];
    assert_eq!(r.id, id);
    assert_eq!(r.name.as_deref(), Some("reading"));
    assert_eq!(r.session_type, "focus");
    assert_eq!(r.duration, 900);
    assert_eq!(r.actual_duration, 0);
    assert!(!r.completed);
    assert_eq!(r.end_time, None);
    // the clock was read: the record began in this century
    assert!(r.start_time.secs > 1_600_000_000);
    assert!(r.start_time.nanos < 1_000_000_000);
    let id2 = start_session_record("focus".to_string(), &t, &mut db);
    assert_ne!(id, id2);
    assert_eq!(db.sessions.len(), 2);
    assert!(!db.sessions[1].start_time.is_before(&db.sessions[0].start_time));
}

#[test]
fn complete_session_record_closes_a_session_now() {
    let mut db = SessionDatabase::default();
    let t = timer(900, None);
    let id = start_session_record("focus".to_string(), &t, &mut db);
    complete_session_record(&id, true, 880, 1, 15, &mut db);
    let r = &db.sessions[0];
    assert!(r.completed);
    assert!(!r.interrupted);
    assert_eq!(r.actual_duration, 880);
    assert_eq!(r.pause_count, 1);
    assert_eq!(r.pause_duration, 15);
    let end = r.end_time.expect("the end is recorded");
    assert!(!end.is_before(&r.start_time));
    complete_session_record(&"no such session".to_string(), false, 1, 1, 1, &mut db);
    assert!(db.sessions[0].completed);
    assert_eq!(db.sessions.len(), 1);
}

#[test]
fn todays_count_sees_a_session_completed_now() {
    let mut db = SessionDatabase::default();
    db.sessions.push(record("long ago", 86_400 * 3, true));
    assert_eq!(get_todays_session_count(&db), 0);
    let t = timer(900, None);
    let id = start_session_record("focus".to_string(), &t, &mut db);
    assert_eq!(get_todays_session_count(&db), 0);
    complete_session_record(&id, true, 900, 0, 0, &mut db);
    let before = chrono::Local::now().offset().local_minus_utc();
    let count = get_todays_session_count(&db);
    let after = chrono::Local::now().offset().local_minus_utc();
    assert!(-86_400 < before && before < 86_400);
    let started = db.sessions[1].start_time;
    // the session began a moment ago: it is of today unless midnight or a
    // change of the offset fell in between
    if before == after {
        let today = db.count_completed_on(started.day_number(before), before);
        assert_eq!(today, 1);
        assert!(count == today || count == 0);
    }
    // a session of the same instant a week ago is not of today
    db.sessions.push(record("last week", started.secs - 7 * 86_400, true));
    assert!(get_todays_session_count(&db) <= 1);
}
