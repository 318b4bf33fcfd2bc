use pomo::clock::{Timestamp, SECONDS_PER_DAY};

fn at(secs: i64, nanos: u32) -> Timestamp {
    Timestamp { secs, nanos }
}

#[test]
fn instants_are_ordered_by_seconds_then_nanoseconds() {
    assert!(at(1, 0).is_before(&at(2, 0)));
    assert!(at(1, 999_999_999).is_before(&at(2, 0)));
    assert!(at(1, 5).is_before(&at(1, 6)));
    assert!(!at(1, 5).is_before(&at(1, 5)));
    assert!(!at(2, 0).is_before(&at(1, 999_999_999)));
    assert!(at(-1, 0).is_before(&at(0, 0)));
    assert!(at(i64::MIN, 0).is_before(&at(i64::MAX, 0)));
    assert!(!at(i64::MAX, u32::MAX).is_before(&at(i64::MIN, 0)));
}

#[test]
fn day_number_counts_civil_days_from_the_epoch() {
    assert_eq!(SECONDS_PER_DAY, 86_400);
    assert_eq!(at(0, 0).day_number(0), 0);
    assert_eq!(at(86_399, 999_999_999).day_number(0), 0);
    assert_eq!(at(86_400, 0).day_number(0), 1);
    assert_eq!(at(-1, 0).day_number(0), -1);
    assert_eq!(at(-86_400, 0).day_number(0), -1);
    assert_eq!(at(-86_401, 0).day_number(0), -2);
    // 2024-03-01T12:00:00Z
    assert_eq!(at(1_709_294_400, 0).day_number(0), 19_783);
    assert_eq!(at(i64::MAX, 0).day_number(0), i64::MAX / 86_400);
    assert_eq!(at(i64::MIN, 0).day_number(0), i64::MIN.div_euclid(86_400));
    for secs in [-200_000i64, -86_400, -5, 0, 5, 86_400, 1_000_000_007] {
        assert_eq!(at(secs, 0).day_number(0), secs.div_euclid(86_400));
    }
}

#[test]
fn day_number_follows_the_local_clock() {
    // 2024-03-01T22:30:00Z
    let evening = at(19_783 * 86_400 + 22 * 3600 + 1800, 0);
    assert_eq!(evening.day_number(0), 19_783);
    // two hours east of Greenwich it is half past midnight of the next day
    assert_eq!(evening.day_number(2 * 3600), 19_784);
    assert_eq!(evening.day_number(3600), 19_783);
    assert_eq!(evening.day_number(5400), 19_784);
    assert_eq!(evening.day_number(5399), 19_783);
    // 2024-03-01T01:00:00Z is still the evening before in the west
    let early = at(19_783 * 86_400 + 3600, 0);
    assert_eq!(early.day_number(0), 19_783);
    assert_eq!(early.day_number(-3600), 19_783);
    assert_eq!(early.day_number(-3601), 19_782);
    assert_eq!(early.day_number(-8 * 3600), 19_782);
    // around the epoch
    assert_eq!(at(0, 0).day_number(-1), -1);
    assert_eq!(at(-1, 0).day_number(1), 0);
    // the widest offsets a zone can have, and any other
    assert_eq!(at(0, 0).day_number(86_399), 0);
    assert_eq!(at(1, 0).day_number(86_399), 1);
    assert_eq!(at(0, 0).day_number(-86_399), -1);
    assert_eq!(at(i64::MAX, 0).day_number(i32::MAX), ((i64::MAX as i128 + i32::MAX as i128) / 86_400) as i64);
    assert_eq!(
        at(i64::MIN, 0).day_number(i32::MIN),
        (i64::MIN as i128 + i32::MIN as i128).div_euclid(86_400) as i64
    );
    for (secs, offset) in [(-200_000i64, 7200i32), (5, -18_000), (86_400, 45_900), (1_000_000_007, -34_200)] {
        assert_eq!(at(secs, 0).day_number(offset), (secs + offset as i64).div_euclid(86_400));
    }
}

#[test]
fn within_days_of_includes_the_boundary() {
    let now = at(1_000_000, 500);
    // exactly seven days back, to the nanosecond
    assert!(at(1_000_000 - 7 * 86_400, 500).is_within_days_of(&now, 7));
    assert!(!at(1_000_000 - 7 * 86_400, 499).is_within_days_of(&now, 7));
    assert!(at(1_000_000 - 7 * 86_400, 501).is_within_days_of(&now, 7));
    assert!(!at(1_000_000 - 7 * 86_400 - 1, 999_999_999).is_within_days_of(&now, 7));
    assert!(at(1_000_000 - 7 * 86_400 + 1, 0).is_within_days_of(&now, 7));
    // the future is within any window
    assert!(at(2_000_000, 0).is_within_days_of(&now, 0));
    // zero days: from now on
    assert!(now.is_within_days_of(&now, 0));
    assert!(!at(1_000_000, 499).is_within_days_of(&now, 0));
}

#[test]
fn within_days_of_never_overflows() {
    let now = at(i64::MAX, 0);
    assert!(!at(i64::MIN, 0).is_within_days_of(&now, u32::MAX));
    assert!(at(i64::MAX, 0).is_within_days_of(&now, u32::MAX));
    let early = at(i64::MIN, 0);
    assert!(at(i64::MIN, 0).is_within_days_of(&early, u32::MAX));
    // a window of u32::MAX days reaches back about 11.7 million years
    let now = at(1_700_000_000, 0);
    assert!(at(0, 0).is_within_days_of(&now, u32::MAX));
    assert!(at(1_700_000_000 - 4_294_967_295i64 * 86_400, 0).is_within_days_of(&now, u32::MAX));
    assert!(!at(1_700_000_000 - 4_294_967_295i64 * 86_400 - 1, 0).is_within_days_of(&now, u32::MAX));
}
