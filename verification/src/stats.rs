//! Statistics over the session history.
//!
//! Rates are kept as exact fractions of two counts; a fraction of nothing is
//! zero. Turning a fraction into a floating-point number is left to the
//! caller.

use vstd::prelude::*;
use crate::clock::{utc_now, Timestamp};
use crate::order::{lemma_ordering_is_ordering, order_by_time, ordering};
use crate::session::{in_order, start_times, SessionDatabase, SessionRecord};

verus! {

/// A fraction `numerator / denominator` with a denominator above zero.
#[derive(Clone, Copy, Debug, PartialEq, Eq, Structural)]
pub struct Ratio {
    pub numerator: u64,
    pub denominator: u64,
}

impl Ratio {
    /// The fraction zero.
    pub open spec fn zero() -> Ratio {
        Ratio { numerator: 0, denominator: 1 }
    }

    /// `part` out of `whole`, and zero out of nothing.
    pub open spec fn of(part: nat, whole: nat) -> Ratio {
        if whole == 0 {
            Ratio::zero()
        } else {
            Ratio { numerator: part as u64, denominator: whole as u64 }
        }
    }

    /// `part` out of `whole`, and zero out of nothing.
    pub fn new(part: u64, whole: u64) -> (r: Ratio)
        ensures
            r == Ratio::of(part as nat, whole as nat),
            r.denominator > 0,
    {
        if whole == 0 {
            Ratio { numerator: 0, denominator: 1 }
        } else {
            Ratio { numerator: part, denominator: whole }
        }
    }
}

/// What the history amounts to.
#[derive(Clone, Copy, Debug, PartialEq, Eq, Structural)]
pub struct SessionStats {
    pub total_sessions: u32,
    pub completed_sessions: u32,
    /// Completed sessions out of all.
    pub completion_rate: Ratio,
    /// Seconds run in completed sessions, out of their number.
    pub average_duration: Ratio,
    /// Seconds run in completed sessions.
    pub total_focus_time: u64,
    /// Completed sessions in a row, counted back from the newest.
    pub current_streak: u32,
    /// The most completed sessions in a row, anywhere in the history.
    pub longest_streak: u32,
    /// Completed sessions out of all, among the sessions with a name.
    pub named_sessions_completion_rate: Ratio,
    /// Completed sessions out of all, among the sessions without a name.
    pub unnamed_sessions_completion_rate: Ratio,
}

/// The records that began within the last `days` days before `now`.
pub open spec fn began_within(days: u32, now: Timestamp) -> spec_fn(SessionRecord) -> bool {
    |r: SessionRecord| r.start_time.within_days_of(now, days)
}

/// The completed records.
pub open spec fn is_completed() -> spec_fn(SessionRecord) -> bool {
    |r: SessionRecord| r.completed
}

/// The records with a name.
pub open spec fn is_named() -> spec_fn(SessionRecord) -> bool {
    |r: SessionRecord| r.name is Some
}

/// The records without a name.
pub open spec fn is_unnamed() -> spec_fn(SessionRecord) -> bool {
    |r: SessionRecord| r.name is None
}

/// The part of the history the statistics look at: all of it, or with
/// `days` given the records that began within the last `days` days before
/// `now`.
pub open spec fn windowed(records: Seq<SessionRecord>, days: Option<u32>, now: Timestamp) -> Seq<
    SessionRecord,
> {
    match days {
        Some(d) => records.filter(began_within(d, now)),
        None => records,
    }
}

/// How many of `records` were completed.
pub open spec fn completed_count(records: Seq<SessionRecord>) -> nat {
    records.filter(is_completed()).len()
}

/// The seconds run in the completed ones of `records`, all told.
pub open spec fn focus_time(records: Seq<SessionRecord>) -> nat
    decreases records.len(),
{
    if records.len() == 0 {
        0
    } else {
        focus_time(records.drop_last()) + if records.last().completed {
            records.last().actual_duration as nat
        } else {
            0
        }
    }
}

/// Whether each of `records` was completed, taken in order of time.
pub open spec fn flags_by_time(records: Seq<SessionRecord>, newest_first: bool) -> Seq<bool> {
    ordering(start_times(records), newest_first).map_values(
        |i: usize| records[i as int].completed,
    )
}

/// The number of flags set at the head of `flags`, up to the first one that
/// is not.
pub open spec fn leading_run(flags: Seq<bool>) -> nat
    decreases flags.len(),
{
    if flags.len() > 0 && flags.first() {
        1 + leading_run(flags.drop_first())
    } else {
        0
    }
}

/// The number of flags set at the tail of `flags`, back to the last one
/// that is not.
pub open spec fn trailing_run(flags: Seq<bool>) -> nat
    decreases flags.len(),
{
    if flags.len() > 0 && flags.last() {
        1 + trailing_run(flags.drop_last())
    } else {
        0
    }
}

/// The length of the longest run of set flags in `flags`.
pub open spec fn longest_run(flags: Seq<bool>) -> nat
    decreases flags.len(),
{
    if flags.len() == 0 {
        0
    } else {
        let before = longest_run(flags.drop_last());
        let here = trailing_run(flags);
        if here > before {
            here
        } else {
            before
        }
    }
}

/// Completed sessions in a row, counted back from the newest of `records`.
pub open spec fn current_streak(records: Seq<SessionRecord>) -> nat {
    leading_run(flags_by_time(records, true))
}

/// The most completed sessions in a row when `records` are taken from the
/// oldest to the newest.
pub open spec fn longest_streak(records: Seq<SessionRecord>) -> nat {
    longest_run(flags_by_time(records, false))
}

/// The statistics of `records`.
pub open spec fn stats_of(records: Seq<SessionRecord>) -> SessionStats {
    let named = records.filter(is_named());
    let unnamed = records.filter(is_unnamed());
    SessionStats {
        total_sessions: records.len() as u32,
        completed_sessions: completed_count(records) as u32,
        completion_rate: Ratio::of(completed_count(records), records.len()),
        average_duration: Ratio::of(focus_time(records), completed_count(records)),
        total_focus_time: focus_time(records) as u64,
        current_streak: current_streak(records) as u32,
        longest_streak: longest_streak(records) as u32,
        named_sessions_completion_rate: Ratio::of(completed_count(named), named.len()),
        unnamed_sessions_completion_rate: Ratio::of(completed_count(unnamed), unnamed.len()),
    }
}

impl SessionStats {
    /// The statistics of an empty history.
    pub open spec fn zero() -> SessionStats {
        SessionStats {
            total_sessions: 0,
            completed_sessions: 0,
            completion_rate: Ratio::zero(),
            average_duration: Ratio::zero(),
            total_focus_time: 0,
            current_streak: 0,
            longest_streak: 0,
            named_sessions_completion_rate: Ratio::zero(),
            unnamed_sessions_completion_rate: Ratio::zero(),
        }
    }

    /// No fraction in these statistics has a zero denominator.
    pub open spec fn wf(self) -> bool {
        &&& self.completion_rate.denominator > 0
        &&& self.average_duration.denominator > 0
        &&& self.named_sessions_completion_rate.denominator > 0
        &&& self.unnamed_sessions_completion_rate.denominator > 0
    }
}

/// Whether each of `records` was completed, position by position.
pub open spec fn completion_flags(records: Seq<SessionRecord>) -> Seq<bool> {
    records.map_values(|r: SessionRecord| r.completed)
}

/// The flags at the positions `order` names, in that order.
pub open spec fn picked(flags: Seq<bool>, order: Seq<usize>) -> Seq<bool> {
    order.map_values(|i: usize| flags[i as int])
}

/// A run of set flags at the head is no longer than the sequence, and runs
/// of set flags are no longer than that either.
proof fn lemma_runs_fit(flags: Seq<bool>)
    ensures
        leading_run(flags) <= flags.len(),
        trailing_run(flags) <= flags.len(),
        longest_run(flags) <= flags.len(),
    decreases flags.len(),
{
    if flags.len() > 0 {
        lemma_runs_fit(flags.drop_first());
        lemma_runs_fit(flags.drop_last());
    }
}

/// Running sums over a stretch of records.
struct Tally {
    completed: u32,
    named: u32,
    named_completed: u32,
    unnamed: u32,
    unnamed_completed: u32,
    focus: u64,
}

impl Tally {
    /// These are the sums over `records`, and none has outgrown its type.
    spec fn sums(self, records: Seq<SessionRecord>) -> bool {
        &&& records.len() <= u32::MAX
        &&& self.completed == completed_count(records)
        &&& self.named == records.filter(is_named()).len()
        &&& self.named_completed == completed_count(records.filter(is_named()))
        &&& self.unnamed == records.filter(is_unnamed()).len()
        &&& self.unnamed_completed == completed_count(records.filter(is_unnamed()))
        &&& self.focus == focus_time(records)
        &&& self.completed <= records.len()
        &&& self.named <= records.len()
        &&& self.named_completed <= records.len()
        &&& self.unnamed <= records.len()
        &&& self.unnamed_completed <= records.len()
        &&& self.focus <= records.len() * 0xFFFF_FFFF
    }
}

/// Over no records every sum is zero.
proof fn lemma_nothing_to_count()
    ensures
        completed_count(Seq::empty()) == 0,
        Seq::<SessionRecord>::empty().filter(is_named()).len() == 0,
        Seq::<SessionRecord>::empty().filter(is_unnamed()).len() == 0,
        completed_count(Seq::<SessionRecord>::empty().filter(is_named())) == 0,
        completed_count(Seq::<SessionRecord>::empty().filter(is_unnamed())) == 0,
        focus_time(Seq::empty()) == 0,
{
    let none = Seq::<SessionRecord>::empty();
    none.lemma_filter_len(is_completed());
    none.lemma_filter_len(is_named());
    none.lemma_filter_len(is_unnamed());
    none.filter(is_named()).lemma_filter_len(is_completed());
    none.filter(is_unnamed()).lemma_filter_len(is_completed());
}

/// What one more record adds to each sum.
proof fn lemma_count_one_more(sofar: Seq<SessionRecord>, x: SessionRecord)
    ensures
        completed_count(sofar.push(x)) == completed_count(sofar) + if x.completed {
            1nat
        } else {
            0nat
        },
        sofar.push(x).filter(is_named()).len() == sofar.filter(is_named()).len() + if x.name is Some {
            1nat
        } else {
            0nat
        },
        sofar.push(x).filter(is_unnamed()).len() == sofar.filter(is_unnamed()).len()
            + if x.name is None {
            1nat
        } else {
            0nat
        },
        completed_count(sofar.push(x).filter(is_named())) == completed_count(
            sofar.filter(is_named()),
        ) + if x.name is Some && x.completed {
            1nat
        } else {
            0nat
        },
        completed_count(sofar.push(x).filter(is_unnamed())) == completed_count(
            sofar.filter(is_unnamed()),
        ) + if x.name is None && x.completed {
            1nat
        } else {
            0nat
        },
        focus_time(sofar.push(x)) == focus_time(sofar) + if x.completed {
            x.actual_duration as nat
        } else {
            0nat
        },
        start_times(sofar.push(x)) == start_times(sofar).push(x.start_time),
        completion_flags(sofar.push(x)) == completion_flags(sofar).push(x.completed),
{
    assert(sofar.push(x).drop_last() =~= sofar);
    sofar.lemma_filter_push(x, is_completed());
    sofar.lemma_filter_push(x, is_named());
    sofar.lemma_filter_push(x, is_unnamed());
    sofar.filter(is_named()).lemma_filter_push(x, is_completed());
    sofar.filter(is_unnamed()).lemma_filter_push(x, is_completed());
    assert(start_times(sofar.push(x)) =~= start_times(sofar).push(x.start_time));
    assert(completion_flags(sofar.push(x)) =~= completion_flags(sofar).push(x.completed));
}

fn count_leading(flags: &Vec<bool>, order: &Vec<usize>) -> (n: u32)
    requires
        order.len() <= u32::MAX,
        forall|a: int| 0 <= a < order.len() ==> #[trigger] order@[a] < flags.len(),
    ensures
        n == leading_run(picked(flags@, order@)),
{
    let ghost seen = picked(flags@, order@);
    let mut j: usize = 0;
    proof {
        assert(seen.skip(0) =~= seen);
    }
    while j < order.len() && flags[order[j]]
        invariant
            j <= order.len(),
            order.len() <= u32::MAX,
            seen == picked(flags@, order@),
            forall|a: int| 0 <= a < order.len() ==> #[trigger] order@[a] < flags.len(),
            leading_run(seen) == j + leading_run(seen.skip(j as int)),
        decreases order.len() - j,
    {
        proof {
            let rest = seen.skip(j as int);
            assert(rest.first() == seen[j as int]);
            assert(rest.drop_first() =~= seen.skip(j as int + 1));
        }
        j = j + 1;
    }
    proof {
        let rest = seen.skip(j as int);
        if j < order.len() {
            assert(rest.first() == seen[j as int]);
        }
    }
    j as u32
}

fn find_longest(flags: &Vec<bool>, order: &Vec<usize>) -> (n: u32)
    requires
        order.len() <= u32::MAX,
        forall|a: int| 0 <= a < order.len() ==> #[trigger] order@[a] < flags.len(),
    ensures
        n == longest_run(picked(flags@, order@)),
{
    let ghost seen = picked(flags@, order@);
    let mut longest: u32 = 0;
    let mut run: u32 = 0;
    let mut j: usize = 0;
    while j < order.len()
        invariant
            j <= order.len(),
            order.len() <= u32::MAX,
            seen == picked(flags@, order@),
            forall|a: int| 0 <= a < order.len() ==> #[trigger] order@[a] < flags.len(),
            run == trailing_run(seen.take(j as int)),
            longest == longest_run(seen.take(j as int)),
            run <= j,
            longest <= j,
        decreases order.len() - j,
    {
        proof {
            let upto = seen.take(j as int + 1);
            assert(upto.drop_last() =~= seen.take(j as int));
            assert(upto.last() == seen[j as int]);
        }
        if flags[order[j]] {
            run = run + 1;
            if run > longest {
                longest = run;
            }
        } else {
            run = 0;
        }
        j = j + 1;
    }
    proof {
        assert(seen.take(j as int) =~= seen);
    }
    longest
}

impl SessionDatabase {
    /// The positions of the records that the statistics look at.
    fn window(&self, days: Option<u32>, now: &Timestamp) -> (positions: Vec<usize>)
        ensures
            positions.len() <= self.sessions.len(),
            forall|a: int|
                0 <= a < positions.len() ==> #[trigger] positions@[a] < self.sessions.len(),
            in_order(self.sessions@, positions@) == windowed(self.sessions@, days, *now),
    {
        let mut positions: Vec<usize> = Vec::new();
        let mut i: usize = 0;
        while i < self.sessions.len()
            invariant
                i <= self.sessions.len(),
                positions.len() <= i,
                forall|a: int| 0 <= a < positions.len() ==> #[trigger] positions@[a] < i,
                in_order(self.sessions@, positions@) == windowed(
                    self.sessions@.take(i as int),
                    days,
                    *now,
                ),
            decreases self.sessions.len() - i,
        {
            let keep = match days {
                Some(d) => self.sessions[i].start_time.is_within_days_of(now, d),
                None => true,
            };
            let ghost before = positions@;
            proof {
                let sofar = self.sessions@.take(i as int);
                let x = self.sessions@[i as int];
                assert(self.sessions@.take(i as int + 1) =~= sofar.push(x));
                if let Some(d) = days {
                    sofar.lemma_filter_push(x, began_within(d, *now));
                }
            }
            if keep {
                positions.push(i);
                proof {
                    assert(in_order(self.sessions@, positions@) =~= in_order(
                        self.sessions@,
                        before,
                    ).push(self.sessions@[i as int]));
                }
            }
            i = i + 1;
        }
        proof {
            assert(self.sessions@.take(i as int) =~= self.sessions@);
        }
        positions
    }

    /// Goes through the records at `positions` once and adds them up.
    fn tally(&self, positions: &Vec<usize>) -> (out: (Vec<Timestamp>, Vec<bool>, Tally))
        requires
            positions.len() <= u32::MAX,
            forall|a: int|
                0 <= a < positions.len() ==> #[trigger] positions@[a] < self.sessions.len(),
        ensures
            out.0@ == start_times(in_order(self.sessions@, positions@)),
            out.1@ == completion_flags(in_order(self.sessions@, positions@)),
            out.2.sums(in_order(self.sessions@, positions@)),
    {
        let ghost win = in_order(self.sessions@, positions@);
        let mut keys: Vec<Timestamp> = Vec::new();
        let mut flags: Vec<bool> = Vec::new();
        let mut t = Tally {
            completed: 0,
            named: 0,
            named_completed: 0,
            unnamed: 0,
            unnamed_completed: 0,
            focus: 0,
        };
        let mut j: usize = 0;
        proof {
            assert(win.take(0) =~= Seq::<SessionRecord>::empty());
            lemma_nothing_to_count();
            assert(keys@ =~= start_times(win.take(0)));
            assert(flags@ =~= completion_flags(win.take(0)));
        }
        while j < positions.len()
            invariant
                j <= positions.len(),
                positions.len() <= u32::MAX,
                forall|a: int|
                    0 <= a < positions.len() ==> #[trigger] positions@[a] < self.sessions.len(),
                win == in_order(self.sessions@, positions@),
                keys@ == start_times(win.take(j as int)),
                flags@ == completion_flags(win.take(j as int)),
                t.sums(win.take(j as int)),
            decreases positions.len() - j,
        {
            let record = &self.sessions[positions[j]];
            proof {
                let sofar = win.take(j as int);
                assert(win[j as int] == *record);
                assert(win.take(j as int + 1) =~= sofar.push(*record));
                lemma_count_one_more(sofar, *record);
            }
            keys.push(record.start_time);
            flags.push(record.completed);
            if record.completed {
                t.completed = t.completed + 1;
                t.focus = t.focus + record.actual_duration as u64;
            }
            if record.name.is_some() {
                t.named = t.named + 1;
                if record.completed {
                    t.named_completed = t.named_completed + 1;
                }
            } else {
                t.unnamed = t.unnamed + 1;
                if record.completed {
                    t.unnamed_completed = t.unnamed_completed + 1;
                }
            }
            j = j + 1;
        }
        proof {
            assert(win.take(j as int) =~= win);
        }
        (keys, flags, t)
    }

    /// The statistics of the history as of `now`: of all of it, or with
    /// `days` given of the records that began within the last `days` days.
    pub fn stats(&self, days: Option<u32>, now: Timestamp) -> (stats: SessionStats)
        requires
            self.sessions@.len() <= u32::MAX,
        ensures
            stats == stats_of(windowed(self.sessions@, days, now)),
            stats.wf(),
    {
        let positions = self.window(days, &now);
        let ghost win = windowed(self.sessions@, days, now);
        let (keys, flags, t) = self.tally(&positions);
        let newest = order_by_time(&keys, true);
        let oldest = order_by_time(&keys, false);
        proof {
            assert(picked(flags@, newest@) =~= flags_by_time(win, true));
            assert(picked(flags@, oldest@) =~= flags_by_time(win, false));
            lemma_runs_fit(flags_by_time(win, true));
            lemma_runs_fit(flags_by_time(win, false));
        }
        let current = count_leading(&flags, &newest);
        let longest = find_longest(&flags, &oldest);
        let total: u32 = positions.len() as u32;
        SessionStats {
            total_sessions: total,
            completed_sessions: t.completed,
            completion_rate: Ratio::new(t.completed as u64, total as u64),
            average_duration: Ratio::new(t.focus, t.completed as u64),
            total_focus_time: t.focus,
            current_streak: current,
            longest_streak: longest,
            named_sessions_completion_rate: Ratio::new(t.named_completed as u64, t.named as u64),
            unnamed_sessions_completion_rate: Ratio::new(
                t.unnamed_completed as u64,
                t.unnamed as u64,
            ),
        }
    }
}

/// The statistics of the history as of the present instant; see
/// [`SessionDatabase::stats`]. Without `days` the instant does not matter.
pub fn get_session_stats(days: Option<u32>, db: &SessionDatabase) -> (stats: SessionStats)
    requires
        db.sessions@.len() <= u32::MAX,
    ensures
        stats.wf(),
        days is None ==> stats == stats_of(db.sessions@),
        exists|now: Timestamp|
            now.secs >= 0 && now.nanos < 1_000_000_000 && stats == stats_of(
                #[trigger] windowed(db.sessions@, days, now),
            ),
{
    let now = utc_now();
    db.stats(days, now)
}

/// The seconds run in completed sessions stay below the number of records
/// times the most one record can hold.
proof fn lemma_focus_time_bound(records: Seq<SessionRecord>)
    ensures
        focus_time(records) <= records.len() * 0xFFFF_FFFF,
    decreases records.len(),
{
    if records.len() > 0 {
        lemma_focus_time_bound(records.drop_last());
    }
}

/// All flags of `flags` from position `a` up to, not including, position
/// `b` are set.
pub open spec fn all_set(flags: Seq<bool>, a: int, b: int) -> bool {
    &&& 0 <= a <= b <= flags.len()
    &&& forall|i: int| a <= i < b ==> flags[i]
}

/// The run at the head is exactly the stretch of set flags that ends at the
/// first flag not set.
pub proof fn lemma_leading_run(flags: Seq<bool>)
    ensures
        all_set(flags, 0, leading_run(flags) as int),
        leading_run(flags) < flags.len() ==> !flags[leading_run(flags) as int],
    decreases flags.len(),
{
    if flags.len() > 0 && flags.first() {
        let rest = flags.drop_first();
        lemma_leading_run(rest);
        assert forall|i: int| 0 <= i < leading_run(flags) implies flags[i] by {
            if i > 0 {
                assert(flags[i] == rest[i - 1]);
            }
        }
        if leading_run(flags) < flags.len() {
            assert(flags[leading_run(flags) as int] == rest[leading_run(rest) as int]);
        }
    }
}

/// The run at the tail is exactly the stretch of set flags that begins
/// behind the last flag not set.
pub proof fn lemma_trailing_run(flags: Seq<bool>)
    ensures
        all_set(flags, flags.len() - trailing_run(flags), flags.len() as int),
        trailing_run(flags) < flags.len() ==> !flags[flags.len() - trailing_run(flags) - 1],
    decreases flags.len(),
{
    if flags.len() > 0 && flags.last() {
        let rest = flags.drop_last();
        lemma_trailing_run(rest);
        assert forall|i: int| flags.len() - trailing_run(flags) <= i < flags.len() implies flags[i] by {
            if i < flags.len() - 1 {
                assert(flags[i] == rest[i]);
            }
        }
        if trailing_run(flags) < flags.len() {
            assert(flags[flags.len() - trailing_run(flags) - 1] == rest[rest.len() - trailing_run(
                rest,
            ) - 1]);
        }
    }
}

/// The longest run is the length of a stretch of set flags, and no stretch
/// of set flags is longer.
pub proof fn lemma_longest_run(flags: Seq<bool>)
    ensures
        exists|a: int, b: int| #[trigger] all_set(flags, a, b) && b - a == longest_run(flags),
        forall|a: int, b: int| #[trigger] all_set(flags, a, b) ==> b - a <= longest_run(flags),
    decreases flags.len(),
{
    if flags.len() == 0 {
        assert(all_set(flags, 0, 0));
    } else {
        let rest = flags.drop_last();
        let n = flags.len() as int;
        lemma_longest_run(rest);
        lemma_trailing_run(flags);
        let here = trailing_run(flags) as int;
        if here > longest_run(rest) {
            assert(all_set(flags, n - here, n));
        } else {
            let (a, b) = choose|a: int, b: int| #[trigger]
                all_set(rest, a, b) && b - a == longest_run(rest);
            assert(all_set(flags, a, b)) by {
                assert forall|i: int| a <= i < b implies flags[i] by {
                    assert(flags[i] == rest[i]);
                }
            }
        }
        assert forall|a: int, b: int| #[trigger] all_set(flags, a, b) implies b - a
            <= longest_run(flags) by {
            if b < n {
                assert(all_set(rest, a, b)) by {
                    assert forall|i: int| a <= i < b implies rest[i] by {
                        assert(flags[i] == rest[i]);
                    }
                }
            } else if a < n - here {
                assert(flags[n - here - 1]);
            }
        }
    }
}

/// On a history of at most `u32::MAX` records no figure of the statistics
/// is cut short: each count, sum and run is the number itself, and each
/// fraction has the part and the whole it is named after.
pub proof fn lemma_stats_exact(records: Seq<SessionRecord>)
    requires
        records.len() <= u32::MAX,
    ensures
        ({
            let st = stats_of(records);
            let named = records.filter(is_named());
            let unnamed = records.filter(is_unnamed());
            &&& st.wf()
            &&& st.total_sessions == records.len()
            &&& st.completed_sessions == completed_count(records)
            &&& st.completed_sessions <= st.total_sessions
            &&& st.total_focus_time == focus_time(records)
            &&& st.current_streak == current_streak(records)
            &&& st.longest_streak == longest_streak(records)
            &&& st.current_streak <= st.total_sessions
            &&& st.longest_streak <= st.total_sessions
            &&& named.len() + unnamed.len() == records.len()
            &&& records.len() > 0 ==> st.completion_rate.numerator == completed_count(records)
                && st.completion_rate.denominator == records.len()
            &&& completed_count(records) > 0 ==> st.average_duration.numerator == focus_time(
                records,
            ) && st.average_duration.denominator == completed_count(records)
            &&& named.len() > 0 ==> st.named_sessions_completion_rate.numerator == completed_count(
                named,
            ) && st.named_sessions_completion_rate.denominator == named.len()
            &&& unnamed.len() > 0 ==> st.unnamed_sessions_completion_rate.numerator
                == completed_count(unnamed) && st.unnamed_sessions_completion_rate.denominator
                == unnamed.len()
        }),
{
    let named = records.filter(is_named());
    let unnamed = records.filter(is_unnamed());
    records.lemma_filter_len(is_completed());
    records.lemma_filter_len(is_named());
    records.lemma_filter_len(is_unnamed());
    named.lemma_filter_len(is_completed());
    unnamed.lemma_filter_len(is_completed());
    lemma_focus_time_bound(records);
    lemma_named_or_not(records);
    lemma_ordering_is_ordering(start_times(records), true);
    lemma_ordering_is_ordering(start_times(records), false);
    lemma_runs_fit(flags_by_time(records, true));
    lemma_runs_fit(flags_by_time(records, false));
}

/// Every record has a name or has none.
proof fn lemma_named_or_not(records: Seq<SessionRecord>)
    ensures
        records.filter(is_named()).len() + records.filter(is_unnamed()).len() == records.len(),
    decreases records.len(),
{
    if records.len() == 0 {
        records.lemma_filter_len(is_named());
        records.lemma_filter_len(is_unnamed());
    } else {
        let front = records.drop_last();
        lemma_named_or_not(front);
        assert(records =~= front.push(records.last()));
        front.lemma_filter_push(records.last(), is_named());
        front.lemma_filter_push(records.last(), is_unnamed());
    }
}

/// Nothing in, nothing out: the statistics of an empty history are all
/// zero, and no fraction of any statistics divides by zero.
pub proof fn lemma_stats_of_nothing(records: Seq<SessionRecord>)
    ensures
        records.len() == 0 ==> stats_of(records) == SessionStats::zero(),
        records.len() <= u32::MAX ==> stats_of(records).wf(),
{
    if records.len() <= u32::MAX {
        lemma_stats_exact(records);
    }
    if records.len() == 0 {
        lemma_nothing_to_count();
        assert(records =~= Seq::<SessionRecord>::empty());
        assert(start_times(records) =~= Seq::<Timestamp>::empty());
        assert(flags_by_time(records, true) =~= Seq::<bool>::empty());
        assert(flags_by_time(records, false) =~= Seq::<bool>::empty());
    }
}

} // verus!
