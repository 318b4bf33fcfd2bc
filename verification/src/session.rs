//! The session history: one record per attempt at a countdown, kept in the
//! order the attempts began.

use vstd::prelude::*;
use crate::clock::{local_now, utc_now, valid_offset, Timestamp};
use crate::order::{order_by_time, ordering};
use crate::text::copy_text;
use crate::timer::TimerState;

verus! {

/// One attempt at a countdown.
///
/// A record is appended when the attempt begins and filled in once, when it
/// ends: `interrupted` then says that it ended before the countdown did.
/// `actual_duration` counts the seconds the timer ran, pauses left out.
#[derive(Clone, Debug)]
pub struct SessionRecord {
    pub id: String,
    pub name: Option<String>,
    pub session_type: String,
    pub duration: u32,
    pub actual_duration: u32,
    pub completed: bool,
    pub start_time: Timestamp,
    pub end_time: Option<Timestamp>,
    pub interrupted: bool,
    pub pause_count: u32,
    pub pause_duration: u32,
}

/// The history, oldest entry first, and the version of its layout.
#[derive(Clone, Debug)]
pub struct SessionDatabase {
    pub sessions: Vec<SessionRecord>,
    pub version: u32,
}

/// The record of an attempt that begins at `now` on timer `timer`.
pub open spec fn opened(id: String, session_type: String, timer: TimerState, now: Timestamp) -> SessionRecord {
    SessionRecord {
        id,
        name: timer.session_name,
        session_type,
        duration: timer.duration,
        actual_duration: 0,
        completed: false,
        start_time: now,
        end_time: None,
        interrupted: false,
        pause_count: 0,
        pause_duration: 0,
    }
}

/// `record` once its attempt has ended at `now`.
pub open spec fn closed(
    record: SessionRecord,
    completed: bool,
    actual_duration: u32,
    pause_count: u32,
    pause_duration: u32,
    now: Timestamp,
) -> SessionRecord {
    SessionRecord {
        completed,
        actual_duration,
        pause_count,
        pause_duration,
        end_time: Some(now),
        interrupted: !completed,
        ..record
    }
}

/// `i` is the position of the first record that carries `id`.
pub open spec fn first_with_id(records: Seq<SessionRecord>, id: Seq<char>, i: int) -> bool {
    &&& 0 <= i < records.len()
    &&& records[i].id@ == id
    &&& forall|j: int| 0 <= j < i ==> (#[trigger] records[j]).id@ != id
}

/// No record carries `id`.
pub open spec fn unknown_id(records: Seq<SessionRecord>, id: Seq<char>) -> bool {
    forall|j: int| 0 <= j < records.len() ==> (#[trigger] records[j]).id@ != id
}

/// `records` once the session `id` has ended at `now`: the first record
/// that carries `id` is filled in, the others are as they were; if no record
/// carries `id`, all are.
pub open spec fn with_session_closed(
    records: Seq<SessionRecord>,
    id: Seq<char>,
    completed: bool,
    actual_duration: u32,
    pause_count: u32,
    pause_duration: u32,
    now: Timestamp,
) -> Seq<SessionRecord> {
    if exists|i: int| first_with_id(records, id, i) {
        let i = choose|i: int| first_with_id(records, id, i);
        records.update(
            i,
            closed(records[i], completed, actual_duration, pause_count, pause_duration, now),
        )
    } else {
        records
    }
}

/// Closing a session touches the first record with its identifier and no
/// other, and an identifier that no record carries changes nothing.
pub proof fn lemma_with_session_closed(
    records: Seq<SessionRecord>,
    id: Seq<char>,
    completed: bool,
    actual_duration: u32,
    pause_count: u32,
    pause_duration: u32,
    now: Timestamp,
)
    ensures
        unknown_id(records, id) ==> with_session_closed(
            records,
            id,
            completed,
            actual_duration,
            pause_count,
            pause_duration,
            now,
        ) == records,
        forall|i: int| #[trigger]
            first_with_id(records, id, i) ==> with_session_closed(
                records,
                id,
                completed,
                actual_duration,
                pause_count,
                pause_duration,
                now,
            ) == records.update(
                i,
                closed(records[i], completed, actual_duration, pause_count, pause_duration, now),
            ),
{
    assert forall|i: int| #[trigger] first_with_id(records, id, i) implies with_session_closed(
        records,
        id,
        completed,
        actual_duration,
        pause_count,
        pause_duration,
        now,
    ) == records.update(
        i,
        closed(records[i], completed, actual_duration, pause_count, pause_duration, now),
    ) by {
        let c = choose|c: int| first_with_id(records, id, c);
        assert(c == i) by {
            if c < i {
                assert(records[c].id@ != id);
            } else if i < c {
                assert(records[i].id@ != id);
            }
        }
    }
    if unknown_id(records, id) {
        assert forall|i: int| !first_with_id(records, id, i) by {
            if 0 <= i < records.len() {
                assert(records[i].id@ != id);
            }
        }
    }
}

impl SessionRecord {
    /// A copy of this record.
    pub fn duplicate(&self) -> (copy: SessionRecord)
        ensures
            copy == *self,
    {
        SessionRecord {
            id: self.id.clone(),
            name: copy_text(&self.name),
            session_type: self.session_type.clone(),
            duration: self.duration,
            actual_duration: self.actual_duration,
            completed: self.completed,
            start_time: self.start_time,
            end_time: self.end_time,
            interrupted: self.interrupted,
            pause_count: self.pause_count,
            pause_duration: self.pause_duration,
        }
    }
}

impl Default for SessionDatabase {
    fn default() -> (db: Self)
        ensures
            db.sessions@.len() == 0,
            db.version == 0,
    {
        SessionDatabase { sessions: Vec::new(), version: 0 }
    }
}

impl SessionDatabase {
    /// Appends the record of an attempt that begins at `now`.
    pub fn begin_session(
        &mut self,
        id: String,
        session_type: String,
        timer: &TimerState,
        now: Timestamp,
    )
        ensures
            final(self).sessions@ == old(self).sessions@.push(
                opened(id, session_type, *timer, now),
            ),
            final(self).version == old(self).version,
    {
        let record = SessionRecord {
            id,
            name: copy_text(&timer.session_name),
            session_type,
            duration: timer.duration,
            actual_duration: 0,
            completed: false,
            start_time: now,
            end_time: None,
            interrupted: false,
            pause_count: 0,
            pause_duration: 0,
        };
        self.sessions.push(record);
    }

    /// Fills in the first record that carries `session_id` with how its
    /// attempt ended at `now`. If no record carries it nothing changes.
    pub fn complete_session(
        &mut self,
        session_id: &String,
        completed: bool,
        actual_duration: u32,
        pause_count: u32,
        pause_duration: u32,
        now: Timestamp,
    )
        ensures
            final(self).version == old(self).version,
            final(self).sessions@ == with_session_closed(
                old(self).sessions@,
                session_id@,
                completed,
                actual_duration,
                pause_count,
                pause_duration,
                now,
            ),
    {
        proof {
            lemma_with_session_closed(
                self.sessions@,
                session_id@,
                completed,
                actual_duration,
                pause_count,
                pause_duration,
                now,
            );
        }
        let mut i: usize = 0;
        while i < self.sessions.len()
            invariant
                i <= self.sessions.len(),
                *self == *old(self),
                forall|j: int| 0 <= j < i ==> (#[trigger] self.sessions@[j]).id@ != session_id@,
            decreases self.sessions.len() - i,
        {
            if self.sessions[i].id == *session_id {
                assert(first_with_id(old(self).sessions@, session_id@, i as int));
                self.sessions[i].completed = completed;
                self.sessions[i].actual_duration = actual_duration;
                self.sessions[i].pause_count = pause_count;
                self.sessions[i].pause_duration = pause_duration;
                self.sessions[i].end_time = Some(now);
                self.sessions[i].interrupted = !completed;
                return ;
            }
            i = i + 1;
        }
    }

    /// The history from the newest record to the oldest, cut off after
    /// `limit` records if a limit is given.
    pub fn recent(&self, limit: Option<u32>) -> (list: Vec<SessionRecord>)
        ensures
            list@ == recent_sessions(self.sessions@, limit),
    {
        let keys = self.start_keys();
        let order = order_by_time(&keys, true);
        let shown: usize = match limit {
            Some(l) => if (l as usize) < order.len() {
                l as usize
            } else {
                order.len()
            },
            None => order.len(),
        };
        let mut list: Vec<SessionRecord> = Vec::new();
        let mut j: usize = 0;
        while j < shown
            invariant
                j <= shown <= order.len(),
                order.len() == self.sessions.len(),
                forall|a: int| 0 <= a < order.len() ==> 0 <= #[trigger] order@[a] < self.sessions.len(),
                list@ == in_order(self.sessions@, order@.take(j as int)),
            decreases shown - j,
        {
            list.push(self.sessions[order[j]].duplicate());
            proof {
                assert(order@.take(j as int + 1) =~= order@.take(j as int).push(order@[j as int]));
                assert(list@ =~= in_order(self.sessions@, order@.take(j as int + 1)));
            }
            j = j + 1;
        }
        proof {
            assert(shown == shown_count(self.sessions@.len(), limit));
        }
        list
    }

    /// The instants at which the recorded attempts began.
    pub fn start_keys(&self) -> (keys: Vec<Timestamp>)
        ensures
            keys@ == start_times(self.sessions@),
    {
        let mut keys: Vec<Timestamp> = Vec::new();
        let mut i: usize = 0;
        while i < self.sessions.len()
            invariant
                i <= self.sessions.len(),
                keys@ == start_times(self.sessions@.take(i as int)),
            decreases self.sessions.len() - i,
        {
            keys.push(self.sessions[i].start_time);
            proof {
                assert(self.sessions@.take(i as int + 1) =~= self.sessions@.take(i as int).push(
                    self.sessions@[i as int],
                ));
                assert(keys@ =~= start_times(self.sessions@.take(i as int + 1)));
            }
            i = i + 1;
        }
        proof {
            assert(self.sessions@.take(i as int) =~= self.sessions@);
        }
        keys
    }

    /// How many recorded attempts were completed and began on civil day
    /// `day` of a clock `offset` seconds ahead of UTC (see
    /// [`Timestamp::day`]).
    pub fn count_completed_on(&self, day: i64, offset: i32) -> (count: u32)
        requires
            self.sessions@.len() <= u32::MAX,
        ensures
            count == completed_on(self.sessions@, day as int, offset),
    {
        let mut count: u32 = 0;
        let mut i: usize = 0;
        while i < self.sessions.len()
            invariant
                i <= self.sessions.len(),
                self.sessions@.len() <= u32::MAX,
                count == completed_on(self.sessions@.take(i as int), day as int, offset),
                count <= i,
            decreases self.sessions.len() - i,
        {
            proof {
                let sofar = self.sessions@.take(i as int);
                let x = self.sessions@[i as int];
                assert(self.sessions@.take(i as int + 1) =~= sofar.push(x));
                sofar.lemma_filter_len_push(began_and_completed_on(day as int, offset), x);
            }
            if self.sessions[i].completed && self.sessions[i].start_time.day_number(offset)
                == day {
                count = count + 1;
            }
            i = i + 1;
        }
        proof {
            assert(self.sessions@.take(i as int) =~= self.sessions@);
        }
        count
    }
}

/// The instants at which `records` began, position by position.
pub open spec fn start_times(records: Seq<SessionRecord>) -> Seq<Timestamp> {
    records.map_values(|r: SessionRecord| r.start_time)
}

/// The records at the positions `order` names, in that order.
pub open spec fn in_order(records: Seq<SessionRecord>, order: Seq<usize>) -> Seq<SessionRecord> {
    order.map_values(|i: usize| records[i as int])
}

/// How many of `len` records a listing with `limit` shows.
pub open spec fn shown_count(len: nat, limit: Option<u32>) -> nat {
    match limit {
        Some(l) => if l < len {
            l as nat
        } else {
            len
        },
        None => len,
    }
}

/// `records` from the newest to the oldest, records that began at the same
/// instant in the order they were appended, cut off after `limit` records if
/// a limit is given.
pub open spec fn recent_sessions(records: Seq<SessionRecord>, limit: Option<u32>) -> Seq<
    SessionRecord,
> {
    in_order(
        records,
        ordering(start_times(records), true).take(shown_count(records.len(), limit) as int),
    )
}

/// The records that were completed and began on civil day `day` of a clock
/// `offset` seconds ahead of UTC.
pub open spec fn began_and_completed_on(day: int, offset: i32) -> spec_fn(SessionRecord) -> bool {
    |r: SessionRecord| r.completed && r.start_time.day(offset) == day
}

/// How many of `records` were completed and began on civil day `day` of a
/// clock `offset` seconds ahead of UTC.
pub open spec fn completed_on(records: Seq<SessionRecord>, day: int, offset: i32) -> nat {
    records.filter(began_and_completed_on(day, offset)).len()
}

/// A new session identifier: a random (version 4) UUID from
/// `uuid::Uuid::new_v4`, written out by its `Display` impl, which is the
/// hyphenated form of 36 characters. Nothing else is claimed of it: that two
/// identifiers differ is a matter of chance.
#[verifier::external_body]
fn fresh_session_id() -> (id: String)
    ensures
        id@.len() == 36,
{
    uuid::Uuid::new_v4().to_string()
}

/// Opens a session on `timer`: appends a record with a fresh identifier and
/// the present instant, and returns the identifier.
pub fn start_session_record(session_type: String, timer: &TimerState, db: &mut SessionDatabase) -> (id:
    String)
    ensures
        id@.len() == 36,
        final(db).version == old(db).version,
        exists|now: Timestamp|
            final(db).sessions@ == old(db).sessions@.push(
                #[trigger] opened(id, session_type, *timer, now),
            ),
{
    let id = fresh_session_id();
    let now = utc_now();
    db.begin_session(id.clone(), session_type, timer, now);
    id
}

/// Closes the session `session_id` as of the present instant; see
/// [`SessionDatabase::complete_session`].
pub fn complete_session_record(
    session_id: &String,
    completed: bool,
    actual_duration: u32,
    pause_count: u32,
    pause_duration: u32,
    db: &mut SessionDatabase,
)
    ensures
        final(db).version == old(db).version,
        exists|now: Timestamp|
            final(db).sessions@ == #[trigger] with_session_closed(
                old(db).sessions@,
                session_id@,
                completed,
                actual_duration,
                pause_count,
                pause_duration,
                now,
            ),
{
    let now = utc_now();
    db.complete_session(session_id, completed, actual_duration, pause_count, pause_duration, now);
}

/// The history from the newest record to the oldest; see
/// [`SessionDatabase::recent`].
pub fn get_recent_sessions(limit: Option<u32>, db: &SessionDatabase) -> (list: Vec<SessionRecord>)
    ensures
        list@ == recent_sessions(db.sessions@, limit),
{
    db.recent(limit)
}

/// How many sessions were completed that began on the present civil day
/// of local time: the calendar day that holds the present instant on the
/// local clock, not the last twenty-four hours. The local clock is taken to
/// run at its present offset from UTC all day.
pub fn get_todays_session_count(db: &SessionDatabase) -> (count: u32)
    requires
        db.sessions@.len() <= u32::MAX,
    ensures
        exists|now: Timestamp, offset: i32|
            valid_offset(offset) && count == completed_on(
                db.sessions@,
                #[trigger] now.day(offset),
                offset,
            ),
{
    let (now, offset) = local_now();
    db.count_completed_on(now.day_number(offset), offset)
}

} // verus!
