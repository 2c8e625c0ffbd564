//! Sessions as rows of the table `pomodoros`.
//!
//! The mapper turns sessions into the values of a statement and rows into
//! sessions. Running the statements is left to the owner of the connection.

use crate::pomodoro::{Pomodoro, PomodoroStatus, PomodoroView};
use crate::pomodoros::{newest_first, views};
use crate::result::Error;
use crate::time::{Duration, Instant};
use vstd::prelude::*;
use vstd::string::StringExecFns;

verus! {

/// The statement that stores a new session. Its parameters are the columns
/// of a row but the id, in the order of the fields of `PomodoroRow`.
pub const INSERT: &'static str =
    "INSERT INTO pomodoros(work_start_time, work_end_time, break_start_time, break_end_time, work_length, break_length, tags, status) VALUES ($1, $2, $3, $4, $5, $6, $7, $8)";

/// The statement that reads the sessions, newest first.
pub const SELECT: &'static str =
    "SELECT id, work_start_time, work_end_time, break_start_time, break_end_time, work_length, break_length, tags, status FROM pomodoros ORDER BY work_start_time DESC";

/// The statement that overwrites the session of an id. Its parameters are
/// the columns of a row, in the order of the fields of `PomodoroRow`.
pub const UPDATE: &'static str =
    "UPDATE pomodoros SET work_start_time = $2, work_end_time = $3, break_start_time = $4, break_end_time = $5, work_length = $6, break_length = $7, tags = $8, status = $9 WHERE id = $1";

/// A row of the table: instants as timestamps, lengths in seconds, the tags
/// and the status as text.
#[derive(Debug, PartialEq, Eq)]
pub struct PomodoroRow {
    pub id: i32,
    pub work_start_time: i64,
    pub work_end_time: Option<i64>,
    pub break_start_time: Option<i64>,
    pub break_end_time: Option<i64>,
    pub work_length: i64,
    pub break_length: i64,
    pub tags: String,
    pub status: String,
}

/// The instant of a timestamp, where there is one.
pub open spec fn instant_of(timestamp: Option<i64>) -> Option<Instant> {
    match timestamp {
        Some(secs) => Some(Instant { secs }),
        None => None,
    }
}

/// The timestamp of an instant, where there is one.
pub open spec fn timestamp_of(instant: Option<Instant>) -> Option<i64> {
    match instant {
        Some(t) => Some(t.secs),
        None => None,
    }
}

impl PomodoroRow {
    /// The session that the row stands for. A status that is none of the five
    /// names reads as `Aborted`.
    pub open spec fn session(self) -> PomodoroView {
        PomodoroView {
            id: self.id,
            work_start_time: Instant { secs: self.work_start_time },
            work_end_time: instant_of(self.work_end_time),
            break_start_time: instant_of(self.break_start_time),
            break_end_time: instant_of(self.break_end_time),
            work_length: Duration { secs: self.work_length },
            break_length: Duration { secs: self.break_length },
            tags: self.tags@,
            status: PomodoroStatus::from_name(self.status@),
        }
    }

    /// The row stands for the session.
    pub open spec fn holds(self, session: PomodoroView) -> bool {
        &&& self.id == session.id
        &&& self.work_start_time == session.work_start_time.secs
        &&& self.work_end_time == timestamp_of(session.work_end_time)
        &&& self.break_start_time == timestamp_of(session.break_start_time)
        &&& self.break_end_time == timestamp_of(session.break_end_time)
        &&& self.work_length == session.work_length.secs
        &&& self.break_length == session.break_length.secs
        &&& self.tags@ == session.tags
        &&& self.status@ == session.status.name()
    }
}

/// The sessions that the first `count` rows stand for.
pub open spec fn sessions_of(rows: Seq<PomodoroRow>, count: int) -> Seq<PomodoroView> {
    Seq::new(count as nat, |i: int| rows[i].session())
}

/// The rows can be handed on as sessions: each can be stored, and they stand
/// newest first.
pub open spec fn presentable(sessions: Seq<PomodoroView>) -> bool {
    &&& forall|i: int| 0 <= i < sessions.len() ==> #[trigger] sessions[i].storable()
    &&& newest_first(sessions)
}

fn to_instant(timestamp: Option<i64>) -> (r: Option<Instant>)
    ensures
        r == instant_of(timestamp),
{
    match timestamp {
        Some(secs) => Some(Instant { secs }),
        None => None,
    }
}

fn to_timestamp(instant: Option<Instant>) -> (r: Option<i64>)
    ensures
        r == timestamp_of(instant),
{
    match instant {
        Some(t) => Some(t.secs),
        None => None,
    }
}

pub struct PomodoroQueryMapper {}

impl PomodoroQueryMapper {
    pub fn new() -> (mapper: PomodoroQueryMapper) {
        PomodoroQueryMapper {  }
    }

    /// The row of a new session, for `INSERT`. The database gives the id; the
    /// row holds 0 for it.
    pub fn create_pomodoro(
        &self,
        start_time: Instant,
        work_duration: Duration,
        break_duration: Duration,
        tags: String,
    ) -> (row: PomodoroRow)
        ensures
            row.holds(PomodoroView::started(0, start_time, work_duration, break_duration, tags@)),
    {
        PomodoroRow {
            id: 0,
            work_start_time: start_time.secs,
            work_end_time: None,
            break_start_time: None,
            break_end_time: None,
            work_length: work_duration.num_seconds(),
            break_length: break_duration.num_seconds(),
            tags,
            status: PomodoroStatus::InProgress.to_string(),
        }
    }

    /// The row that overwrites the session of the given id, for `UPDATE`.
    pub fn update_pomodoro(&self, id: i32, pomodoro: &Pomodoro) -> (row: PomodoroRow)
        ensures
            row.holds(PomodoroView { id, ..pomodoro@ }),
    {
        PomodoroRow {
            id,
            work_start_time: pomodoro.work_start_time.secs,
            work_end_time: to_timestamp(pomodoro.work_end_time),
            break_start_time: to_timestamp(pomodoro.break_start_time),
            break_end_time: to_timestamp(pomodoro.break_end_time),
            work_length: pomodoro.work_length.num_seconds(),
            break_length: pomodoro.break_length.num_seconds(),
            tags: pomodoro.tags.clone(),
            status: pomodoro.status.to_string(),
        }
    }

    /// The session that a row stands for.
    pub fn read_row(&self, row: PomodoroRow) -> (pomodoro: Pomodoro)
        ensures
            pomodoro@ == row.session(),
    {
        Pomodoro {
            id: row.id,
            work_start_time: Instant { secs: row.work_start_time },
            work_end_time: to_instant(row.work_end_time),
            break_start_time: to_instant(row.break_start_time),
            break_end_time: to_instant(row.break_end_time),
            work_length: Duration::seconds(row.work_length),
            break_length: Duration::seconds(row.break_length),
            tags: row.tags,
            status: PomodoroStatus::from(row.status),
        }
    }

    /// The newest session among the rows that `SELECT` gave, which come
    /// newest first. Fails where there is no row, or the first cannot be
    /// handed on.
    pub fn get_most_recent_pomodoro(&self, rows: Vec<PomodoroRow>) -> (r: Result<Pomodoro, Error>)
        ensures
            match r {
                Ok(pomodoro) => rows.len() > 0 && pomodoro@ == rows[0].session()
                    && pomodoro@.storable(),
                Err(e) => e is DatabaseError && !(rows.len() > 0 && rows[0].session().storable()),
            },
    {
        match self.list_most_recent_pomodoros(rows, 1) {
            Ok(mut pomodoros) => {
                if pomodoros.is_empty() {
                    Err(Error::DatabaseError(String::from_str("there is no session")))
                } else {
                    assert(views(pomodoros@)[0] == pomodoros[0]@);
                    Ok(pomodoros.remove(0))
                }
            },
            Err(e) => Err(e),
        }
    }

    /// The sessions of the first `limit` rows that `SELECT` gave; of all
    /// rows where there are fewer. Fails where those rows cannot be handed
    /// on.
    pub fn list_most_recent_pomodoros(&self, rows: Vec<PomodoroRow>, limit: usize) -> (r: Result<
        Vec<Pomodoro>,
        Error,
    >)
        ensures
            match r {
                Ok(pomodoros) => views(pomodoros@) == sessions_of(
                    rows@,
                    if limit <= rows.len() {
                        limit as int
                    } else {
                        rows.len() as int
                    },
                ) && presentable(views(pomodoros@)),
                Err(e) => e is DatabaseError && !presentable(
                    sessions_of(
                        rows@,
                        if limit <= rows.len() {
                            limit as int
                        } else {
                            rows.len() as int
                        },
                    ),
                ),
            },
    {
        let count = if limit <= rows.len() {
            limit
        } else {
            rows.len()
        };
        let ghost all = sessions_of(rows@, count as int);
        let ghost given = rows@;
        let mut remaining = rows;
        let mut pomodoros: Vec<Pomodoro> = Vec::new();
        let mut i: usize = 0;
        while i < count
            invariant
                i <= count <= given.len(),
                given == rows@,
                count == (if limit <= given.len() {
                    limit as int
                } else {
                    given.len() as int
                }),
                all == sessions_of(given, count as int),
                remaining@ == given.skip(i as int),
                pomodoros.len() == i,
                views(pomodoros@) == all.take(i as int),
                presentable(all.take(i as int)),
            decreases count - i,
        {
            let row = remaining.remove(0);
            assert(row == given[i as int]);
            assert(remaining@ =~= given.skip(i + 1));
            let pomodoro = self.read_row(row);
            assert(pomodoro@ == all[i as int]);
            let in_order = if i == 0 {
                true
            } else {
                pomodoros[i - 1].work_start_time.secs >= pomodoro.work_start_time.secs
            };
            if !pomodoro.is_storable() || !in_order {
                proof {
                    if !pomodoro@.storable() {
                        assert(!all[i as int].storable());
                    } else {
                        assert(views(pomodoros@)[i - 1] == all[i - 1]);
                        assert(all[i - 1].work_start_time.secs < all[i as int].work_start_time.secs);
                    }
                    assert(!presentable(all));
                }
                return Err(
                    Error::DatabaseError(String::from_str("a row of pomodoros is not in order")),
                );
            }
            proof {
                let next = all.take(i + 1);
                assert forall|a: int, b: int| 0 <= a <= b < next.len() implies #[trigger] next[a].work_start_time.secs
                    >= #[trigger] next[b].work_start_time.secs by {
                    if b == i && a < i {
                        assert(views(pomodoros@)[i - 1] == all[i - 1]);
                        assert(all.take(i as int)[a].work_start_time.secs >= all.take(
                            i as int,
                        )[i - 1].work_start_time.secs);
                    } else if b < i {
                        assert(all.take(i as int)[a].work_start_time.secs >= all.take(
                            i as int,
                        )[b].work_start_time.secs);
                    }
                }
                assert forall|a: int| 0 <= a < next.len() implies #[trigger] next[a].storable() by {
                    if a < i {
                        assert(all.take(i as int)[a].storable());
                    }
                }
            }
            let ghost earlier = pomodoros@;
            pomodoros.push(pomodoro);
            assert(views(pomodoros@) =~= views(earlier).push(pomodoro@));
            assert(all.take(i + 1) =~= all.take(i as int).push(all[i as int]));
            i += 1;
        }
        assert(all.take(count as int) =~= all);
        Ok(pomodoros)
    }
}

} // verus!
