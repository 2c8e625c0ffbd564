//! The session repository.

use crate::pomodoro::{Pomodoro, PomodoroView};
use crate::result::Error;
use crate::time::{Duration, Instant};
use vstd::prelude::*;

verus! {

/// The sessions are in order, newest first: none starts after one that stands
/// before it.
pub open spec fn newest_first(sessions: Seq<PomodoroView>) -> bool {
    forall|i: int, j: int|
        0 <= i <= j < sessions.len() ==> #[trigger] sessions[i].work_start_time.secs
            >= #[trigger] sessions[j].work_start_time.secs
}

/// No two sessions share an id.
pub open spec fn distinct_ids(sessions: Seq<PomodoroView>) -> bool {
    forall|i: int, j: int|
        0 <= i < sessions.len() && 0 <= j < sessions.len() && i != j ==> #[trigger] sessions[i].id
            != #[trigger] sessions[j].id
}

/// What holds of the sessions of every repository: they stand newest first,
/// no two share an id, and each was started with valid values.
pub open spec fn well_kept(sessions: Seq<PomodoroView>) -> bool {
    &&& newest_first(sessions)
    &&& distinct_ids(sessions)
    &&& forall|i: int| 0 <= i < sessions.len() ==> #[trigger] sessions[i].storable()
}

/// `after` is `before` with `session` put in at `at`, which is its place:
/// behind the sessions that start later, ahead of all others.
pub open spec fn placed(
    before: Seq<PomodoroView>,
    at: int,
    session: PomodoroView,
    after: Seq<PomodoroView>,
) -> bool {
    &&& 0 <= at <= before.len()
    &&& after == before.insert(at, session)
    &&& forall|i: int|
        0 <= i < at ==> #[trigger] before[i].work_start_time.secs > session.work_start_time.secs
    &&& forall|i: int|
        at <= i < before.len() ==> #[trigger] before[i].work_start_time.secs
            <= session.work_start_time.secs
}

/// `after` is `before` with a new session put in at `at`, as `create` stores
/// it under `id`.
pub open spec fn created_as(
    before: Seq<PomodoroView>,
    id: i32,
    at: int,
    start_time: Instant,
    work_length: Duration,
    break_length: Duration,
    tags: Seq<char>,
    after: Seq<PomodoroView>,
) -> bool {
    placed(
        before,
        at,
        PomodoroView::started(id, start_time, work_length, break_length, tags),
        after,
    )
}

/// `after` is `before` with a new session that `create` stored, under some
/// id.
pub open spec fn created(
    before: Seq<PomodoroView>,
    start_time: Instant,
    work_length: Duration,
    break_length: Duration,
    tags: Seq<char>,
    after: Seq<PomodoroView>,
) -> bool {
    exists|id: i32, at: int| #[trigger]
        created_as(before, id, at, start_time, work_length, break_length, tags, after)
}

/// The session at `index` takes the values of `session` and keeps its id. It
/// stays where it is while its start is the same, and else moves to its
/// place.
pub open spec fn overwritten(
    before: Seq<PomodoroView>,
    index: int,
    session: PomodoroView,
    after: Seq<PomodoroView>,
) -> bool {
    let stored = PomodoroView { id: before[index].id, ..session };
    &&& 0 <= index < before.len()
    &&& if session.work_start_time == before[index].work_start_time {
        after == before.update(index, stored)
    } else {
        exists|at: int| #[trigger] placed(before.remove(index), at, stored, after)
    }
}

/// `after` is `before` with the session of the given id overwritten.
pub open spec fn updated(
    before: Seq<PomodoroView>,
    id: i32,
    session: PomodoroView,
    after: Seq<PomodoroView>,
) -> bool {
    exists|index: int|
        0 <= index < before.len() && before[index].id == id && #[trigger] overwritten(
            before,
            index,
            session,
            after,
        )
}

/// Some session has the id.
pub open spec fn holds_id(sessions: Seq<PomodoroView>, id: i32) -> bool {
    exists|index: int| 0 <= index < sessions.len() && #[trigger] sessions[index].id == id
}

/// The views of the sessions.
pub open spec fn views(sessions: Seq<Pomodoro>) -> Seq<PomodoroView> {
    Seq::new(sessions.len(), |i: int| sessions[i]@)
}

/// A store of sessions.
///
/// The contracts speak of the sessions that the repository holds. A
/// repository that keeps them outside the process, in a database, cannot
/// show them to the verifier: it takes the contracts on as duties, and has
/// to test what it reads before it hands it on.
pub trait Pomodoros {
    /// The sessions that the repository holds, newest first.
    open spec fn sessions(&self) -> Seq<PomodoroView> {
        Seq::empty()
    }

    /// A reliable repository fails only where its contract names the reason.
    /// One that depends on a service may fail at any call.
    open spec fn reliable(&self) -> bool {
        false
    }

    /// Stores a new session: in progress, with no end times, under a new id.
    /// A failure leaves the sessions as they were. A reliable repository
    /// fails only when it has run out of ids.
    fn create(
        &mut self,
        start_time: Instant,
        work_length: Duration,
        break_length: Duration,
        tags: String,
    ) -> (r: Result<(), Error>)
        requires
            PomodoroView::startable(start_time, work_length, break_length),
        ensures
            well_kept(final(self).sessions()),
            final(self).reliable() == old(self).reliable(),
            match r {
                Ok(_) => created(
                    old(self).sessions(),
                    start_time,
                    work_length,
                    break_length,
                    tags@,
                    final(self).sessions(),
                ),
                Err(e) => final(self).sessions() == old(self).sessions() && e is DatabaseError,
            },
            old(self).reliable() ==> (r is Ok <==> old(self).sessions().len() < i32::MAX),
    ;

    /// The `count` newest sessions, newest first; all of them where there are
    /// fewer. A reliable repository does not fail.
    fn last(&self, count: usize) -> (r: Result<Vec<Pomodoro>, Error>)
        ensures
            well_kept(self.sessions()),
            match r {
                Ok(found) => views(found@) == self.sessions().take(
                    if count <= self.sessions().len() {
                        count as int
                    } else {
                        self.sessions().len() as int
                    },
                ),
                Err(e) => e is DatabaseError,
            },
            self.reliable() ==> r is Ok,
    ;

    /// The newest session, or nothing where there is none.
    fn most_recent(&self) -> (r: Option<Pomodoro>)
        ensures
            well_kept(self.sessions()),
            match r {
                Some(newest) => self.sessions().len() > 0 && newest@ == self.sessions()[0],
                None => self.sessions().len() == 0,
            },
    ;

    /// Overwrites the session of the given id with the values of `pomodoro`.
    /// A failure leaves the sessions as they were. A reliable repository
    /// fails only when no session has the id.
    fn update(&mut self, id: i32, pomodoro: Pomodoro) -> (r: Result<(), Error>)
        requires
            pomodoro@.storable(),
        ensures
            well_kept(final(self).sessions()),
            final(self).reliable() == old(self).reliable(),
            match r {
                Ok(_) => updated(old(self).sessions(), id, pomodoro@, final(self).sessions()),
                Err(e) => final(self).sessions() == old(self).sessions() && e is DatabaseError,
            },
            old(self).reliable() ==> (r is Ok <==> holds_id(old(self).sessions(), id)),
    ;
}

/// No two sessions start at the same time.
pub open spec fn distinct_starts(sessions: Seq<PomodoroView>) -> bool {
    forall|i: int, j: int|
        0 <= i < sessions.len() && 0 <= j < sessions.len() && i != j
            ==> #[trigger] sessions[i].work_start_time != #[trigger] sessions[j].work_start_time
}

/// A session that is created and then fetched as the newest comes back as it
/// was stored, whatever id it got: in progress, with the given start, lengths
/// and tags, and no end times. This holds where no session starts after it.
pub proof fn created_session_is_the_newest(
    before: Seq<PomodoroView>,
    start_time: Instant,
    work_length: Duration,
    break_length: Duration,
    tags: Seq<char>,
    after: Seq<PomodoroView>,
)
    requires
        created(before, start_time, work_length, break_length, tags, after),
        forall|i: int|
            0 <= i < before.len() ==> #[trigger] before[i].work_start_time.secs
                <= start_time.secs,
    ensures
        after.len() == before.len() + 1,
        after[0] == PomodoroView::started(after[0].id, start_time, work_length, break_length, tags),
        after.skip(1) == before,
{
    let (id, at) = choose|id: i32, at: int| #[trigger]
        created_as(before, id, at, start_time, work_length, break_length, tags, after);
    if at > 0 {
        assert(before[0].work_start_time.secs > start_time.secs);
    }
    assert(after.skip(1) =~= before);
}

/// The newest `count` sessions are at most `count`, and stand newest first.
/// Where no two sessions start at the same time, each starts after the next.
pub proof fn last_sessions_are_in_order(sessions: Seq<PomodoroView>, count: int)
    requires
        well_kept(sessions),
        0 <= count,
    ensures
        ({
            let shown = sessions.take(if count <= sessions.len() { count } else { sessions.len() as int });
            &&& shown.len() <= count
            &&& shown.len() <= sessions.len()
            &&& newest_first(shown)
            &&& distinct_starts(sessions) ==> forall|i: int, j: int|
                0 <= i < j < shown.len() ==> #[trigger] shown[i].work_start_time.secs
                    > #[trigger] shown[j].work_start_time.secs
        }),
{
    let shown = sessions.take(if count <= sessions.len() { count } else { sessions.len() as int });
    assert forall|i: int, j: int| 0 <= i <= j < shown.len() implies #[trigger] shown[i].work_start_time.secs
        >= #[trigger] shown[j].work_start_time.secs by {
        assert(sessions[i].work_start_time.secs >= sessions[j].work_start_time.secs);
    }
    if distinct_starts(sessions) {
        assert forall|i: int, j: int| 0 <= i < j < shown.len() implies #[trigger] shown[i].work_start_time.secs
            > #[trigger] shown[j].work_start_time.secs by {
            assert(sessions[i].work_start_time.secs >= sessions[j].work_start_time.secs);
            assert(sessions[i].work_start_time != sessions[j].work_start_time);
        }
    }
}

} // verus!
