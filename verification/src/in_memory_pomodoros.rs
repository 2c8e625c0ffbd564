//! A session repository that lives in memory.

use crate::pomodoro::{Pomodoro, PomodoroStatus, PomodoroView};
use crate::pomodoros::{
    created, created_as, distinct_ids, holds_id, newest_first, overwritten, placed, updated, views,
    well_kept, Pomodoros,
};
use crate::result::Error;
use crate::time::{Duration, Instant};
use vstd::prelude::*;
use vstd::string::StringExecFns;

verus! {

/// Sessions kept in a vector, newest first. The ids are given out in order,
/// from 1 on.
pub struct InMemoryPomodoros {
    sessions: Vec<Pomodoro>,
}

/// The ids of `sessions` are those from 1 to their number.
pub open spec fn ids_in_order(sessions: Seq<PomodoroView>) -> bool {
    forall|i: int| 0 <= i < sessions.len() ==> 1 <= #[trigger] sessions[i].id <= sessions.len()
}

/// A session put in at its place, under a new id, keeps the sessions in
/// order.
proof fn placing_keeps_order(
    before: Seq<PomodoroView>,
    at: int,
    session: PomodoroView,
)
    requires
        well_kept(before),
        session.storable(),
        forall|i: int| 0 <= i < before.len() ==> #[trigger] before[i].id != session.id,
        0 <= at <= before.len(),
        forall|i: int|
            0 <= i < at ==> #[trigger] before[i].work_start_time.secs
                > session.work_start_time.secs,
        forall|i: int|
            at <= i < before.len() ==> #[trigger] before[i].work_start_time.secs
                <= session.work_start_time.secs,
    ensures
        well_kept(before.insert(at, session)),
        placed(before, at, session, before.insert(at, session)),
{
    let after = before.insert(at, session);
    assert forall|i: int, j: int| 0 <= i <= j < after.len() implies #[trigger] after[i].work_start_time.secs
        >= #[trigger] after[j].work_start_time.secs by {
        let a = if i < at { before[i] } else if i == at { session } else { before[i - 1] };
        let b = if j < at { before[j] } else if j == at { session } else { before[j - 1] };
        assert(after[i] == a);
        assert(after[j] == b);
    }
    assert forall|i: int, j: int|
        0 <= i < after.len() && 0 <= j < after.len() && i != j implies #[trigger] after[i].id
        != #[trigger] after[j].id by {
        let a = if i < at { before[i] } else if i == at { session } else { before[i - 1] };
        let b = if j < at { before[j] } else if j == at { session } else { before[j - 1] };
        assert(after[i] == a);
        assert(after[j] == b);
    }
    assert forall|i: int| 0 <= i < after.len() implies #[trigger] after[i].storable() by {
        let a = if i < at { before[i] } else if i == at { session } else { before[i - 1] };
        assert(after[i] == a);
    }
}

/// Taking a session out keeps the others in order.
proof fn removing_keeps_order(before: Seq<PomodoroView>, index: int)
    requires
        well_kept(before),
        0 <= index < before.len(),
    ensures
        well_kept(before.remove(index)),
        forall|i: int|
            0 <= i < before.remove(index).len() ==> #[trigger] before.remove(index)[i].id
                != before[index].id,
{
    let after = before.remove(index);
    assert forall|i: int| 0 <= i < after.len() implies #[trigger] after[i] == before[if i
        < index {
        i
    } else {
        i + 1
    }] by {}
    assert forall|i: int, j: int| 0 <= i <= j < after.len() implies #[trigger] after[i].work_start_time.secs
        >= #[trigger] after[j].work_start_time.secs by {
        let a = if i < index { i } else { i + 1 };
        let b = if j < index { j } else { j + 1 };
        assert(after[i] == before[a]);
        assert(after[j] == before[b]);
    }
    assert forall|i: int, j: int|
        0 <= i < after.len() && 0 <= j < after.len() && i != j implies #[trigger] after[i].id
        != #[trigger] after[j].id by {
        let a = if i < index { i } else { i + 1 };
        let b = if j < index { j } else { j + 1 };
        assert(after[i] == before[a]);
        assert(after[j] == before[b]);
    }
    assert forall|i: int| 0 <= i < after.len() implies #[trigger] after[i].storable() by {
        let a = if i < index { i } else { i + 1 };
        assert(after[i] == before[a]);
    }
    assert forall|i: int| 0 <= i < after.len() implies #[trigger] after[i].id
        != before[index].id by {
        let a = if i < index { i } else { i + 1 };
        assert(after[i] == before[a]);
    }
}

impl InMemoryPomodoros {
    #[verifier::type_invariant]
    spec fn inv(self) -> bool {
        &&& self.sessions.len() <= i32::MAX
        &&& well_kept(views(self.sessions@))
        &&& ids_in_order(views(self.sessions@))
    }

    /// A repository without sessions.
    pub fn new() -> (repository: InMemoryPomodoros)
        ensures
            repository.sessions().len() == 0,
            repository.reliable(),
    {
        InMemoryPomodoros { sessions: Vec::new() }
    }

    /// How many sessions there are.
    pub fn len(&self) -> (n: usize)
        ensures
            n == self.sessions().len(),
    {
        self.sessions.len()
    }

    /// The session at `index`, counted from the newest.
    pub fn get(&self, index: usize) -> (r: Option<Pomodoro>)
        ensures
            match r {
                Some(session) => index < self.sessions().len() && session@
                    == self.sessions()[index as int],
                None => index >= self.sessions().len(),
            },
    {
        if index < self.sessions.len() {
            Some(self.sessions[index].clone())
        } else {
            None
        }
    }

    /// The place of a session that starts at `start_time` among `sessions`.
    fn place_of(sessions: &Vec<Pomodoro>, start_time: Instant) -> (at: usize)
        ensures
            at <= sessions.len(),
            forall|i: int|
                0 <= i < at ==> #[trigger] views(sessions@)[i].work_start_time.secs
                    > start_time.secs,
            at < sessions.len() ==> views(sessions@)[at as int].work_start_time.secs
                <= start_time.secs,
    {
        let mut at: usize = 0;
        while at < sessions.len() && sessions[at].work_start_time.secs > start_time.secs
            invariant
                at <= sessions.len(),
                forall|i: int|
                    0 <= i < at ==> #[trigger] views(sessions@)[i].work_start_time.secs
                        > start_time.secs,
            decreases sessions.len() - at,
        {
            at += 1;
        }
        at
    }

    /// Where the session of the given id stands.
    fn index_of(&self, id: i32) -> (r: Option<usize>)
        ensures
            match r {
                Some(index) => index < self.sessions().len() && self.sessions()[index as int].id
                    == id,
                None => !holds_id(self.sessions(), id),
            },
    {
        let mut index: usize = 0;
        while index < self.sessions.len()
            invariant
                index <= self.sessions.len(),
                forall|i: int| 0 <= i < index ==> #[trigger] views(self.sessions@)[i].id != id,
            decreases self.sessions.len() - index,
        {
            if self.sessions[index].id == id {
                return Some(index);
            }
            index += 1;
        }
        None
    }
}

impl Pomodoros for InMemoryPomodoros {
    closed spec fn sessions(&self) -> Seq<PomodoroView> {
        views(self.sessions@)
    }

    open spec fn reliable(&self) -> bool {
        true
    }

    fn create(
        &mut self,
        start_time: Instant,
        work_length: Duration,
        break_length: Duration,
        tags: String,
    ) -> (r: Result<(), Error>)
        ensures
            r is Ok ==> exists|at: int| #[trigger]
                created_as(
                    old(self).sessions(),
                    (old(self).sessions().len() + 1) as i32,
                    at,
                    start_time,
                    work_length,
                    break_length,
                    tags@,
                    final(self).sessions(),
                ),
    {
        proof {
            use_type_invariant(&*self);
        }
        let n = self.sessions.len();
        if n >= 0x7fff_ffff {
            return Err(Error::DatabaseError(String::from_str("no id is left for a session")));
        }
        let id: i32 = (n + 1) as i32;
        let at = InMemoryPomodoros::place_of(&self.sessions, start_time);
        let pomodoro = Pomodoro {
            id,
            work_start_time: start_time,
            work_end_time: None,
            break_start_time: None,
            break_end_time: None,
            work_length,
            break_length,
            tags,
            status: PomodoroStatus::InProgress,
        };
        let ghost before = views(self.sessions@);
        proof {
            assert(pomodoro@ == PomodoroView::started(
                id,
                start_time,
                work_length,
                break_length,
                tags@,
            ));
            assert forall|i: int| at <= i < before.len() implies #[trigger] before[i].work_start_time.secs
                <= start_time.secs by {
                if at < before.len() {
                    assert(before[at as int].work_start_time.secs >= before[i].work_start_time.secs);
                }
            }
            placing_keeps_order(before, at as int, pomodoro@);
            assert(views(self.sessions@.insert(at as int, pomodoro)) =~= before.insert(
                at as int,
                pomodoro@,
            ));
            assert(ids_in_order(before.insert(at as int, pomodoro@))) by {
                let after = before.insert(at as int, pomodoro@);
                assert forall|i: int| 0 <= i < after.len() implies 1 <= #[trigger] after[i].id
                    <= after.len() by {
                    let a = if i < at { before[i] } else if i == at { pomodoro@ } else {
                        before[i - 1]
                    };
                    assert(after[i] == a);
                }
            }
        }
        let mut sessions: Vec<Pomodoro> = Vec::new();
        std::mem::swap(&mut self.sessions, &mut sessions);
        sessions.insert(at, pomodoro);
        self.sessions = sessions;
        proof {
            assert(created_as(
                before,
                id,
                at as int,
                start_time,
                work_length,
                break_length,
                tags@,
                self.sessions(),
            ));
        }
        Ok(())
    }

    fn last(&self, count: usize) -> (r: Result<Vec<Pomodoro>, Error>) {
        proof {
            use_type_invariant(self);
        }
        let end = if count <= self.sessions.len() {
            count
        } else {
            self.sessions.len()
        };
        let mut found: Vec<Pomodoro> = Vec::new();
        let mut i: usize = 0;
        while i < end
            invariant
                i <= end <= self.sessions.len(),
                views(found@) == views(self.sessions@).take(i as int),
            decreases end - i,
        {
            let ghost earlier = found@;
            let copy = self.sessions[i].clone();
            found.push(copy);
            assert(views(found@) =~= views(earlier).push(copy@));
            assert(views(self.sessions@).take(i + 1) =~= views(self.sessions@).take(
                i as int,
            ).push(copy@));
            i += 1;
        }
        Ok(found)
    }

    fn most_recent(&self) -> (r: Option<Pomodoro>) {
        proof {
            use_type_invariant(self);
        }
        if self.sessions.len() > 0 {
            Some(self.sessions[0].clone())
        } else {
            None
        }
    }

    fn update(&mut self, id: i32, pomodoro: Pomodoro) -> (r: Result<(), Error>) {
        proof {
            use_type_invariant(&*self);
        }
        let index = match self.index_of(id) {
            Some(index) => index,
            None => {
                return Err(Error::DatabaseError(String::from_str("no session has the id")));
            },
        };
        let ghost before = views(self.sessions@);
        let same_start = pomodoro.work_start_time.secs == self.sessions[index].work_start_time.secs;
        let stored = Pomodoro {
            id,
            work_start_time: pomodoro.work_start_time,
            work_end_time: pomodoro.work_end_time,
            break_start_time: pomodoro.break_start_time,
            break_end_time: pomodoro.break_end_time,
            work_length: pomodoro.work_length,
            break_length: pomodoro.break_length,
            tags: pomodoro.tags,
            status: pomodoro.status,
        };
        assert(stored@ == (PomodoroView { id: before[index as int].id, ..pomodoro@ }));
        if same_start {
            proof {
                let after = before.update(index as int, stored@);
                assert(views(self.sessions@.update(index as int, stored)) =~= after);
                assert(well_kept(after)) by {
                    assert forall|i: int, j: int| 0 <= i <= j < after.len() implies #[trigger] after[i].work_start_time.secs
                        >= #[trigger] after[j].work_start_time.secs by {
                        assert(after[i].work_start_time == before[i].work_start_time);
                        assert(after[j].work_start_time == before[j].work_start_time);
                    }
                    assert forall|i: int, j: int|
                        0 <= i < after.len() && 0 <= j < after.len() && i
                            != j implies #[trigger] after[i].id != #[trigger] after[j].id by {
                        assert(after[i].id == before[i].id);
                        assert(after[j].id == before[j].id);
                    }
                    assert forall|i: int| 0 <= i < after.len() implies #[trigger] after[i].storable() by {
                        if i != index {
                            assert(after[i] == before[i]);
                        }
                    }
                }
                assert(ids_in_order(after)) by {
                    assert forall|i: int| 0 <= i < after.len() implies 1 <= #[trigger] after[i].id
                        <= after.len() by {
                        assert(after[i].id == before[i].id);
                    }
                }
            }
            let mut sessions: Vec<Pomodoro> = Vec::new();
            std::mem::swap(&mut self.sessions, &mut sessions);
            sessions.set(index, stored);
            self.sessions = sessions;
            proof {
                assert(overwritten(before, index as int, pomodoro@, self.sessions()));
            }
        } else {
            let mut others: Vec<Pomodoro> = Vec::new();
            let mut i: usize = 0;
            while i < self.sessions.len()
                invariant
                    i <= self.sessions.len(),
                    index < self.sessions.len(),
                    before == views(self.sessions@),
                    views(others@) == (if i <= index {
                        before.take(i as int)
                    } else {
                        before.take(i as int).remove(index as int)
                    }),
                decreases self.sessions.len() - i,
            {
                let ghost earlier = others@;
                if i != index {
                    let copy = self.sessions[i].clone();
                    others.push(copy);
                    assert(views(others@) =~= views(earlier).push(before[i as int]));
                    if i < index {
                        assert(before.take(i + 1) =~= before.take(i as int).push(before[i as int]));
                    } else {
                        assert(before.take(i + 1).remove(index as int) =~= before.take(
                            i as int,
                        ).remove(index as int).push(before[i as int]));
                    }
                } else {
                    assert(before.take(i + 1).remove(index as int) =~= before.take(i as int));
                }
                i += 1;
            }
            assert(before.take(i as int) =~= before);
            let ghost rest = before.remove(index as int);
            let at = InMemoryPomodoros::place_of(&others, stored.work_start_time);
            proof {
                removing_keeps_order(before, index as int);
                assert forall|i: int| at <= i < rest.len() implies #[trigger] rest[i].work_start_time.secs
                    <= stored.work_start_time.secs by {
                    if at < rest.len() {
                        assert(rest[at as int].work_start_time.secs
                            >= rest[i].work_start_time.secs);
                    }
                }
                placing_keeps_order(rest, at as int, stored@);
                assert(views(others@.insert(at as int, stored)) =~= rest.insert(
                    at as int,
                    stored@,
                ));
                assert(ids_in_order(rest.insert(at as int, stored@))) by {
                    let after = rest.insert(at as int, stored@);
                    assert forall|i: int| 0 <= i < after.len() implies 1 <= #[trigger] after[i].id
                        <= after.len() by {
                        let k = if i < at { i } else { i - 1 };
                        let source = if k < index { k } else { k + 1 };
                        if i == at {
                            assert(after[i] == stored@);
                        } else {
                            assert(after[i] == rest[k]);
                            assert(rest[k] == before[source]);
                        }
                    }
                }
            }
            others.insert(at, stored);
            self.sessions = others;
            proof {
                assert(placed(rest, at as int, stored@, self.sessions()));
                assert(overwritten(before, index as int, pomodoro@, self.sessions()));
            }
        }
        proof {
            assert(updated(before, id, pomodoro@, self.sessions()));
        }
        Ok(())
    }
}

} // verus!
