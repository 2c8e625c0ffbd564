//! The session state machine.

use crate::pomodoro::{Pomodoro, PomodoroStatus, PomodoroView};
use crate::time::Instant;
use vstd::prelude::*;

verus! {

impl PomodoroView {
    /// The session one step on at the time `now`. Work that is interrupted
    /// before its window closes is aborted; work whose window has closed ends
    /// with the window and a break is pending; a pending break starts; a
    /// break ends and completes the session; a finished session stays as it
    /// is.
    pub open spec fn transition(self, now: Instant) -> PomodoroView {
        match self.status {
            PomodoroStatus::InProgress => if now.secs >= self.work_deadline() {
                PomodoroView {
                    work_end_time: Some(Instant { secs: self.work_deadline() as i64 }),
                    status: PomodoroStatus::BreakPending,
                    ..self
                }
            } else {
                PomodoroView { work_end_time: Some(now), status: PomodoroStatus::Aborted, ..self }
            },
            PomodoroStatus::BreakPending => PomodoroView {
                break_start_time: Some(now),
                status: PomodoroStatus::Break,
                ..self
            },
            PomodoroStatus::Break => PomodoroView {
                break_end_time: Some(now),
                status: PomodoroStatus::Completed,
                ..self
            },
            PomodoroStatus::Aborted => self,
            PomodoroStatus::Completed => self,
        }
    }

    /// The session after one step at each of `times`, in order.
    pub open spec fn transitions(self, times: Seq<Instant>) -> PomodoroView
        decreases times.len(),
    {
        if times.len() == 0 {
            self
        } else {
            self.transitions(times.drop_last()).transition(times.last())
        }
    }

    /// The times do not run backwards, and none lies before `floor`.
    pub open spec fn ascending_from(floor: int, times: Seq<Instant>) -> bool {
        &&& forall|i: int| 0 <= i < times.len() ==> floor <= #[trigger] times[i].secs
        &&& forall|i: int, j: int|
            0 <= i <= j < times.len() ==> #[trigger] times[i].secs <= #[trigger] times[j].secs
    }
}

pub struct PomodoroTransitioner {}

impl PomodoroTransitioner {
    /// Moves a session one step on at `current_time`. The work window must
    /// close at a moment that the machine can count.
    pub fn transition(current_time: Instant, pomodoro: &Pomodoro) -> (next: Pomodoro)
        requires
            pomodoro@.work_deadline() >= i64::MIN,
        ensures
            next@ == pomodoro@.transition(current_time),
            next.id == pomodoro.id,
            next.work_start_time == pomodoro.work_start_time,
            next.work_length == pomodoro.work_length,
            next.break_length == pomodoro.break_length,
            next.tags@ == pomodoro.tags@,
            pomodoro.status.is_terminal() ==> next@ == pomodoro@,
            pomodoro@.wf() && current_time.secs >= pomodoro@.latest_time() ==> next@.wf(),
    {
        let new_pomodoro = Pomodoro {
            id: pomodoro.id,
            work_start_time: pomodoro.work_start_time,
            work_end_time: pomodoro.work_end_time,
            break_start_time: pomodoro.break_start_time,
            break_end_time: pomodoro.break_end_time,
            work_length: pomodoro.work_length,
            break_length: pomodoro.break_length,
            tags: pomodoro.tags.clone(),
            status: pomodoro.status,
        };
        match pomodoro.status {
            PomodoroStatus::Aborted => new_pomodoro,
            PomodoroStatus::Completed => new_pomodoro,
            PomodoroStatus::BreakPending => PomodoroTransitioner::start_break(
                current_time,
                new_pomodoro,
            ),
            PomodoroStatus::Break => PomodoroTransitioner::complete_pomodoro(
                current_time,
                new_pomodoro,
            ),
            PomodoroStatus::InProgress => {
                let deadline = pomodoro.work_start_time.secs as i128
                    + pomodoro.work_length.secs as i128;
                if current_time.secs as i128 >= deadline {
                    PomodoroTransitioner::finish_working(new_pomodoro)
                } else {
                    PomodoroTransitioner::abort_pomodoro(current_time, new_pomodoro)
                }
            },
        }
    }

    fn start_break(current_time: Instant, pomodoro: Pomodoro) -> (next: Pomodoro)
        ensures
            next@ == (PomodoroView {
                break_start_time: Some(current_time),
                status: PomodoroStatus::Break,
                ..pomodoro@
            }),
    {
        let mut pomodoro = pomodoro;
        pomodoro.break_start_time = Some(current_time);
        pomodoro.status = PomodoroStatus::Break;
        pomodoro
    }

    fn complete_pomodoro(current_time: Instant, pomodoro: Pomodoro) -> (next: Pomodoro)
        ensures
            next@ == (PomodoroView {
                break_end_time: Some(current_time),
                status: PomodoroStatus::Completed,
                ..pomodoro@
            }),
    {
        let mut pomodoro = pomodoro;
        pomodoro.break_end_time = Some(current_time);
        pomodoro.status = PomodoroStatus::Completed;
        pomodoro
    }

    fn finish_working(pomodoro: Pomodoro) -> (next: Pomodoro)
        requires
            i64::MIN <= pomodoro@.work_deadline() <= i64::MAX,
        ensures
            next@ == (PomodoroView {
                work_end_time: Some(Instant { secs: pomodoro@.work_deadline() as i64 }),
                status: PomodoroStatus::BreakPending,
                ..pomodoro@
            }),
    {
        let mut pomodoro = pomodoro;
        pomodoro.work_end_time = Some(
            Instant { secs: pomodoro.work_start_time.secs + pomodoro.work_length.secs },
        );
        pomodoro.status = PomodoroStatus::BreakPending;
        pomodoro
    }

    fn abort_pomodoro(current_time: Instant, pomodoro: Pomodoro) -> (next: Pomodoro)
        ensures
            next@ == (PomodoroView {
                work_end_time: Some(current_time),
                status: PomodoroStatus::Aborted,
                ..pomodoro@
            }),
    {
        let mut pomodoro = pomodoro;
        pomodoro.work_end_time = Some(current_time);
        pomodoro.status = PomodoroStatus::Aborted;
        pomodoro
    }
}

/// A step changes neither the identity of a session nor what it was started
/// with: id, start of work, both lengths and the tags stay.
pub proof fn transition_keeps_what_was_started(session: PomodoroView, now: Instant)
    ensures
        session.transition(now).id == session.id,
        session.transition(now).work_start_time == session.work_start_time,
        session.transition(now).work_length == session.work_length,
        session.transition(now).break_length == session.break_length,
        session.transition(now).tags == session.tags,
{
}

/// A finished session is a fixed point: whatever the time, a step leaves an
/// aborted or completed session as it is, and a second step changes nothing
/// that the first has finished.
pub proof fn transition_is_idempotent_when_finished(
    session: PomodoroView,
    now: Instant,
    later: Instant,
)
    ensures
        session.status.is_terminal() ==> session.transition(now) == session,
        session.transition(now).status.is_terminal() ==> session.transition(now).transition(later)
            == session.transition(now),
{
}

/// A step keeps the invariants of a session, when it is taken at a time that
/// is not before any time the session records.
pub proof fn transition_keeps_invariants(session: PomodoroView, now: Instant)
    requires
        session.wf(),
        now.secs >= session.latest_time(),
    ensures
        session.transition(now).wf(),
        session.transition(now).latest_time() <= now.secs,
{
}

/// A newly started session keeps the invariants, and records no time after
/// its start.
pub proof fn started_session_keeps_invariants(
    id: i32,
    start_time: Instant,
    work_length: crate::time::Duration,
    break_length: crate::time::Duration,
    tags: Seq<char>,
)
    requires
        PomodoroView::startable(start_time, work_length, break_length),
    ensures
        PomodoroView::started(id, start_time, work_length, break_length, tags).wf(),
        PomodoroView::started(id, start_time, work_length, break_length, tags).latest_time()
            == start_time.secs,
{
}

/// Every state that a session reaches keeps the invariants: start it, then
/// step it at times that do not run backwards and do not lie before its
/// start.
pub proof fn reachable_sessions_keep_invariants(
    id: i32,
    start_time: Instant,
    work_length: crate::time::Duration,
    break_length: crate::time::Duration,
    tags: Seq<char>,
    times: Seq<Instant>,
)
    requires
        PomodoroView::startable(start_time, work_length, break_length),
        PomodoroView::ascending_from(start_time.secs as int, times),
    ensures
        PomodoroView::started(id, start_time, work_length, break_length, tags).transitions(
            times,
        ).wf(),
        PomodoroView::started(id, start_time, work_length, break_length, tags).transitions(
            times,
        ).latest_time() <= (if times.len() == 0 {
            start_time.secs
        } else {
            times.last().secs
        }),
    decreases times.len(),
{
    let first = PomodoroView::started(id, start_time, work_length, break_length, tags);
    if times.len() > 0 {
        let before = times.drop_last();
        assert(PomodoroView::ascending_from(start_time.secs as int, before)) by {
            assert forall|i: int| 0 <= i < before.len() implies start_time.secs
                <= #[trigger] before[i].secs by {
                assert(before[i] == times[i]);
            }
            assert forall|i: int, j: int| 0 <= i <= j < before.len() implies #[trigger] before[i].secs
                <= #[trigger] before[j].secs by {
                assert(before[i] == times[i]);
                assert(before[j] == times[j]);
            }
        }
        reachable_sessions_keep_invariants(
            id,
            start_time,
            work_length,
            break_length,
            tags,
            before,
        );
        if before.len() > 0 {
            assert(before.last() == times[times.len() - 2]);
        }
        transition_keeps_invariants(first.transitions(before), times.last());
    }
}

} // verus!
