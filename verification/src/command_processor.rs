//! The processor: it carries out a command on the sessions of a repository
//! and answers it.

use crate::clock::Clock;
use crate::command::{texts, Command, CommandView};
use crate::command_responder::{list_text, start_text, status_text, stop_text, CommandResponder};
use crate::pomodoro::{Pomodoro, PomodoroStatus, PomodoroView};
use crate::pomodoro_transitioner::PomodoroTransitioner;
use crate::pomodoros::{created, holds_id, overwritten, updated, well_kept, Pomodoros};
use crate::result::Error;
use crate::time::{Duration, Instant};
use vstd::prelude::*;
use vstd::string::StringExecFns;

verus! {

/// How many sessions `LIST` shows.
pub const LISTED: usize = 5;

impl PomodoroView {
    /// The session as `START` leaves it before a new one begins: one step on,
    /// and where that ends the work in time, two steps more, through a break
    /// that starts and ends at once.
    pub open spec fn finalized(self, now: Instant) -> PomodoroView {
        let first = self.transition(now);
        if first.status == PomodoroStatus::BreakPending {
            first.transition(now).transition(now)
        } else {
            first
        }
    }
}

/// The tags, with a comma between one and the next.
pub open spec fn joined(tags: Seq<Seq<char>>) -> Seq<char>
    decreases tags.len(),
{
    if tags.len() == 0 {
        Seq::empty()
    } else if tags.len() == 1 {
        tags[0]
    } else {
        joined(tags.drop_last()) + ","@ + tags.last()
    }
}

/// The sessions once `START` has dealt with the newest of them: it is
/// finalized unless it was finished.
pub open spec fn prior_finalized(sessions: Seq<PomodoroView>, now: Instant) -> Seq<PomodoroView> {
    if sessions.len() > 0 && !sessions[0].status.is_terminal() {
        sessions.update(0, sessions[0].finalized(now))
    } else {
        sessions
    }
}

/// What `START` does at the time `now`, from the sessions `before` to the
/// sessions `after`, with the result `r`.
///
/// Values that no session can be started with end in `InvalidCommand`, and
/// nothing changes. Else the newest session is finalized, the new session is
/// stored, and the answer names the start of the session that is then the
/// newest. Where the repository fails, the sessions are as they were, or the
/// newest is finalized and no session is added. A reliable repository fails
/// only when it has no id left.
pub open spec fn start_outcome(
    before: Seq<PomodoroView>,
    reliable: bool,
    now: Instant,
    start_time: Instant,
    work_length: Duration,
    break_length: Duration,
    tags: Seq<Seq<char>>,
    after: Seq<PomodoroView>,
    r: Result<String, Error>,
) -> bool {
    let valid = PomodoroView::startable(start_time, work_length, break_length);
    &&& match r {
        Ok(text) => {
            &&& valid
            &&& created(
                prior_finalized(before, now),
                start_time,
                work_length,
                break_length,
                joined(tags),
                after,
            )
            &&& after.len() > 0
            &&& text@ == start_text(after[0].work_start_time)
        },
        Err(e) => if valid {
            e is DatabaseError && (after == before || after == prior_finalized(before, now))
        } else {
            &&& e matches Error::InvalidCommand(reason)
            &&& reason@
                == "a session starts in the years 0000 to 9999 and has lengths of a second or more"@
            &&& after == before
        },
    }
    &&& reliable ==> (r is Ok <==> valid && before.len() < i32::MAX)
}

/// What `STOP` does at the time `now`: the newest session goes one step on
/// and the answer says so. Without a session it ends in `MissingSession`.
/// Where the repository fails, nothing changes; a reliable one does not.
pub open spec fn stop_outcome(
    before: Seq<PomodoroView>,
    reliable: bool,
    now: Instant,
    after: Seq<PomodoroView>,
    r: Result<String, Error>,
) -> bool {
    &&& match r {
        Ok(text) => {
            &&& before.len() > 0
            &&& after == before.update(0, before[0].transition(now))
            &&& text@ == stop_text()
        },
        Err(e) => {
            &&& after == before
            &&& if before.len() == 0 {
                e matches Error::MissingSession(what) && what@ == "No pomodoro to stop."@
            } else {
                e is DatabaseError
            }
        },
    }
    &&& reliable ==> (r is Ok <==> before.len() > 0)
}

/// The sessions that `LIST` shows: the newest five, or all where there are
/// fewer.
pub open spec fn listed(sessions: Seq<PomodoroView>) -> Seq<PomodoroView> {
    sessions.take(
        if LISTED <= sessions.len() {
            LISTED as int
        } else {
            sessions.len() as int
        },
    )
}

/// What `LIST` does: it changes nothing and answers with a line for each of
/// the newest sessions. A reliable repository does not fail.
pub open spec fn list_outcome(
    before: Seq<PomodoroView>,
    reliable: bool,
    after: Seq<PomodoroView>,
    r: Result<String, Error>,
) -> bool {
    &&& after == before
    &&& match r {
        Ok(text) => text@ == list_text(listed(before)),
        Err(e) => e is DatabaseError,
    }
    &&& reliable ==> r is Ok
}

/// What `STATUS` does at the time `now`: it changes nothing and answers with
/// what is left to the newest session. Without a session it ends in
/// `MissingSession`, and only then.
pub open spec fn status_outcome(
    before: Seq<PomodoroView>,
    now: Instant,
    after: Seq<PomodoroView>,
    r: Result<String, Error>,
) -> bool {
    &&& after == before
    &&& match r {
        Ok(text) => before.len() > 0 && text@ == status_text(before[0], now),
        Err(e) => {
            &&& before.len() == 0
            &&& e matches Error::MissingSession(what)
            &&& what@ == "No pomodoro to get the status of."@
        },
    }
}

/// What a command does at the time `now`, from the sessions `before` to the
/// sessions `after`, with the result `r`.
pub open spec fn outcome(
    before: Seq<PomodoroView>,
    reliable: bool,
    now: Instant,
    command: CommandView,
    after: Seq<PomodoroView>,
    r: Result<String, Error>,
) -> bool {
    match command {
        CommandView::Start(start_time, work_length, break_length, tags) => start_outcome(
            before,
            reliable,
            now,
            start_time,
            work_length,
            break_length,
            tags,
            after,
            r,
        ),
        CommandView::Stop => stop_outcome(before, reliable, now, after, r),
        CommandView::List => list_outcome(before, reliable, after, r),
        CommandView::Status => status_outcome(before, now, after, r),
    }
}

/// The tags as one text, with a comma between one and the next.
pub fn join_tags(tags: &Vec<String>) -> (csv: String)
    ensures
        csv@ == joined(texts(tags@)),
{
    let mut csv = String::new();
    let mut i: usize = 0;
    while i < tags.len()
        invariant
            i <= tags.len(),
            csv@ == joined(texts(tags@).take(i as int)),
        decreases tags.len() - i,
    {
        let ghost all = texts(tags@);
        let ghost earlier = csv@;
        if i > 0 {
            csv.append(",");
        }
        csv.append(tags[i].as_str());
        proof {
            assert(all.take(i + 1).drop_last() =~= all.take(i as int));
            assert(all.take(i + 1).last() == tags[i as int]@);
            if i == 0 {
                assert(csv@ =~= tags[0]@);
                assert(all.take(1)[0] == tags[0]@);
            } else {
                assert(csv@ =~= earlier + ","@ + tags[i as int]@);
            }
        }
        i += 1;
    }
    assert(texts(tags@).take(i as int) =~= texts(tags@));
    csv
}

/// Carries out commands with a clock and a repository.
pub struct CommandProcessor<C: Clock, P: Pomodoros> {
    pub clock: C,
    pub pomodoros: P,
}

impl<C: Clock, P: Pomodoros> CommandProcessor<C, P> {
    pub fn new(clock: C, pomodoros: P) -> (processor: CommandProcessor<C, P>)
        ensures
            processor.clock == clock,
            processor.pomodoros == pomodoros,
    {
        CommandProcessor { clock, pomodoros }
    }

    /// Carries out a command at the time that the clock shows.
    pub fn handle_command(&mut self, command: Command) -> (r: Result<String, Error>)
        ensures
            final(self).pomodoros.reliable() == old(self).pomodoros.reliable(),
            exists|now: Instant| #[trigger]
                outcome(
                    old(self).pomodoros.sessions(),
                    old(self).pomodoros.reliable(),
                    now,
                    command@,
                    final(self).pomodoros.sessions(),
                    r,
                ),
    {
        let now = self.clock.current_time();
        let r = self.handle_command_at(now, command);
        assert(outcome(
            old(self).pomodoros.sessions(),
            old(self).pomodoros.reliable(),
            now,
            command@,
            self.pomodoros.sessions(),
            r,
        ));
        r
    }

    /// Carries out a command at the time `now`.
    pub fn handle_command_at(&mut self, now: Instant, command: Command) -> (r: Result<
        String,
        Error,
    >)
        ensures
            final(self).pomodoros.reliable() == old(self).pomodoros.reliable(),
            outcome(
                old(self).pomodoros.sessions(),
                old(self).pomodoros.reliable(),
                now,
                command@,
                final(self).pomodoros.sessions(),
                r,
            ),
    {
        match command {
            Command::Start(start_time, work_duration, break_duration, tags) => self.handle_start(
                now,
                start_time,
                work_duration,
                break_duration,
                tags,
            ),
            Command::Stop => self.handle_stop(now),
            Command::List => self.handle_list(),
            Command::Status => self.handle_status(now),
        }
    }

    /// The newest session as `START` leaves it before a new one begins. The
    /// work window must close at a moment that the machine can count.
    pub fn finalize(now: Instant, last: &Pomodoro) -> (done: Pomodoro)
        requires
            last@.work_deadline() >= i64::MIN,
        ensures
            done@ == last@.finalized(now),
            done@.storable() == last@.storable(),
            done.id == last.id,
            done.work_start_time == last.work_start_time,
    {
        let mut updated = PomodoroTransitioner::transition(now, last);
        if updated.status == PomodoroStatus::BreakPending {
            updated = PomodoroTransitioner::transition(now, &updated);
            updated = PomodoroTransitioner::transition(now, &updated);
        }
        updated
    }

    fn handle_start(
        &mut self,
        now: Instant,
        start_time: Instant,
        work_duration: Duration,
        break_duration: Duration,
        tags: Vec<String>,
    ) -> (r: Result<String, Error>)
        ensures
            final(self).pomodoros.reliable() == old(self).pomodoros.reliable(),
            start_outcome(
                old(self).pomodoros.sessions(),
                old(self).pomodoros.reliable(),
                now,
                start_time,
                work_duration,
                break_duration,
                texts(tags@),
                final(self).pomodoros.sessions(),
                r,
            ),
    {
        if !start_time.is_in_range() || work_duration.secs < 1 || break_duration.secs < 1 {
            return Err(
                Error::InvalidCommand(
                    String::from_str(
                        "a session starts in the years 0000 to 9999 and has lengths of a second or more",
                    ),
                ),
            );
        }
        let ghost before = self.pomodoros.sessions();
        match self.pomodoros.most_recent() {
            Some(last_pomodoro) => {
                if !last_pomodoro.status.terminal() {
                    assert(before[0].storable());
                    let updated_pomodoro = Self::finalize(now, &last_pomodoro);
                    proof {
                        assert(holds_id(before, last_pomodoro.id)) by {
                            assert(before[0].id == last_pomodoro.id);
                        }
                    }
                    match self.pomodoros.update(updated_pomodoro.id, updated_pomodoro) {
                        Ok(_) => {
                            proof {
                                update_of_newest(
                                    before,
                                    updated_pomodoro@,
                                    self.pomodoros.sessions(),
                                );
                            }
                        },
                        Err(e) => {
                            return Err(e);
                        },
                    }
                }
            },
            None => {},
        }
        assert(self.pomodoros.sessions() == prior_finalized(before, now));
        let csv = join_tags(&tags);
        match self.pomodoros.create(start_time, work_duration, break_duration, csv) {
            Ok(_) => {},
            Err(e) => {
                return Err(e);
            },
        }
        match self.pomodoros.most_recent() {
            Some(pomodoro) => {
                assert(self.pomodoros.sessions()[0].storable());
                Ok(CommandResponder::new().handle_start(&pomodoro.work_start_time))
            },
            None => Err(
                Error::MissingSession(
                    String::from_str("Could not get the newly created pomodoro."),
                ),
            ),
        }
    }

    fn handle_stop(&mut self, now: Instant) -> (r: Result<String, Error>)
        ensures
            final(self).pomodoros.reliable() == old(self).pomodoros.reliable(),
            stop_outcome(
                old(self).pomodoros.sessions(),
                old(self).pomodoros.reliable(),
                now,
                final(self).pomodoros.sessions(),
                r,
            ),
    {
        let ghost before = self.pomodoros.sessions();
        match self.pomodoros.most_recent() {
            None => Err(Error::MissingSession(String::from_str("No pomodoro to stop."))),
            Some(pomodoro) => {
                assert(before[0].storable());
                let updated_pomodoro = PomodoroTransitioner::transition(now, &pomodoro);
                proof {
                    assert(holds_id(before, pomodoro.id)) by {
                        assert(before[0].id == pomodoro.id);
                    }
                }
                match self.pomodoros.update(updated_pomodoro.id, updated_pomodoro) {
                    Ok(_) => {
                        proof {
                            update_of_newest(before, updated_pomodoro@, self.pomodoros.sessions());
                        }
                        Ok(CommandResponder::new().handle_stop())
                    },
                    Err(e) => Err(e),
                }
            },
        }
    }

    fn handle_list(&self) -> (r: Result<String, Error>)
        ensures
            list_outcome(
                self.pomodoros.sessions(),
                self.pomodoros.reliable(),
                self.pomodoros.sessions(),
                r,
            ),
    {
        match self.pomodoros.last(LISTED) {
            Ok(pomodoros) => {
                proof {
                    let all = self.pomodoros.sessions();
                    let shown = listed(all);
                    assert(crate::pomodoros::views(pomodoros@).len() == pomodoros.len());
                    assert forall|i: int| 0 <= i < pomodoros.len() implies #[trigger] pomodoros[i].work_start_time.in_range() by {
                        assert(crate::pomodoros::views(pomodoros@)[i] == pomodoros[i]@);
                        assert(shown[i] == all[i]);
                        assert(all[i].storable());
                    }
                }
                Ok(CommandResponder::new().handle_list(&pomodoros))
            },
            Err(e) => Err(e),
        }
    }

    fn handle_status(&self, now: Instant) -> (r: Result<String, Error>)
        ensures
            status_outcome(self.pomodoros.sessions(), now, self.pomodoros.sessions(), r),
    {
        match self.pomodoros.most_recent() {
            None => Err(
                Error::MissingSession(String::from_str("No pomodoro to get the status of.")),
            ),
            Some(pomodoro) => Ok(CommandResponder::new().handle_status(now, &pomodoro)),
        }
    }
}

/// An update of the newest session that keeps its id and its start
/// overwrites it where it stands.
pub proof fn update_of_newest(
    before: Seq<PomodoroView>,
    session: PomodoroView,
    after: Seq<PomodoroView>,
)
    requires
        well_kept(before),
        before.len() > 0,
        session.id == before[0].id,
        session.work_start_time == before[0].work_start_time,
        updated(before, session.id, session, after),
    ensures
        after == before.update(0, session),
{
    let index = choose|index: int|
        0 <= index < before.len() && before[index].id == session.id && #[trigger] overwritten(
            before,
            index,
            session,
            after,
        );
    if index != 0 {
        assert(before[index].id != before[0].id);
    }
    assert((PomodoroView { id: before[0].id, ..session }) == session);
}

/// What `START` makes of the newest session. Work whose window has closed,
/// be it only just, is completed: it ends with its window, and the break
/// starts and ends at `now`. Work that is interrupted is aborted. A pending
/// break becomes a break, and a break is completed.
pub proof fn finalized_by_status(session: PomodoroView, now: Instant)
    ensures
        session.status == PomodoroStatus::InProgress && now.secs >= session.work_deadline()
            ==> session.finalized(now) == (PomodoroView {
            work_end_time: Some(Instant { secs: session.work_deadline() as i64 }),
            break_start_time: Some(now),
            break_end_time: Some(now),
            status: PomodoroStatus::Completed,
            ..session
        }),
        session.status == PomodoroStatus::InProgress && now.secs < session.work_deadline()
            ==> session.finalized(now) == (PomodoroView {
            work_end_time: Some(now),
            status: PomodoroStatus::Aborted,
            ..session
        }),
        session.status == PomodoroStatus::BreakPending ==> session.finalized(now).status
            == PomodoroStatus::Break,
        session.status == PomodoroStatus::Break ==> session.finalized(now).status
            == PomodoroStatus::Completed,
        session.status.is_terminal() ==> session.finalized(now) == session,
        session.finalized(now).status.is_terminal() <==> session.status
            != PomodoroStatus::BreakPending,
{
}

/// At most one session is under way, and it is the newest.
pub open spec fn only_newest_active(sessions: Seq<PomodoroView>) -> bool {
    forall|i: int| 1 <= i < sessions.len() ==> #[trigger] sessions[i].status.is_terminal()
}

/// No two sessions are under way.
pub open spec fn at_most_one_active(sessions: Seq<PomodoroView>) -> bool {
    forall|i: int, j: int|
        0 <= i < sessions.len() && 0 <= j < sessions.len() && i != j ==> #[trigger] sessions[i].status.is_terminal()
            || #[trigger] sessions[j].status.is_terminal()
}

/// Where only the newest session is under way, no two are.
pub proof fn only_newest_active_is_at_most_one(sessions: Seq<PomodoroView>)
    requires
        only_newest_active(sessions),
    ensures
        at_most_one_active(sessions),
{
    assert forall|i: int, j: int|
        0 <= i < sessions.len() && 0 <= j < sessions.len() && i != j implies #[trigger] sessions[i].status.is_terminal()
        || #[trigger] sessions[j].status.is_terminal() by {
        if i >= 1 {
            assert(sessions[i].status.is_terminal());
        } else {
            assert(sessions[j].status.is_terminal());
        }
    }
}

/// A `START` that succeeds leaves only the newest session under way, where
/// that held before, the new session starts after none, and the session that
/// was the newest did not wait for its break.
pub proof fn start_keeps_one_session_active(
    before: Seq<PomodoroView>,
    now: Instant,
    start_time: Instant,
    work_length: Duration,
    break_length: Duration,
    tags: Seq<Seq<char>>,
    after: Seq<PomodoroView>,
    text: String,
)
    requires
        only_newest_active(before),
        before.len() > 0 ==> before[0].status != PomodoroStatus::BreakPending,
        forall|i: int|
            0 <= i < before.len() ==> #[trigger] before[i].work_start_time.secs
                <= start_time.secs,
        start_outcome(
            before,
            false,
            now,
            start_time,
            work_length,
            break_length,
            tags,
            after,
            Ok(text),
        ),
    ensures
        only_newest_active(after),
        after[0].status == PomodoroStatus::InProgress,
        text@ == start_text(start_time),
{
    let prior = prior_finalized(before, now);
    assert forall|i: int| 0 <= i < prior.len() implies #[trigger] prior[i].work_start_time.secs
        <= start_time.secs && prior[i].status.is_terminal() by {
        assert(before[i].work_start_time.secs <= start_time.secs);
        if i == 0 {
            finalized_by_status(before[0], now);
        } else {
            assert(before[i].status.is_terminal());
        }
    }
    crate::pomodoros::created_session_is_the_newest(
        prior,
        start_time,
        work_length,
        break_length,
        joined(tags),
        after,
    );
    assert forall|i: int| 1 <= i < after.len() implies #[trigger] after[i].status.is_terminal() by {
        assert(after[i] == after.skip(1)[i - 1]);
        assert(prior[i - 1].status.is_terminal());
    }
}

/// A `STOP` leaves only the newest session under way, where that held
/// before.
pub proof fn stop_keeps_one_session_active(
    before: Seq<PomodoroView>,
    now: Instant,
    after: Seq<PomodoroView>,
    r: Result<String, Error>,
)
    requires
        only_newest_active(before),
        stop_outcome(before, false, now, after, r),
    ensures
        only_newest_active(after),
{
    assert forall|i: int| 1 <= i < after.len() implies #[trigger] after[i].status.is_terminal() by {
        assert(before[i].status.is_terminal());
    }
}

/// Every session keeps its invariants.
pub open spec fn all_well_formed(sessions: Seq<PomodoroView>) -> bool {
    forall|i: int| 0 <= i < sessions.len() ==> #[trigger] sessions[i].wf()
}

/// What `START` makes of the newest session keeps its invariants, at a time
/// that is not before any time the session records.
pub proof fn finalized_keeps_invariants(session: PomodoroView, now: Instant)
    requires
        session.wf(),
        now.secs >= session.latest_time(),
    ensures
        session.finalized(now).wf(),
{
    let first = session.transition(now);
    crate::pomodoro_transitioner::transition_keeps_invariants(session, now);
    if first.status == PomodoroStatus::BreakPending {
        crate::pomodoro_transitioner::transition_keeps_invariants(first, now);
        crate::pomodoro_transitioner::transition_keeps_invariants(first.transition(now), now);
    }
}

/// Whatever a command does and however it ends, it leaves every session
/// with its invariants, where they held before and the time is not before
/// any time that the newest session records.
pub proof fn commands_keep_invariants(
    before: Seq<PomodoroView>,
    reliable: bool,
    now: Instant,
    command: CommandView,
    after: Seq<PomodoroView>,
    r: Result<String, Error>,
)
    requires
        all_well_formed(before),
        before.len() > 0 ==> now.secs >= before[0].latest_time(),
        outcome(before, reliable, now, command, after, r),
    ensures
        all_well_formed(after),
{
    if before.len() > 0 {
        assert(before[0].wf());
        finalized_keeps_invariants(before[0], now);
        crate::pomodoro_transitioner::transition_keeps_invariants(before[0], now);
    }
    let prior = prior_finalized(before, now);
    assert(all_well_formed(prior)) by {
        assert forall|i: int| 0 <= i < prior.len() implies #[trigger] prior[i].wf() by {
            if i > 0 {
                assert(before[i].wf());
            }
        }
    }
    match command {
        CommandView::Start(start_time, work_length, break_length, tags) => {
            if r is Ok {
                let (id, at) = choose|id: i32, at: int| #[trigger]
                    crate::pomodoros::created_as(
                        prior,
                        id,
                        at,
                        start_time,
                        work_length,
                        break_length,
                        joined(tags),
                        after,
                    );
                let session = PomodoroView::started(
                    id,
                    start_time,
                    work_length,
                    break_length,
                    joined(tags),
                );
                assert forall|i: int| 0 <= i < after.len() implies #[trigger] after[i].wf() by {
                    if i < at {
                        assert(after[i] == prior[i]);
                    } else if i == at {
                        assert(after[i] == session);
                    } else {
                        assert(after[i] == prior[i - 1]);
                    }
                }
            }
        },
        CommandView::Stop => {
            if r is Ok {
                assert forall|i: int| 0 <= i < after.len() implies #[trigger] after[i].wf() by {
                    if i > 0 {
                        assert(before[i].wf());
                    }
                }
            }
        },
        CommandView::List => {},
        CommandView::Status => {},
    }
}

} // verus!
