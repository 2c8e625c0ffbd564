//! The session entity and its status.

use crate::time::{Duration, Instant};
use vstd::prelude::*;
use vstd::string::StringExecFns;

verus! {

/// Where a session stands in its life.
#[derive(Clone, Copy, Debug, PartialEq, Eq, Structural)]
pub enum PomodoroStatus {
    InProgress,
    Aborted,
    BreakPending,
    Break,
    Completed,
}

impl PomodoroStatus {
    /// The name of the status, as it is stored and listed.
    pub open spec fn name(self) -> Seq<char> {
        match self {
            PomodoroStatus::InProgress => "InProgress"@,
            PomodoroStatus::Aborted => "Aborted"@,
            PomodoroStatus::BreakPending => "BreakPending"@,
            PomodoroStatus::Break => "Break"@,
            PomodoroStatus::Completed => "Completed"@,
        }
    }

    /// The status that a stored name stands for; any other text reads as
    /// `Aborted`.
    pub open spec fn from_name(name: Seq<char>) -> PomodoroStatus {
        if name == "InProgress"@ {
            PomodoroStatus::InProgress
        } else if name == "BreakPending"@ {
            PomodoroStatus::BreakPending
        } else if name == "Break"@ {
            PomodoroStatus::Break
        } else if name == "Completed"@ {
            PomodoroStatus::Completed
        } else {
            PomodoroStatus::Aborted
        }
    }

    /// `Aborted` and `Completed` end a session.
    pub open spec fn is_terminal(self) -> bool {
        self == PomodoroStatus::Aborted || self == PomodoroStatus::Completed
    }

    /// Whether the status ends a session.
    pub fn terminal(&self) -> (b: bool)
        ensures
            b == self.is_terminal(),
    {
        match self {
            PomodoroStatus::Aborted => true,
            PomodoroStatus::Completed => true,
            _ => false,
        }
    }

    /// The name of the status.
    pub fn to_string(&self) -> (text: String)
        ensures
            text@ == self.name(),
    {
        match self {
            PomodoroStatus::InProgress => String::from_str("InProgress"),
            PomodoroStatus::Aborted => String::from_str("Aborted"),
            PomodoroStatus::BreakPending => String::from_str("BreakPending"),
            PomodoroStatus::Break => String::from_str("Break"),
            PomodoroStatus::Completed => String::from_str("Completed"),
        }
    }
}

impl From<String> for PomodoroStatus {
    fn from(string: String) -> (status: PomodoroStatus) {
        if string == String::from_str("InProgress") {
            PomodoroStatus::InProgress
        } else if string == String::from_str("BreakPending") {
            PomodoroStatus::BreakPending
        } else if string == String::from_str("Break") {
            PomodoroStatus::Break
        } else if string == String::from_str("Completed") {
            PomodoroStatus::Completed
        } else {
            PomodoroStatus::Aborted
        }
    }
}

impl vstd::std_specs::convert::FromSpecImpl<String> for PomodoroStatus {
    open spec fn obeys_from_spec() -> bool {
        true
    }

    open spec fn from_spec(string: String) -> PomodoroStatus {
        PomodoroStatus::from_name(string@)
    }
}

/// One pomodoro attempt: a work interval and the break that follows it.
#[derive(Debug, PartialEq, Eq)]
pub struct Pomodoro {
    pub id: i32,
    pub work_start_time: Instant,
    pub work_end_time: Option<Instant>,
    pub break_start_time: Option<Instant>,
    pub break_end_time: Option<Instant>,
    pub work_length: Duration,
    pub break_length: Duration,
    /// The labels of the session, separated by commas.
    pub tags: String,
    pub status: PomodoroStatus,
}

/// A session as specifications see it: the tags are their characters.
pub struct PomodoroView {
    pub id: i32,
    pub work_start_time: Instant,
    pub work_end_time: Option<Instant>,
    pub break_start_time: Option<Instant>,
    pub break_end_time: Option<Instant>,
    pub work_length: Duration,
    pub break_length: Duration,
    pub tags: Seq<char>,
    pub status: PomodoroStatus,
}

impl View for Pomodoro {
    type V = PomodoroView;

    open spec fn view(&self) -> PomodoroView {
        PomodoroView {
            id: self.id,
            work_start_time: self.work_start_time,
            work_end_time: self.work_end_time,
            break_start_time: self.break_start_time,
            break_end_time: self.break_end_time,
            work_length: self.work_length,
            break_length: self.break_length,
            tags: self.tags@,
            status: self.status,
        }
    }
}

impl PomodoroView {
    /// The session that `create` stores: in progress, with no end times.
    pub open spec fn started(
        id: i32,
        start_time: Instant,
        work_length: Duration,
        break_length: Duration,
        tags: Seq<char>,
    ) -> PomodoroView {
        PomodoroView {
            id,
            work_start_time: start_time,
            work_end_time: None,
            break_start_time: None,
            break_end_time: None,
            work_length,
            break_length,
            tags,
            status: PomodoroStatus::InProgress,
        }
    }

    /// The moment the work window closes, in seconds since the epoch.
    pub open spec fn work_deadline(self) -> int {
        self.work_start_time.secs + self.work_length.secs
    }

    /// What a session can be started with: a start in the years 0000 to 9999,
    /// and lengths of at least a second.
    pub open spec fn startable(start_time: Instant, work_length: Duration, break_length: Duration)
        -> bool {
        &&& start_time.in_range()
        &&& work_length.secs >= 1
        &&& break_length.secs >= 1
    }

    /// What a session was started with is valid.
    pub open spec fn storable(self) -> bool {
        PomodoroView::startable(self.work_start_time, self.work_length, self.break_length)
    }

    /// The invariants of a session: what it was started with is valid; once
    /// the work is over its end is recorded, at or after its start; from the
    /// break on, the start of the break is recorded, at or after the end of
    /// work; a completed session records the end of its break, at or after
    /// its start.
    pub open spec fn wf(self) -> bool {
        &&& self.storable()
        &&& self.status != PomodoroStatus::InProgress ==> {
            &&& self.work_end_time matches Some(end)
            &&& end.secs >= self.work_start_time.secs
        }
        &&& (self.status == PomodoroStatus::Break || self.status == PomodoroStatus::Completed) ==> {
            &&& self.break_start_time matches Some(start)
            &&& start.secs >= self.work_end_time->0.secs
        }
        &&& self.status == PomodoroStatus::Completed ==> {
            &&& self.break_end_time matches Some(end)
            &&& end.secs >= self.break_start_time->0.secs
        }
    }

    /// The latest instant the session records, in seconds since the epoch.
    pub open spec fn latest_time(self) -> int {
        later_of(
            later_of(
                later_of(self.work_start_time.secs as int, self.work_end_time),
                self.break_start_time,
            ),
            self.break_end_time,
        )
    }
}

/// The later of the moment `secs` and the instant `t`, where there is one.
pub open spec fn later_of(secs: int, t: Option<Instant>) -> int {
    match t {
        Some(t) => if t.secs > secs { t.secs as int } else { secs },
        None => secs,
    }
}

impl Clone for Pomodoro {
    fn clone(&self) -> (copy: Pomodoro)
        ensures
            copy@ == self@,
    {
        Pomodoro {
            id: self.id,
            work_start_time: self.work_start_time,
            work_end_time: self.work_end_time,
            break_start_time: self.break_start_time,
            break_end_time: self.break_end_time,
            work_length: self.work_length,
            break_length: self.break_length,
            tags: self.tags.clone(),
            status: self.status,
        }
    }
}

impl Pomodoro {
    /// Whether what the session was started with is valid.
    pub fn is_storable(&self) -> (b: bool)
        ensures
            b == self@.storable(),
    {
        self.work_start_time.is_in_range() && self.work_length.secs >= 1 && self.break_length.secs
            >= 1
    }

    /// Whether the session keeps its invariants.
    pub fn is_wf(&self) -> (b: bool)
        ensures
            b == self@.wf(),
    {
        if !self.is_storable() {
            return false;
        }
        let work_done = match self.status {
            PomodoroStatus::InProgress => true,
            _ => match self.work_end_time {
                Some(end) => end.secs >= self.work_start_time.secs,
                None => false,
            },
        };
        if !work_done {
            return false;
        }
        let in_break = match self.status {
            PomodoroStatus::Break | PomodoroStatus::Completed => match (
                self.work_end_time,
                self.break_start_time,
            ) {
                (Some(end), Some(start)) => start.secs >= end.secs,
                _ => false,
            },
            _ => true,
        };
        if !in_break {
            return false;
        }
        match self.status {
            PomodoroStatus::Completed => match (self.break_start_time, self.break_end_time) {
                (Some(start), Some(end)) => end.secs >= start.secs,
                _ => false,
            },
            _ => true,
        }
    }
}

} // verus!
