use solanum::connection::{handle_request, handle_request_at, read_request, Reply};
use solanum::{
    Clock, CommandProcessor, Error, InMemoryPomodoros, Instant, PomodoroStatus, SystemClock,
};
use std::cell::Cell;
use std::rc::Rc;

/// 2000-01-01T00:00:00Z.
const T0: i64 = 946_684_800;

/// A clock that shows what the test sets.
struct ScriptedClock {
    now: Rc<Cell<i64>>,
}

impl Clock for ScriptedClock {
    fn current_time(&self) -> Instant {
        Instant::from_timestamp(self.now.get())
    }
}

struct Daemon {
    now: Rc<Cell<i64>>,
    processor: CommandProcessor<ScriptedClock, InMemoryPomodoros>,
}

impl Daemon {
    fn new() -> Daemon {
        let now = Rc::new(Cell::new(T0));
        let clock = ScriptedClock { now: now.clone() };
        Daemon { now, processor: CommandProcessor::new(clock, InMemoryPomodoros::new()) }
    }

    fn send(&mut self, seconds_after_t0: i64, request: &str) -> Reply {
        self.now.set(T0 + seconds_after_t0);
        let arrived = Instant::from_timestamp(T0 + seconds_after_t0);
        handle_request(&mut self.processor, arrived, request.as_bytes())
    }

    fn session(&self, index: usize) -> solanum::Pomodoro {
        self.processor.pomodoros.get(index).unwrap()
    }
}

#[test]
fn start_defaults() {
    let mut daemon = Daemon::new();
    let reply = daemon.send(0, "START");
    assert!(reply.response.contains("Pomodoro started at 2000-01-01 00:00:00"));
    assert!(reply.error.is_none());
    assert_eq!(daemon.processor.pomodoros.len(), 1);
    let session = daemon.session(0);
    assert_eq!(session.status, PomodoroStatus::InProgress);
    assert_eq!(session.work_length.num_seconds(), 1500);
    assert_eq!(session.break_length.num_seconds(), 300);
    assert_eq!(session.tags, "");
    assert_eq!(session.work_start_time.timestamp(), T0);
    assert_eq!(session.work_end_time, None);
    assert_eq!(session.break_start_time, None);
    assert_eq!(session.break_end_time, None);
    assert_eq!(session.id, 1);
}

#[test]
fn start_with_durations() {
    let mut daemon = Daemon::new();
    daemon.send(0, "START 23 42");
    let session = daemon.session(0);
    assert_eq!(session.work_length.num_seconds(), 23);
    assert_eq!(session.break_length.num_seconds(), 42);
}

#[test]
fn start_with_tags() {
    let mut daemon = Daemon::new();
    daemon.send(0, "START tags foo,bar,baz");
    let session = daemon.session(0);
    let tags: Vec<&str> = session.tags.split(',').collect();
    assert_eq!(tags, vec!["foo", "bar", "baz"]);
}

#[test]
fn abort() {
    let mut daemon = Daemon::new();
    daemon.send(0, "START");
    let reply = daemon.send(1, "STOP");
    assert_eq!(reply.response, "Pomodoro aborted");
    let session = daemon.session(0);
    assert_eq!(session.status, PomodoroStatus::Aborted);
    assert_eq!(session.work_end_time, Some(Instant::from_timestamp(T0 + 1)));
}

#[test]
fn complete_via_expiration() {
    let mut daemon = Daemon::new();
    daemon.send(0, "START 1 1");
    let reply = daemon.send(2, "STOP");
    assert_eq!(reply.response, "Pomodoro aborted");
    assert_eq!(daemon.session(0).status, PomodoroStatus::BreakPending);
    assert_eq!(daemon.session(0).work_end_time, Some(Instant::from_timestamp(T0 + 1)));
    let reply = daemon.send(2, "LIST");
    assert!(reply.response.contains("BreakPending"));
    assert_eq!(reply.response, "[2000-01-01 00:00:00]: BreakPending ()\n");
}

#[test]
fn status_formatting() {
    let mut daemon = Daemon::new();
    daemon.send(0, "START 125 60");
    let reply = daemon.send(5, "STATUS");
    assert_eq!(reply.response, "02:00 | 01:00");
    assert!(reply.error.is_none());
}

#[test]
fn invalid_input() {
    let mut daemon = Daemon::new();
    let reply = daemon.send(0, "FOOBAR");
    assert!(matches!(reply.error, Some(Error::InvalidCommand(_))));
    assert_eq!(reply.response, "Invalid command string: FOOBAR");
    assert_eq!(daemon.processor.pomodoros.len(), 0);
    let reply = daemon.send(1, "START");
    assert!(reply.error.is_none());
    assert_eq!(reply.response, "Pomodoro started at 2000-01-01 00:00:01");
    let reply = daemon.send(2, "STATUS");
    assert_eq!(reply.response, "24:59 | 05:00");
}

#[test]
fn start_on_a_window_that_has_just_closed_completes_the_prior() {
    let mut daemon = Daemon::new();
    daemon.send(0, "START 60 30");
    let reply = daemon.send(60, "START");
    assert_eq!(reply.response, "Pomodoro started at 2000-01-01 00:01:00");
    assert_eq!(daemon.processor.pomodoros.len(), 2);
    let prior = daemon.session(1);
    assert_eq!(prior.status, PomodoroStatus::Completed);
    assert_eq!(prior.work_end_time, Some(Instant::from_timestamp(T0 + 60)));
    assert_eq!(prior.break_start_time, Some(Instant::from_timestamp(T0 + 60)));
    assert_eq!(prior.break_end_time, Some(Instant::from_timestamp(T0 + 60)));
    assert!(prior.is_wf());
    let newest = daemon.session(0);
    assert_eq!(newest.status, PomodoroStatus::InProgress);
    assert_eq!(newest.id, 2);
}

#[test]
fn start_a_second_before_the_window_closes_aborts_the_prior() {
    let mut daemon = Daemon::new();
    daemon.send(0, "START 60 30");
    daemon.send(59, "START");
    let prior = daemon.session(1);
    assert_eq!(prior.status, PomodoroStatus::Aborted);
    assert_eq!(prior.work_end_time, Some(Instant::from_timestamp(T0 + 59)));
    assert_eq!(prior.break_start_time, None);
}

#[test]
fn status_of_an_elapsed_session_is_negative() {
    let mut daemon = Daemon::new();
    daemon.send(0, "START 60 30");
    assert_eq!(daemon.send(150, "STATUS").response, "-02:30 | 00:30");
    daemon.send(150, "STOP");
    daemon.send(160, "STOP");
    assert_eq!(daemon.session(0).status, PomodoroStatus::Break);
    assert_eq!(daemon.send(200, "STATUS").response, "-03:40 | -01:50");
}

#[test]
fn a_request_of_more_than_1024_bytes_is_cut() {
    let mut long = String::from("START tags ");
    while long.len() < 1024 {
        long.push('a');
    }
    let mut longer = long.clone();
    longer.push_str(",b 1 2");
    let mut daemon = Daemon::new();
    daemon.send(0, &longer);
    let mut other = Daemon::new();
    other.send(0, &long);
    assert_eq!(daemon.session(0), other.session(0));
    assert_eq!(daemon.session(0).tags.len(), 1024 - 11);
    assert_eq!(daemon.session(0).work_length.num_seconds(), 1500);

    let mut exact = vec![b'x'; 1020];
    exact.extend_from_slice(b"STOP");
    assert_eq!(read_request(&exact).unwrap().len(), 1024);
    exact.extend_from_slice(b"STOP");
    assert_eq!(read_request(&exact).unwrap().len(), 1024);
}

#[test]
fn a_request_ends_at_the_first_zero_byte() {
    assert_eq!(read_request(b"STOP\0junk\0").unwrap(), "STOP");
    assert_eq!(read_request(b"\0STOP").unwrap(), "");
    assert_eq!(read_request(b"").unwrap(), "");
    assert_eq!(read_request("gr\u{fc}n".as_bytes()).unwrap(), "gr\u{fc}n");
    let mut buffer = [0u8; 1024];
    buffer[..6].copy_from_slice(b"STATUS");
    assert_eq!(read_request(&buffer).unwrap(), "STATUS");
    let mut daemon = Daemon::new();
    let mut buffer = [0u8; 1024];
    buffer[..5].copy_from_slice(b"START");
    let arrived = Instant::from_timestamp(T0);
    let reply = handle_request(&mut daemon.processor, arrived, &buffer);
    assert_eq!(reply.response, "Pomodoro started at 2000-01-01 00:00:00");
}

#[test]
fn a_request_that_is_not_utf8_is_refused() {
    assert!(matches!(read_request(&[0x53, 0xff, 0x54]), Err(Error::CommandDecodeError)));
    assert!(matches!(read_request(&[0xc3]), Err(Error::CommandDecodeError)));
    assert!(read_request(&[0x53, 0x00, 0xff]).is_ok());
    let mut daemon = Daemon::new();
    let arrived = Instant::from_timestamp(T0);
    let reply = handle_request(&mut daemon.processor, arrived, &[0xff, 0xfe]);
    assert!(matches!(reply.error, Some(Error::CommandDecodeError)));
    assert_eq!(reply.response, "Could not parse command from UTF-8");
}

#[test]
fn failed_commands_are_answered_with_a_sentence() {
    let mut daemon = Daemon::new();
    let reply = daemon.send(0, "STOP");
    assert_eq!(reply.response, "Failed to abort pomodoro");
    assert!(matches!(reply.error, Some(Error::MissingSession(_))));
    let reply = daemon.send(0, "STATUS");
    assert_eq!(reply.response, "No pomodoro to get the status of.");
    assert!(matches!(reply.error, Some(Error::MissingSession(_))));
    let reply = daemon.send(0, "START 0 0");
    assert_eq!(reply.response, "Failed to start pomodoro.");
    assert!(matches!(reply.error, Some(Error::InvalidCommand(_))));
    let reply = daemon.send(0, "LIST");
    assert_eq!(reply.response, "");
    assert!(reply.error.is_none());
}

#[test]
fn list_shows_the_newest_five() {
    let mut daemon = Daemon::new();
    for i in 0..7 {
        daemon.send(i * 10, "START tags t");
    }
    let reply = daemon.send(100, "LIST");
    assert_eq!(
        reply.response,
        "[2000-01-01 00:01:00]: InProgress (t)\n\
         [2000-01-01 00:00:50]: Aborted (t)\n\
         [2000-01-01 00:00:40]: Aborted (t)\n\
         [2000-01-01 00:00:30]: Aborted (t)\n\
         [2000-01-01 00:00:20]: Aborted (t)\n"
    );
}

#[test]
fn the_start_of_a_session_is_when_the_request_arrived() {
    let mut daemon = Daemon::new();
    let reply = handle_request_at(
        &mut daemon.processor,
        Instant::from_timestamp(T0 + 7),
        Instant::from_timestamp(T0 + 9),
        b"START",
    );
    assert_eq!(reply.response, "Pomodoro started at 2000-01-01 00:00:07");
    let reply = handle_request_at(
        &mut daemon.processor,
        Instant::from_timestamp(T0 + 20),
        Instant::from_timestamp(T0 + 30),
        b"STOP",
    );
    assert_eq!(reply.response, "Pomodoro aborted");
    assert_eq!(daemon.session(0).work_end_time, Some(Instant::from_timestamp(T0 + 30)));
}

#[test]
fn the_system_clock_shows_the_present() {
    let before = std::time::SystemTime::now()
        .duration_since(std::time::UNIX_EPOCH)
        .unwrap()
        .as_secs() as i64;
    let shown = SystemClock::new().current_time().timestamp();
    assert!(before <= shown && shown <= before + 5);
    assert!(Instant::now().is_in_range());
    let mut processor = CommandProcessor::new(SystemClock::new(), InMemoryPomodoros::new());
    let reply = handle_request(&mut processor, Instant::now(), b"START");
    assert!(reply.response.starts_with("Pomodoro started at 2"));
    assert_eq!(reply.response.len(), 39);
}
