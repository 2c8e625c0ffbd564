use chrono::{DateTime, Utc};
use solanum::{Duration, Instant, Pomodoro, PomodoroStatus, PomodoroTransitioner};

fn at(text: &str) -> Instant {
    Instant::from_timestamp(text.parse::<DateTime<Utc>>().unwrap().timestamp())
}

#[test]
fn aborts_a_pomodoro_transitioned_before_work_duration_has_elapsed() {
    let pomodoro = Pomodoro {
        id: 0,
        work_start_time: at("2000-01-01T00:00:00+00:00"),
        work_end_time: None,
        break_start_time: None,
        break_end_time: None,
        work_length: Duration::seconds(5),
        break_length: Duration::seconds(5),
        tags: String::from(""),
        status: PomodoroStatus::InProgress,
    };
    let transition_time = at("2000-01-01T00:00:01+00:00");

    let updated_pomodoro = PomodoroTransitioner::transition(transition_time, &pomodoro);

    assert!(updated_pomodoro.status == PomodoroStatus::Aborted);
    assert!(updated_pomodoro.work_end_time == Some(transition_time));
}

#[test]
fn moves_a_pomodoro_transitioned_after_work_duration_has_elapsed_to_break_pending() {
    let pomodoro = Pomodoro {
        id: 0,
        work_start_time: at("2000-01-01T00:00:00+00:00"),
        work_end_time: None,
        break_start_time: None,
        break_end_time: None,
        work_length: Duration::seconds(5),
        break_length: Duration::seconds(5),
        tags: String::from(""),
        status: PomodoroStatus::InProgress,
    };
    let transition_time = at("2000-01-01T00:00:05+00:00");

    let updated_pomodoro = PomodoroTransitioner::transition(transition_time, &pomodoro);

    assert!(updated_pomodoro.status == PomodoroStatus::BreakPending);
    assert!(updated_pomodoro.work_end_time == Some(transition_time))
}

#[test]
fn starts_a_break_for_pomodoros_transitioned_from_breakpending() {
    let pomodoro = Pomodoro {
        id: 0,
        work_start_time: at("2000-01-01T00:00:00+00:00"),
        work_end_time: Some(at("2000-01-01T00:00:05+00:00")),
        break_start_time: None,
        break_end_time: None,
        work_length: Duration::seconds(5),
        break_length: Duration::seconds(5),
        tags: String::from(""),
        status: PomodoroStatus::BreakPending,
    };
    let transition_time = at("2000-01-01T00:00:10+00:00");

    let updated_pomodoro = PomodoroTransitioner::transition(transition_time, &pomodoro);

    assert!(updated_pomodoro.status == PomodoroStatus::Break);
    assert!(updated_pomodoro.break_start_time == Some(transition_time))
}

#[test]
fn completes_pomodoros_transitioned_after_break_time_has_elapsed() {
    let pomodoro = Pomodoro {
        id: 0,
        work_start_time: at("2000-01-01T00:00:00+00:00"),
        work_end_time: Some(at("2000-01-01T00:00:05+00:00")),
        break_start_time: Some(at("2000-01-01T00:00:10+00:00")),
        break_end_time: None,
        work_length: Duration::seconds(5),
        break_length: Duration::seconds(5),
        tags: String::from(""),
        status: PomodoroStatus::Break,
    };
    let transition_time = at("2000-01-01T00:00:15+00:00");

    let updated_pomodoro = PomodoroTransitioner::transition(transition_time, &pomodoro);

    assert!(updated_pomodoro.status == PomodoroStatus::Completed);
    assert!(updated_pomodoro.break_end_time == Some(transition_time))
}

#[test]
fn does_nothing_to_an_aborted_pomodoro() {
    let pomodoro = Pomodoro {
        id: 0,
        work_start_time: at("2000-01-01T00:00:00+00:00"),
        work_end_time: Some(at("2000-01-01T00:00:01+00:00")),
        break_start_time: None,
        break_end_time: None,
        work_length: Duration::seconds(5),
        break_length: Duration::seconds(5),
        tags: String::from(""),
        status: PomodoroStatus::Aborted,
    };
    let transition_time = at("2000-01-01T00:00:10+00:00");

    let updated_pomodoro = PomodoroTransitioner::transition(transition_time, &pomodoro);

    assert!(updated_pomodoro == pomodoro);
}

#[test]
fn does_nothing_to_a_completed_pomodoro() {
    let pomodoro = Pomodoro {
        id: 0,
        work_start_time: at("2000-01-01T00:00:00+00:00"),
        work_end_time: Some(at("2000-01-01T00:00:05+00:00")),
        break_start_time: Some(at("2000-01-01T00:00:10+00:00")),
        break_end_time: Some(at("2000-01-01T00:00:15+00:00")),
        work_length: Duration::seconds(5),
        break_length: Duration::seconds(5),
        tags: String::from(""),
        status: PomodoroStatus::Completed,
    };
    let transition_time = at("2000-01-01T00:00:30+00:00");

    let updated_pomodoro = PomodoroTransitioner::transition(transition_time, &pomodoro);

    println!("{:?} {:?}", updated_pomodoro, pomodoro);
    assert!(updated_pomodoro == pomodoro);
}

fn session(status: PomodoroStatus) -> Pomodoro {
    Pomodoro {
        id: 7,
        work_start_time: Instant::from_timestamp(100),
        work_end_time: None,
        break_start_time: None,
        break_end_time: None,
        work_length: Duration::seconds(60),
        break_length: Duration::seconds(30),
        tags: String::from("deep,work"),
        status,
    }
}

#[test]
fn a_step_keeps_what_the_session_was_started_with() {
    let mut current = session(PomodoroStatus::InProgress);
    for now in [160, 170, 200, 900] {
        let next = PomodoroTransitioner::transition(Instant::from_timestamp(now), &current);
        assert_eq!(next.id, 7);
        assert_eq!(next.work_start_time, Instant::from_timestamp(100));
        assert_eq!(next.work_length, Duration::seconds(60));
        assert_eq!(next.break_length, Duration::seconds(30));
        assert_eq!(next.tags, "deep,work");
        current = next;
    }
    assert_eq!(current.status, PomodoroStatus::Completed);
    assert_eq!(current.work_end_time, Some(Instant::from_timestamp(160)));
    assert_eq!(current.break_start_time, Some(Instant::from_timestamp(170)));
    assert_eq!(current.break_end_time, Some(Instant::from_timestamp(200)));
    assert!(current.is_wf());
}

#[test]
fn work_ends_with_its_window_however_late_the_step() {
    let next = PomodoroTransitioner::transition(
        Instant::from_timestamp(5000),
        &session(PomodoroStatus::InProgress),
    );
    assert_eq!(next.status, PomodoroStatus::BreakPending);
    assert_eq!(next.work_end_time, Some(Instant::from_timestamp(160)));
}

#[test]
fn the_last_second_of_the_window_still_aborts() {
    let next = PomodoroTransitioner::transition(
        Instant::from_timestamp(159),
        &session(PomodoroStatus::InProgress),
    );
    assert_eq!(next.status, PomodoroStatus::Aborted);
    assert_eq!(next.work_end_time, Some(Instant::from_timestamp(159)));
}

#[test]
fn a_step_before_the_start_breaks_the_invariants() {
    let next = PomodoroTransitioner::transition(
        Instant::from_timestamp(99),
        &session(PomodoroStatus::InProgress),
    );
    assert_eq!(next.status, PomodoroStatus::Aborted);
    assert!(!next.is_wf());
}

#[test]
fn status_names_read_back() {
    for status in [
        PomodoroStatus::InProgress,
        PomodoroStatus::Aborted,
        PomodoroStatus::BreakPending,
        PomodoroStatus::Break,
        PomodoroStatus::Completed,
    ] {
        assert_eq!(PomodoroStatus::from(status.to_string()), status);
    }
    assert_eq!(PomodoroStatus::BreakPending.to_string(), "BreakPending");
    assert_eq!(PomodoroStatus::from(String::from("Paused")), PomodoroStatus::Aborted);
    assert_eq!(PomodoroStatus::from(String::from("")), PomodoroStatus::Aborted);
}
