use solanum::pomodoro_query_mapper::{PomodoroRow, INSERT, SELECT, UPDATE};
use solanum::{
    Duration, Error, InMemoryPomodoros, Instant, Pomodoro, PomodoroQueryMapper, PomodoroStatus,
    Pomodoros,
};

fn create(repository: &mut InMemoryPomodoros, start: i64, tags: &str) {
    repository
        .create(
            Instant::from_timestamp(start),
            Duration::seconds(1500),
            Duration::seconds(300),
            String::from(tags),
        )
        .unwrap();
}

#[test]
fn a_created_session_comes_back_as_the_newest() {
    let mut repository = InMemoryPomodoros::new();
    assert_eq!(repository.most_recent(), None);
    assert_eq!(repository.len(), 0);
    repository
        .create(
            Instant::from_timestamp(1000),
            Duration::seconds(23),
            Duration::seconds(42),
            String::from("foo,bar"),
        )
        .unwrap();
    let expected = Pomodoro {
        id: 1,
        work_start_time: Instant::from_timestamp(1000),
        work_end_time: None,
        break_start_time: None,
        break_end_time: None,
        work_length: Duration::seconds(23),
        break_length: Duration::seconds(42),
        tags: String::from("foo,bar"),
        status: PomodoroStatus::InProgress,
    };
    assert_eq!(repository.most_recent(), Some(expected));
    create(&mut repository, 1000, "same");
    assert_eq!(repository.most_recent().unwrap().tags, "same");
    assert_eq!(repository.most_recent().unwrap().id, 2);
    create(&mut repository, 999, "older");
    assert_eq!(repository.most_recent().unwrap().tags, "same");
    assert_eq!(repository.get(2).unwrap().tags, "older");
    assert_eq!(repository.get(2).unwrap().id, 3);
    assert_eq!(repository.get(3), None);
}

#[test]
fn last_gives_the_newest_first() {
    let mut repository = InMemoryPomodoros::new();
    for start in [50, 10, 40, 20, 60, 30] {
        create(&mut repository, start, "");
    }
    let starts = |found: Vec<Pomodoro>| -> Vec<i64> {
        found.iter().map(|p| p.work_start_time.timestamp()).collect()
    };
    assert_eq!(starts(repository.last(3).unwrap()), vec![60, 50, 40]);
    assert_eq!(starts(repository.last(0).unwrap()), Vec::<i64>::new());
    assert_eq!(starts(repository.last(6).unwrap()), vec![60, 50, 40, 30, 20, 10]);
    assert_eq!(starts(repository.last(99).unwrap()), vec![60, 50, 40, 30, 20, 10]);
    let ids: Vec<i32> = repository.last(6).unwrap().iter().map(|p| p.id).collect();
    assert_eq!(ids, vec![5, 1, 3, 6, 4, 2]);
}

#[test]
fn update_overwrites_the_session_of_the_id() {
    let mut repository = InMemoryPomodoros::new();
    for start in [10, 20, 30] {
        create(&mut repository, start, "t");
    }
    let mut changed = repository.get(1).unwrap();
    assert_eq!(changed.id, 2);
    changed.status = PomodoroStatus::Aborted;
    changed.work_end_time = Some(Instant::from_timestamp(25));
    changed.id = 77;
    repository.update(2, changed).unwrap();
    let stored = repository.get(1).unwrap();
    assert_eq!(stored.id, 2);
    assert_eq!(stored.status, PomodoroStatus::Aborted);
    assert_eq!(stored.work_end_time, Some(Instant::from_timestamp(25)));
    assert_eq!(repository.get(0).unwrap().status, PomodoroStatus::InProgress);
    assert_eq!(repository.get(2).unwrap().status, PomodoroStatus::InProgress);
    assert_eq!(repository.len(), 3);
}

#[test]
fn update_moves_a_session_whose_start_changes() {
    let mut repository = InMemoryPomodoros::new();
    for start in [10, 20, 30] {
        create(&mut repository, start, "t");
    }
    let mut moved = repository.get(2).unwrap();
    assert_eq!(moved.id, 1);
    moved.work_start_time = Instant::from_timestamp(30);
    repository.update(1, moved).unwrap();
    let ids: Vec<i32> = repository.last(3).unwrap().iter().map(|p| p.id).collect();
    assert_eq!(ids, vec![1, 3, 2]);
    let mut moved = repository.get(0).unwrap();
    moved.work_start_time = Instant::from_timestamp(5);
    repository.update(1, moved).unwrap();
    let ids: Vec<i32> = repository.last(3).unwrap().iter().map(|p| p.id).collect();
    assert_eq!(ids, vec![3, 2, 1]);
}

#[test]
fn update_fails_where_no_session_has_the_id() {
    let mut repository = InMemoryPomodoros::new();
    create(&mut repository, 10, "t");
    let session = repository.get(0).unwrap();
    let result = repository.update(2, session.clone());
    assert!(matches!(result, Err(Error::DatabaseError(_))));
    let result = repository.update(0, session.clone());
    assert!(matches!(result, Err(Error::DatabaseError(_))));
    assert_eq!(repository.get(0), Some(session));
}

fn row(id: i32, start: i64, status: &str) -> PomodoroRow {
    PomodoroRow {
        id,
        work_start_time: start,
        work_end_time: Some(start + 5),
        break_start_time: None,
        break_end_time: None,
        work_length: 5,
        break_length: 6,
        tags: String::from("a,b"),
        status: String::from(status),
    }
}

#[test]
fn rows_read_as_sessions() {
    let mapper = PomodoroQueryMapper::new();
    let session = mapper.read_row(row(3, 100, "BreakPending"));
    assert_eq!(
        session,
        Pomodoro {
            id: 3,
            work_start_time: Instant::from_timestamp(100),
            work_end_time: Some(Instant::from_timestamp(105)),
            break_start_time: None,
            break_end_time: None,
            work_length: Duration::seconds(5),
            break_length: Duration::seconds(6),
            tags: String::from("a,b"),
            status: PomodoroStatus::BreakPending,
        }
    );
    assert_eq!(mapper.read_row(row(3, 100, "unknown")).status, PomodoroStatus::Aborted);
    assert_eq!(mapper.update_pomodoro(3, &session), row(3, 100, "BreakPending"));
    assert_eq!(mapper.update_pomodoro(9, &session).id, 9);
}

#[test]
fn the_row_of_a_new_session() {
    let mapper = PomodoroQueryMapper::new();
    let made = mapper.create_pomodoro(
        Instant::from_timestamp(100),
        Duration::seconds(23),
        Duration::seconds(42),
        String::from("x,y"),
    );
    assert_eq!(
        made,
        PomodoroRow {
            id: 0,
            work_start_time: 100,
            work_end_time: None,
            break_start_time: None,
            break_end_time: None,
            work_length: 23,
            break_length: 42,
            tags: String::from("x,y"),
            status: String::from("InProgress"),
        }
    );
    assert!(INSERT.starts_with("INSERT INTO pomodoros("));
    assert!(SELECT.ends_with("ORDER BY work_start_time DESC"));
    assert!(UPDATE.ends_with("WHERE id = $1"));
}

#[test]
fn lists_the_first_rows() {
    let mapper = PomodoroQueryMapper::new();
    let rows = || vec![row(3, 300, "InProgress"), row(2, 200, "Aborted"), row(1, 100, "Aborted")];
    let ids = |found: Vec<Pomodoro>| -> Vec<i32> { found.iter().map(|p| p.id).collect() };
    assert_eq!(ids(mapper.list_most_recent_pomodoros(rows(), 2).unwrap()), vec![3, 2]);
    assert_eq!(ids(mapper.list_most_recent_pomodoros(rows(), 5).unwrap()), vec![3, 2, 1]);
    assert_eq!(ids(mapper.list_most_recent_pomodoros(rows(), 0).unwrap()), Vec::<i32>::new());
    assert_eq!(mapper.get_most_recent_pomodoro(rows()).unwrap().id, 3);
    assert!(matches!(mapper.get_most_recent_pomodoro(vec![]), Err(Error::DatabaseError(_))));
}

#[test]
fn refuses_rows_that_cannot_be_handed_on() {
    let mapper = PomodoroQueryMapper::new();
    let unordered = || vec![row(1, 100, "Aborted"), row(2, 200, "Aborted")];
    assert!(matches!(
        mapper.list_most_recent_pomodoros(unordered(), 2),
        Err(Error::DatabaseError(_))
    ));
    assert_eq!(mapper.list_most_recent_pomodoros(unordered(), 1).unwrap().len(), 1);
    let mut short = row(1, 100, "Aborted");
    short.work_length = 0;
    assert!(matches!(
        mapper.list_most_recent_pomodoros(vec![short], 1),
        Err(Error::DatabaseError(_))
    ));
    let late = row(1, 253_402_300_800, "Aborted");
    assert!(matches!(mapper.get_most_recent_pomodoro(vec![late]), Err(Error::DatabaseError(_))));
}
