use chrono::{DateTime, Utc};
use solanum::{Command, Duration, Error, Instant};

fn at(text: &str) -> Instant {
    Instant::from_timestamp(text.parse::<DateTime<Utc>>().unwrap().timestamp())
}

#[test]
fn can_parse_start_commands_with_default_durations() {
    let current_time = at("2000-01-01T00:00:00+00:00");
    let string = String::from("START");

    let command = Command::from_string(current_time, string);

    assert!(
        command.unwrap()
            == Command::Start(
                current_time,
                Duration::seconds(1500),
                Duration::seconds(300),
                vec![]
            )
    );
}

#[test]
fn can_parse_start_commands_with_custom_durations() {
    let current_time = at("2000-01-01T00:00:00+00:00");
    let string = String::from("START 23 42");

    let command = Command::from_string(current_time, string);

    assert!(
        command.unwrap()
            == Command::Start(current_time, Duration::seconds(23), Duration::seconds(42), vec![])
    );
}

#[test]
fn can_parse_start_commands_with_tags() {
    let current_time = at("2000-01-01T00:00:00+00:00");
    let string = String::from("START tags foo,bar,baz");

    let command = Command::from_string(current_time, string);

    assert!(
        command.unwrap()
            == Command::Start(
                current_time,
                Duration::seconds(1500),
                Duration::seconds(300),
                vec![String::from("foo"), String::from("bar"), String::from("baz")]
            )
    );
}

#[test]
fn can_parse_start_commands_with_tags_and_custom_durations() {
    let current_time = at("2000-01-01T00:00:00+00:00");
    let string = String::from("START tags foo,bar,baz 23 42");

    let command = Command::from_string(current_time, string);

    assert!(
        command.unwrap()
            == Command::Start(
                current_time,
                Duration::seconds(23),
                Duration::seconds(42),
                vec![String::from("foo"), String::from("bar"), String::from("baz")]
            )
    );
}

#[test]
fn can_parse_status_commands() {
    let current_time = at("2000-01-01T00:00:00+00:00");
    let string = String::from("STATUS");

    let command = Command::from_string(current_time, string);

    assert!(command.unwrap() == Command::Status);
}

#[test]
fn returns_error_when_given_invalid_string() {
    let current_time = at("2000-01-01T00:00:00+00:00");
    let string = String::from("FOOBAR");

    let command = Command::from_string(current_time, string);

    assert!(command.is_err())
}

fn parse(text: &str) -> Result<Command, Error> {
    Command::from_string(Instant::from_timestamp(0), String::from(text))
}

fn start(work: i64, rest: i64, tags: &[&str]) -> Command {
    Command::Start(
        Instant::from_timestamp(0),
        Duration::seconds(work),
        Duration::seconds(rest),
        tags.iter().map(|t| String::from(*t)).collect(),
    )
}

#[test]
fn parses_stop_and_list() {
    assert_eq!(parse("STOP").unwrap(), Command::Stop);
    assert_eq!(parse("LIST").unwrap(), Command::List);
}

#[test]
fn the_three_plain_commands_are_the_whole_request() {
    assert!(parse("STOP ").is_err());
    assert!(parse(" STOP").is_err());
    assert!(parse("LISTS").is_err());
    assert!(parse("STATUS now").is_err());
    assert!(parse("stop").is_err());
    assert!(parse("").is_err());
}

#[test]
fn invalid_command_hands_the_request_back() {
    match parse("FOOBAR") {
        Err(Error::InvalidCommand(request)) => assert_eq!(request, "FOOBAR"),
        other => panic!("unexpected {:?}", other),
    }
    assert_eq!(parse("FOOBAR").unwrap_err().to_string(), "Invalid command string: FOOBAR");
}

#[test]
fn start_need_only_begin_the_request() {
    assert_eq!(parse("STARTxyz").unwrap(), start(1500, 300, &[]));
    assert_eq!(parse("START ").unwrap(), start(1500, 300, &[]));
    assert_eq!(parse("START 23").unwrap(), start(1500, 300, &[]));
    assert_eq!(parse("START 23 ").unwrap(), start(1500, 300, &[]));
    assert_eq!(parse("START 23 42 and more").unwrap(), start(23, 42, &[]));
    assert_eq!(parse("START  23 42").unwrap(), start(1500, 300, &[]));
    assert_eq!(parse("start").is_err(), true);
}

#[test]
fn tags_end_where_no_word_follows_a_comma() {
    assert_eq!(parse("START tags foo,").unwrap(), start(1500, 300, &["foo"]));
    assert_eq!(parse("START tags foo,,bar").unwrap(), start(1500, 300, &["foo"]));
    assert_eq!(parse("START tags a_b,C9 1 2").unwrap(), start(1, 2, &["a_b", "C9"]));
    assert_eq!(parse("START tags ").unwrap(), start(1500, 300, &[]));
    assert_eq!(parse("START tags , 1 2").unwrap(), start(1500, 300, &[]));
    assert_eq!(parse("START tags 12 34").unwrap(), start(1500, 300, &["12"]));
    assert_eq!(parse("START tags foo-bar").unwrap(), start(1500, 300, &["foo"]));
    assert_eq!(parse("START tags f\u{f6}\u{f6}").unwrap(), start(1500, 300, &["f"]));
}

#[test]
fn a_number_too_large_to_count_reads_as_the_default() {
    assert_eq!(
        parse("START 9223372036854775807 5").unwrap(),
        start(9223372036854775807, 5, &[])
    );
    assert_eq!(parse("START 9223372036854775808 5").unwrap(), start(1500, 5, &[]));
    assert_eq!(parse("START 7 99999999999999999999").unwrap(), start(7, 300, &[]));
    assert_eq!(parse("START 007 000").unwrap(), start(7, 0, &[]));
}

#[test]
fn reads_commands_from_bytes() {
    let now = Instant::from_timestamp(5);
    assert_eq!(Command::from_bytes(now, b"STATUS"), Some(Command::Status));
    assert_eq!(Command::from_bytes(now, b"STATUS\n"), None);
    assert_eq!(
        Command::from_bytes(now, b"START tags x 3 4"),
        Some(Command::Start(now, Duration::seconds(3), Duration::seconds(4), vec![String::from("x")]))
    );
    assert_eq!(Command::from_bytes(now, &[0xff, 0xfe]), None);
}
