//! The text of the responses.

use crate::command::Command;
use crate::pomodoro::{Pomodoro, PomodoroView};
use crate::pomodoros::views;
use crate::text::{ascii_string, ascii_text, is_ascii_bytes};
use crate::time::{formatted_instant, Instant};
use vstd::prelude::*;
use vstd::string::StringExecFns;

verus! {

/// The digits of `n`, without leading zeros.
pub open spec fn decimal_digits(n: nat) -> Seq<u8>
    decreases n,
{
    if n < 10 {
        seq![(0x30 + n) as u8]
    } else {
        decimal_digits(n / 10) + seq![(0x30 + n % 10) as u8]
    }
}

/// The digits of `n`, with a leading zero where there is only one.
pub open spec fn two_digits(n: nat) -> Seq<u8> {
    if n < 10 {
        seq![0x30u8] + decimal_digits(n)
    } else {
        decimal_digits(n)
    }
}

/// A span of seconds as minutes and seconds, `MM:SS`. The minutes are the
/// whole minutes at or below the span, with a minus sign where the span is
/// negative; the seconds are what is left, from 00 to 59.
pub open spec fn minutes_and_seconds(secs: int) -> Seq<u8> {
    let minutes = secs / 60;
    let seconds = (secs % 60) as nat;
    if minutes < 0 {
        seq![0x2du8] + two_digits((-minutes) as nat) + seq![0x3au8] + two_digits(seconds)
    } else {
        two_digits(minutes as nat) + seq![0x3au8] + two_digits(seconds)
    }
}

/// Seconds of work that are left to a session at `now`.
pub open spec fn work_remaining(session: PomodoroView, now: Instant) -> int {
    session.work_start_time.secs + session.work_length.secs - now.secs
}

/// Seconds of break that are left to a session at `now`: the whole break
/// until it has started.
pub open spec fn break_remaining(session: PomodoroView, now: Instant) -> int {
    match session.break_start_time {
        Some(start) => start.secs + session.break_length.secs - now.secs,
        None => session.break_length.secs as int,
    }
}

/// The bytes of ` | `, which stands between work and break in a status.
pub const BETWEEN: [u8; 3] = [0x20, 0x7c, 0x20];

/// The response to `STATUS`: what is left of work and of break.
pub open spec fn status_text(session: PomodoroView, now: Instant) -> Seq<char> {
    ascii_text(
        minutes_and_seconds(work_remaining(session, now)) + BETWEEN@ + minutes_and_seconds(
            break_remaining(session, now),
        ),
    )
}

/// The response to `START`, for a session that started at `start_time`.
pub open spec fn start_text(start_time: Instant) -> Seq<char> {
    "Pomodoro started at "@ + formatted_instant(start_time.secs as int)
}

/// The response to `STOP`.
pub open spec fn stop_text() -> Seq<char> {
    "Pomodoro aborted"@
}

/// The line of one session in a list.
pub open spec fn list_line(session: PomodoroView) -> Seq<char> {
    "["@ + formatted_instant(session.work_start_time.secs as int) + "]: "@ + session.status.name()
        + " ("@ + session.tags + ")\n"@
}

/// The response to `LIST`: a line for each session, in order.
pub open spec fn list_text(sessions: Seq<PomodoroView>) -> Seq<char>
    decreases sessions.len(),
{
    if sessions.len() == 0 {
        Seq::empty()
    } else {
        list_text(sessions.drop_last()) + list_line(sessions.last())
    }
}

/// Digits are ASCII.
pub proof fn decimal_digits_are_ascii(n: nat)
    ensures
        is_ascii_bytes(decimal_digits(n)),
        decimal_digits(n).len() >= 1,
    decreases n,
{
    if n >= 10 {
        decimal_digits_are_ascii(n / 10);
        let last = seq![(0x30 + n % 10) as u8];
        assert(is_ascii_bytes(last));
        ascii_bytes_concat(decimal_digits(n / 10), last);
    }
}

/// Appends the digits of `n`.
fn push_decimal(out: &mut Vec<u8>, n: u128)
    ensures
        final(out)@ == old(out)@ + decimal_digits(n as nat),
    decreases n,
{
    if n >= 10 {
        push_decimal(out, n / 10);
    }
    out.push(0x30 + (n % 10) as u8);
    assert(final(out)@ =~= old(out)@ + decimal_digits(n as nat));
}

/// Appends the digits of `n`, two at least.
fn push_two_digits(out: &mut Vec<u8>, n: u128)
    ensures
        final(out)@ == old(out)@ + two_digits(n as nat),
{
    if n < 10 {
        out.push(0x30);
    }
    push_decimal(out, n);
    assert(final(out)@ =~= old(out)@ + two_digits(n as nat));
}

/// Appends a span of seconds as `MM:SS`.
fn push_minutes_and_seconds(out: &mut Vec<u8>, secs: i128)
    requires
        -0x2_0000_0000_0000_0000 <= secs <= 0x2_0000_0000_0000_0000,
    ensures
        final(out)@ == old(out)@ + minutes_and_seconds(secs as int),
{
    if secs >= 0 {
        let minutes: u128 = (secs / 60) as u128;
        let seconds: u128 = (secs % 60) as u128;
        push_two_digits(out, minutes);
        out.push(0x3a);
        push_two_digits(out, seconds);
    } else {
        let span: i128 = -secs;
        let whole: i128 = span / 60;
        let left: i128 = span % 60;
        let minutes: u128 = if left == 0 {
            whole as u128
        } else {
            (whole + 1) as u128
        };
        let seconds: u128 = if left == 0 {
            0
        } else {
            (60 - left) as u128
        };
        assert(secs as int / 60 == -(minutes as int));
        assert(secs as int % 60 == seconds as int);
        out.push(0x2d);
        push_two_digits(out, minutes);
        out.push(0x3a);
        push_two_digits(out, seconds);
    }
    assert(final(out)@ =~= old(out)@ + minutes_and_seconds(secs as int));
}

pub struct CommandResponder {}

impl CommandResponder {
    pub fn new() -> (responder: CommandResponder) {
        CommandResponder {  }
    }

    /// The response that a command has whatever the sessions are: that of
    /// `Start`, where its time can be rendered, and that of `Stop`.
    pub fn respond(&self, command: Command) -> (response: Option<String>)
        ensures
            response matches Some(text) ==> (match command@ {
                crate::command::CommandView::Start(at, _, _, _) => text@ == start_text(at),
                _ => text@ == stop_text(),
            }),
            response is Some <==> (match command@ {
                crate::command::CommandView::Start(at, _, _, _) => at.in_range(),
                crate::command::CommandView::Stop => true,
                _ => false,
            }),
    {
        match command {
            Command::Start(start_time, _, _, _) => {
                if start_time.is_in_range() {
                    Some(self.handle_start(&start_time))
                } else {
                    None
                }
            },
            Command::Stop => Some(self.handle_stop()),
            _ => None,
        }
    }

    /// The response to `START`.
    pub fn handle_start(&self, start_time: &Instant) -> (response: String)
        requires
            start_time.in_range(),
        ensures
            response@ == start_text(*start_time),
    {
        self.started_at(start_time.format().as_str())
    }

    /// The response to `START`, from the start of the session as text.
    pub fn started_at(&self, start_time: &str) -> (response: String)
        ensures
            response@ == "Pomodoro started at "@ + start_time@,
    {
        String::from_str("Pomodoro started at ").concat(start_time)
    }

    /// The line of a session in a list, from its start as text.
    pub fn list_entry(&self, start_time: &str, pomodoro: &Pomodoro) -> (line: String)
        ensures
            line@ == "["@ + start_time@ + "]: "@ + pomodoro.status.name() + " ("@ + pomodoro.tags@
                + ")\n"@,
    {
        let mut line = String::from_str("[");
        line.append(start_time);
        line.append("]: ");
        line.append(pomodoro.status.to_string().as_str());
        line.append(" (");
        line.append(pomodoro.tags.as_str());
        line.append(")\n");
        line
    }

    /// The response to `STOP`.
    pub fn handle_stop(&self) -> (response: String)
        ensures
            response@ == stop_text(),
    {
        String::from_str("Pomodoro aborted")
    }

    /// The response to `LIST`, for the sessions that the repository gave.
    pub fn handle_list(&self, pomodoros: &Vec<Pomodoro>) -> (response: String)
        requires
            forall|i: int| 0 <= i < pomodoros.len() ==> #[trigger] pomodoros[i].work_start_time.in_range(),
        ensures
            response@ == list_text(views(pomodoros@)),
    {
        let mut response = String::new();
        let mut i: usize = 0;
        while i < pomodoros.len()
            invariant
                i <= pomodoros.len(),
                forall|i: int| 0 <= i < pomodoros.len() ==> #[trigger] pomodoros[i].work_start_time.in_range(),
                response@ == list_text(views(pomodoros@).take(i as int)),
            decreases pomodoros.len() - i,
        {
            let pomodoro = &pomodoros[i];
            let ghost before = response@;
            let line = self.list_entry(pomodoro.work_start_time.format().as_str(), pomodoro);
            response.append(line.as_str());
            proof {
                let all = views(pomodoros@);
                assert(all.take(i + 1).drop_last() =~= all.take(i as int));
                assert(all.take(i + 1).last() == pomodoro@);
                assert(response@ =~= before + list_line(pomodoro@));
            }
            i += 1;
        }
        assert(views(pomodoros@).take(i as int) =~= views(pomodoros@));
        response
    }

    /// The response to `STATUS`, for the most recent session.
    pub fn handle_status(&self, now: Instant, pomodoro: &Pomodoro) -> (response: String)
        ensures
            response@ == status_text(pomodoro@, now),
    {
        let work_left: i128 = pomodoro.work_start_time.secs as i128
            + pomodoro.work_length.secs as i128 - now.secs as i128;
        let break_left: i128 = match pomodoro.break_start_time {
            Some(start) => start.secs as i128 + pomodoro.break_length.secs as i128
                - now.secs as i128,
            None => pomodoro.break_length.secs as i128,
        };
        let bytes = status_bytes(work_left, break_left);
        proof {
            status_bytes_are_ascii(work_left as int, break_left as int);
            assert(bytes@.subrange(0, bytes.len() as int) =~= bytes@);
        }
        ascii_string(bytes.as_slice(), 0, bytes.len())
    }
}

/// What is left of work and of break, as `MM:SS | MM:SS`.
fn status_bytes(work_left: i128, break_left: i128) -> (bytes: Vec<u8>)
    requires
        -0x2_0000_0000_0000_0000 <= work_left <= 0x2_0000_0000_0000_0000,
        -0x2_0000_0000_0000_0000 <= break_left <= 0x2_0000_0000_0000_0000,
    ensures
        bytes@ == minutes_and_seconds(work_left as int) + BETWEEN@ + minutes_and_seconds(
            break_left as int,
        ),
{
    let mut bytes: Vec<u8> = Vec::new();
    push_minutes_and_seconds(&mut bytes, work_left);
    let ghost work = bytes@;
    assert(work =~= minutes_and_seconds(work_left as int));
    bytes.push(0x20);
    bytes.push(0x7c);
    bytes.push(0x20);
    let ghost head = bytes@;
    assert(head =~= work + BETWEEN@);
    push_minutes_and_seconds(&mut bytes, break_left);
    bytes
}

/// Two runs of ASCII bytes, one after the other, are ASCII.
proof fn ascii_bytes_concat(a: Seq<u8>, b: Seq<u8>)
    requires
        is_ascii_bytes(a),
        is_ascii_bytes(b),
    ensures
        is_ascii_bytes(a + b),
{
    assert forall|i: int| 0 <= i < (a + b).len() implies #[trigger] (a + b)[i] < 0x80 by {
        if i < a.len() {
            assert((a + b)[i] == a[i]);
        } else {
            assert((a + b)[i] == b[i - a.len()]);
        }
    }
}

/// A status is ASCII.
proof fn status_bytes_are_ascii(work_left: int, break_left: int)
    ensures
        is_ascii_bytes(
            minutes_and_seconds(work_left) + BETWEEN@ + minutes_and_seconds(break_left),
        ),
{
    minutes_and_seconds_are_ascii(work_left);
    minutes_and_seconds_are_ascii(break_left);
    assert(is_ascii_bytes(BETWEEN@));
    ascii_bytes_concat(minutes_and_seconds(work_left), BETWEEN@);
    ascii_bytes_concat(
        minutes_and_seconds(work_left) + BETWEEN@,
        minutes_and_seconds(break_left),
    );
}

/// A span as `MM:SS` is ASCII.
pub proof fn minutes_and_seconds_are_ascii(secs: int)
    ensures
        is_ascii_bytes(minutes_and_seconds(secs)),
{
    let minutes = secs / 60;
    let seconds = (secs % 60) as nat;
    two_digits_are_ascii(seconds);
    let colon = seq![0x3au8];
    assert(is_ascii_bytes(colon));
    if minutes < 0 {
        let sign = seq![0x2du8];
        assert(is_ascii_bytes(sign));
        two_digits_are_ascii((-minutes) as nat);
        ascii_bytes_concat(sign, two_digits((-minutes) as nat));
        ascii_bytes_concat(sign + two_digits((-minutes) as nat), colon);
        ascii_bytes_concat(sign + two_digits((-minutes) as nat) + colon, two_digits(seconds));
    } else {
        two_digits_are_ascii(minutes as nat);
        ascii_bytes_concat(two_digits(minutes as nat), colon);
        ascii_bytes_concat(two_digits(minutes as nat) + colon, two_digits(seconds));
    }
}

/// Two digits are ASCII.
proof fn two_digits_are_ascii(n: nat)
    ensures
        is_ascii_bytes(two_digits(n)),
{
    decimal_digits_are_ascii(n);
    if n < 10 {
        let zero = seq![0x30u8];
        assert(is_ascii_bytes(zero));
        ascii_bytes_concat(zero, decimal_digits(n));
    }
}

} // verus!
