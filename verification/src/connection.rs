//! A request as it arrives on a connection, and the reply that goes back.

use crate::clock::Clock;
use crate::command::{parse, Command, CommandView};
use crate::command_processor::{outcome, CommandProcessor};
use crate::pomodoro::PomodoroView;
use crate::pomodoros::Pomodoros;
use crate::result::Error;
use crate::text::{copy_range, string_from_utf8};
use crate::time::Instant;
use vstd::prelude::*;
use vstd::string::StringExecFns;
use vstd::utf8::{decode_utf8, encode_utf8, valid_utf8};

verus! {

/// The most bytes that a request has. What a connection sends beyond them is
/// not read.
pub const MAX_REQUEST_BYTES: usize = 1024;

/// The bytes of `received` before the first zero byte, at most `limit` of
/// them.
pub open spec fn framed(received: Seq<u8>, limit: int) -> Seq<u8>
    decreases received.len(),
{
    if received.len() == 0 || limit <= 0 || received[0] == 0 {
        Seq::empty()
    } else {
        seq![received[0]] + framed(received.drop_first(), limit - 1)
    }
}

/// The request that the received bytes hold: the first 1024 of them, up to
/// the first zero byte.
pub open spec fn request_bytes(received: Seq<u8>) -> Seq<u8> {
    framed(received, MAX_REQUEST_BYTES as int)
}

/// What lies beyond the first 1024 bytes does not count: two sequences that
/// agree on them hold the same request.
pub proof fn request_ends_at_the_limit(a: Seq<u8>, b: Seq<u8>)
    requires
        a.len() >= MAX_REQUEST_BYTES,
        b.len() >= MAX_REQUEST_BYTES,
        a.take(MAX_REQUEST_BYTES as int) == b.take(MAX_REQUEST_BYTES as int),
    ensures
        request_bytes(a) == request_bytes(b),
        request_bytes(a) == request_bytes(a.take(MAX_REQUEST_BYTES as int)),
{
    frame_of_the_beginning(a, MAX_REQUEST_BYTES as int);
    frame_of_the_beginning(b, MAX_REQUEST_BYTES as int);
}

/// The frame of a sequence is the frame of its first `limit` bytes.
pub proof fn frame_of_the_beginning(received: Seq<u8>, limit: int)
    requires
        0 <= limit <= received.len(),
    ensures
        framed(received, limit) == framed(received.take(limit), limit),
    decreases received.len(),
{
    if received.len() == 0 || limit <= 0 || received[0] == 0 {
    } else {
        frame_of_the_beginning(received.drop_first(), limit - 1);
        assert(received.take(limit).drop_first() =~= received.drop_first().take(limit - 1));
    }
}

/// The text of a request: its bytes read as UTF-8.
pub fn read_request(received: &[u8]) -> (r: Result<String, Error>)
    ensures
        match r {
            Ok(text) => valid_utf8(request_bytes(received@)) && text@ == decode_utf8(
                request_bytes(received@),
            ),
            Err(e) => !valid_utf8(request_bytes(received@)) && e is CommandDecodeError,
        },
{
    let mut end: usize = 0;
    while end < received.len() && end < MAX_REQUEST_BYTES && received[end] != 0
        invariant
            end <= received.len(),
            end <= MAX_REQUEST_BYTES,
            forall|i: int| 0 <= i < end ==> #[trigger] received@[i] != 0,
        decreases received.len() - end,
    {
        end += 1;
    }
    proof {
        frame_ends_here(received@, MAX_REQUEST_BYTES as int, end as int);
    }
    let bytes = copy_range(received, 0, end);
    match string_from_utf8(bytes) {
        Some(text) => Ok(text),
        None => Err(Error::CommandDecodeError),
    }
}

/// Where the bytes before `end` are not zero, and `end` is the limit, the
/// end of the sequence or the place of a zero byte, the frame is the bytes
/// before `end`.
pub proof fn frame_ends_here(received: Seq<u8>, limit: int, end: int)
    requires
        0 <= end <= received.len(),
        end <= limit,
        forall|i: int| 0 <= i < end ==> #[trigger] received[i] != 0,
        end == received.len() || end == limit || received[end] == 0,
    ensures
        framed(received, limit) == received.subrange(0, end),
    decreases received.len(),
{
    if received.len() == 0 || limit <= 0 || received[0] == 0 {
        assert(end == 0);
        assert(received.subrange(0, 0) =~= Seq::<u8>::empty());
    } else if end == 0 {
        assert(false);
    } else {
        let rest = received.drop_first();
        assert forall|i: int| 0 <= i < end - 1 implies #[trigger] rest[i] != 0 by {
            assert(received[i + 1] != 0);
        }
        frame_ends_here(rest, limit - 1, end - 1);
        assert(seq![received[0]] + rest.subrange(0, end - 1) =~= received.subrange(0, end));
    }
}

/// What goes back over a connection, and the error behind it, for the log.
#[derive(Debug)]
pub struct Reply {
    pub response: String,
    pub error: Option<Error>,
}

/// The answer for a command that came to nothing.
pub open spec fn failure_text(command: CommandView) -> Seq<char> {
    match command {
        CommandView::Start(_, _, _, _) => "Failed to start pomodoro."@,
        CommandView::Stop => "Failed to abort pomodoro"@,
        CommandView::List => "Unable to list pomodoros"@,
        CommandView::Status => "No pomodoro to get the status of."@,
    }
}

/// What a request turns into: the reply `reply` and the sessions `after`,
/// from the request bytes and the sessions `before`, where the request is
/// read at `arrived` and carried out at `now`.
///
/// A request that is not UTF-8 or matches no command changes nothing and is
/// answered with the text of the error. A command that fails is answered
/// with the sentence for its kind. Else the answer is that of the command.
pub open spec fn served(
    before: Seq<PomodoroView>,
    reliable: bool,
    arrived: Instant,
    now: Instant,
    received: Seq<u8>,
    after: Seq<PomodoroView>,
    reply: Reply,
) -> bool {
    let request = request_bytes(received);
    if !valid_utf8(request) {
        &&& after == before
        &&& reply.error matches Some(e)
        &&& e is CommandDecodeError
        &&& reply.response@ == e.message()
    } else {
        match parse(request, arrived) {
            None => {
                &&& after == before
                &&& reply.error matches Some(e)
                &&& e matches Error::InvalidCommand(text)
                &&& text@ == decode_utf8(request)
                &&& reply.response@ == e.message()
            },
            Some(command) => match reply.error {
                Some(e) => {
                    &&& outcome(before, reliable, now, command, after, Err(e))
                    &&& reply.response@ == failure_text(command)
                },
                None => exists|text: String| #[trigger]
                    outcome(before, reliable, now, command, after, Ok(text)) && text@
                        == reply.response@,
            },
        }
    }
}

/// The answer for a command that came to nothing.
fn failure_response(command: &Command) -> (text: String)
    ensures
        text@ == failure_text(command@),
{
    match command {
        Command::Start(_, _, _, _) => String::from_str("Failed to start pomodoro."),
        Command::Stop => String::from_str("Failed to abort pomodoro"),
        Command::List => String::from_str("Unable to list pomodoros"),
        Command::Status => String::from_str("No pomodoro to get the status of."),
    }
}

/// Serves what a connection sent: reads the request, carries the command out
/// and gives the reply. `arrived` is the time at which the request is read;
/// a session that it starts, starts then.
pub fn handle_request<C: Clock, P: Pomodoros>(
    processor: &mut CommandProcessor<C, P>,
    arrived: Instant,
    received: &[u8],
) -> (reply: Reply)
    ensures
        final(processor).pomodoros.reliable() == old(processor).pomodoros.reliable(),
        exists|now: Instant| #[trigger]
            served(
                old(processor).pomodoros.sessions(),
                old(processor).pomodoros.reliable(),
                arrived,
                now,
                received@,
                final(processor).pomodoros.sessions(),
                reply,
            ),
{
    let now = processor.clock.current_time();
    let reply = handle_request_at(processor, arrived, now, received);
    assert(served(
        old(processor).pomodoros.sessions(),
        old(processor).pomodoros.reliable(),
        arrived,
        now,
        received@,
        processor.pomodoros.sessions(),
        reply,
    ));
    reply
}

/// Serves what a connection sent, with the command carried out at the time
/// `now`.
pub fn handle_request_at<C: Clock, P: Pomodoros>(
    processor: &mut CommandProcessor<C, P>,
    arrived: Instant,
    now: Instant,
    received: &[u8],
) -> (reply: Reply)
    ensures
        final(processor).pomodoros.reliable() == old(processor).pomodoros.reliable(),
        served(
            old(processor).pomodoros.sessions(),
            old(processor).pomodoros.reliable(),
            arrived,
            now,
            received@,
            final(processor).pomodoros.sessions(),
            reply,
        ),
{
    let message = match read_request(received) {
        Ok(message) => message,
        Err(e) => {
            return Reply { response: e.to_string(), error: Some(e) };
        },
    };
    proof {
        vstd::utf8::decode_utf8_encode_utf8(request_bytes(received@));
    }
    let command = match Command::from_string(arrived, message) {
        Ok(command) => command,
        Err(e) => {
            return Reply { response: e.to_string(), error: Some(e) };
        },
    };
    let failure = failure_response(&command);
    let ghost asked = command@;
    match processor.handle_command_at(now, command) {
        Ok(response) => {
            let reply = Reply { response, error: None };
            assert(outcome(
                old(processor).pomodoros.sessions(),
                old(processor).pomodoros.reliable(),
                now,
                asked,
                processor.pomodoros.sessions(),
                Ok(response),
            ));
            reply
        },
        Err(e) => Reply { response: failure, error: Some(e) },
    }
}

} // verus!
