//! The commands of the daemon and their grammar.
//!
//! ```text
//! START [ tags <word>{,<word>}] [ <work seconds> <break seconds>]
//! STOP
//! LIST
//! STATUS
//! ```
//!
//! A request is read as the bytes of its UTF-8 encoding. `START` need only
//! begin the request: what follows the parts that are recognised is ignored.
//! The other three commands are the whole request.

use crate::result::Error;
use crate::text::{ascii_string, ascii_text};
use crate::time::{Duration, Instant};
use vstd::prelude::*;
use vstd::utf8::encode_utf8;

verus! {

/// The bytes of `START`.
pub const START: [u8; 5] = [0x53, 0x54, 0x41, 0x52, 0x54];

/// The bytes of ` tags `, with the space before and after.
pub const TAGS: [u8; 6] = [0x20, 0x74, 0x61, 0x67, 0x73, 0x20];

/// The bytes of `STOP`.
pub const STOP: [u8; 4] = [0x53, 0x54, 0x4f, 0x50];

/// The bytes of `LIST`.
pub const LIST: [u8; 4] = [0x4c, 0x49, 0x53, 0x54];

/// The bytes of `STATUS`.
pub const STATUS: [u8; 6] = [0x53, 0x54, 0x41, 0x54, 0x55, 0x53];

/// The space that separates the parts of a command.
pub const SPACE: u8 = 0x20;

/// The comma that separates tags.
pub const COMMA: u8 = 0x2c;

/// Seconds of work where the command names none.
pub const DEFAULT_WORK_SECONDS: i64 = 1500;

/// Seconds of break where the command names none.
pub const DEFAULT_BREAK_SECONDS: i64 = 300;

/// A request, parsed.
#[derive(Debug, PartialEq, Eq)]
pub enum Command {
    /// Start a session at the given time, with the lengths of work and break
    /// and the tags.
    Start(Instant, Duration, Duration, Vec<String>),
    Stop,
    List,
    Status,
}

/// A command as specifications see it: each tag is its characters.
pub enum CommandView {
    Start(Instant, Duration, Duration, Seq<Seq<char>>),
    Stop,
    List,
    Status,
}

/// The characters of each string.
pub open spec fn texts(strings: Seq<String>) -> Seq<Seq<char>> {
    Seq::new(strings.len(), |i: int| strings[i]@)
}

impl View for Command {
    type V = CommandView;

    open spec fn view(&self) -> CommandView {
        match self {
            Command::Start(at, work, rest, tags) => CommandView::Start(
                *at,
                *work,
                *rest,
                texts(tags@),
            ),
            Command::Stop => CommandView::Stop,
            Command::List => CommandView::List,
            Command::Status => CommandView::Status,
        }
    }
}

/// A letter, a digit or the underscore.
pub open spec fn is_word_byte(b: u8) -> bool {
    (0x30 <= b <= 0x39) || (0x41 <= b <= 0x5a) || b == 0x5f || (0x61 <= b <= 0x7a)
}

/// A decimal digit.
pub open spec fn is_digit_byte(b: u8) -> bool {
    0x30 <= b <= 0x39
}

/// How many word bytes follow one another from `from` on.
pub open spec fn word_run(s: Seq<u8>, from: int) -> int
    decreases s.len() - from,
{
    if 0 <= from < s.len() && is_word_byte(s[from]) {
        1 + word_run(s, from + 1)
    } else {
        0
    }
}

/// How many digits follow one another from `from` on.
pub open spec fn digit_run(s: Seq<u8>, from: int) -> int
    decreases s.len() - from,
{
    if 0 <= from < s.len() && is_digit_byte(s[from]) {
        1 + digit_run(s, from + 1)
    } else {
        0
    }
}

/// `s` holds `word` at `at`.
pub open spec fn has_at(s: Seq<u8>, at: int, word: Seq<u8>) -> bool {
    0 <= at && at + word.len() <= s.len() && s.subrange(at, at + word.len()) == word
}

/// A comma at `at`, and a word right after it.
pub open spec fn has_next_tag(s: Seq<u8>, at: int) -> bool {
    0 <= at < s.len() && s[at] == COMMA && word_run(s, at + 1) > 0
}

/// The tags of the list that begins at `from`: the word there, and the words
/// that each follow a comma.
pub open spec fn tag_list(s: Seq<u8>, from: int) -> Seq<Seq<char>>
    decreases s.len() - from,
{
    let end = from + word_run(s, from);
    let tag = ascii_text(s.subrange(from, end));
    if word_run(s, from) > 0 && has_next_tag(s, end) {
        seq![tag] + tag_list(s, end + 1)
    } else {
        seq![tag]
    }
}

/// Where the list of tags that begins at `from` ends.
pub open spec fn tag_list_end(s: Seq<u8>, from: int) -> int
    decreases s.len() - from,
{
    let end = from + word_run(s, from);
    if word_run(s, from) > 0 && has_next_tag(s, end) {
        tag_list_end(s, end + 1)
    } else {
        end
    }
}

/// The number that decimal digits spell.
pub open spec fn decimal_value(digits: Seq<u8>) -> nat
    decreases digits.len(),
{
    if digits.len() == 0 {
        0
    } else {
        decimal_value(digits.drop_last()) * 10 + (digits.last() - 0x30) as nat
    }
}

/// The seconds that digits spell, or `default` where the number is too large
/// to count.
pub open spec fn seconds_or(digits: Seq<u8>, default: i64) -> Duration {
    if decimal_value(digits) <= i64::MAX {
        Duration { secs: decimal_value(digits) as i64 }
    } else {
        Duration { secs: default }
    }
}

/// A request that begins with `START` names tags: ` tags ` follows, and then
/// a word.
pub open spec fn names_tags(s: Seq<u8>) -> bool {
    has_at(s, 5, TAGS@) && word_run(s, 11) > 0
}

/// Where the durations of a request that begins with `START` would begin:
/// after the tags, or after `START` where there are none.
pub open spec fn durations_start(s: Seq<u8>) -> int {
    if names_tags(s) {
        tag_list_end(s, 11)
    } else {
        5
    }
}

/// A request that begins with `START` names durations: a space, digits, a
/// space and digits follow the tags.
pub open spec fn names_durations(s: Seq<u8>) -> bool {
    let at = durations_start(s);
    let work = digit_run(s, at + 1);
    &&& at < s.len()
    &&& s[at] == SPACE
    &&& work > 0
    &&& at + 1 + work < s.len()
    &&& s[at + 1 + work] == SPACE
    &&& digit_run(s, at + 2 + work) > 0
}

/// The command that a request beginning with `START` stands for.
pub open spec fn parse_start(s: Seq<u8>, now: Instant) -> CommandView {
    let tags = if names_tags(s) {
        tag_list(s, 11)
    } else {
        Seq::empty()
    };
    if names_durations(s) {
        let at = durations_start(s);
        let work = digit_run(s, at + 1);
        let rest = digit_run(s, at + 2 + work);
        CommandView::Start(
            now,
            seconds_or(s.subrange(at + 1, at + 1 + work), DEFAULT_WORK_SECONDS),
            seconds_or(s.subrange(at + 2 + work, at + 2 + work + rest), DEFAULT_BREAK_SECONDS),
            tags,
        )
    } else {
        CommandView::Start(
            now,
            Duration { secs: DEFAULT_WORK_SECONDS },
            Duration { secs: DEFAULT_BREAK_SECONDS },
            tags,
        )
    }
}

/// The command that the bytes of a request stand for, if any.
pub open spec fn parse(s: Seq<u8>, now: Instant) -> Option<CommandView> {
    if has_at(s, 0, START@) {
        Some(parse_start(s, now))
    } else if s == STOP@ {
        Some(CommandView::Stop)
    } else if s == LIST@ {
        Some(CommandView::List)
    } else if s == STATUS@ {
        Some(CommandView::Status)
    } else {
        None
    }
}

/// A run of word bytes is empty exactly where no word byte stands.
pub proof fn word_run_is_positive_at_a_word(s: Seq<u8>, from: int)
    ensures
        word_run(s, from) >= 0,
        word_run(s, from) > 0 <==> (0 <= from < s.len() && is_word_byte(s[from])),
    decreases s.len() - from,
{
    if 0 <= from < s.len() && is_word_byte(s[from]) {
        word_run_is_positive_at_a_word(s, from + 1);
    }
}

/// A label: one or more letters, digits and underscores.
pub open spec fn is_label(tag: Seq<char>) -> bool {
    &&& tag.len() > 0
    &&& forall|i: int| 0 <= i < tag.len() ==> #[trigger] tag[i] as u32 <= 0x7f && is_word_byte(
        tag[i] as u8,
    )
}

/// The bytes of a run of word bytes are word bytes.
pub proof fn word_run_holds_words(s: Seq<u8>, from: int)
    requires
        0 <= from,
    ensures
        from + word_run(s, from) <= s.len() || word_run(s, from) == 0,
        forall|i: int| from <= i < from + word_run(s, from) ==> is_word_byte(#[trigger] s[i]),
    decreases s.len() - from,
{
    if from < s.len() && is_word_byte(s[from]) {
        word_run_holds_words(s, from + 1);
    }
}

/// Every tag that a command names is a label.
pub proof fn tags_are_labels(s: Seq<u8>, from: int)
    requires
        0 <= from,
        word_run(s, from) > 0,
    ensures
        tag_list(s, from).len() >= 1,
        forall|i: int| 0 <= i < tag_list(s, from).len() ==> is_label(#[trigger] tag_list(s, from)[i]),
    decreases s.len() - from,
{
    let end = from + word_run(s, from);
    let tag = ascii_text(s.subrange(from, end));
    word_run_holds_words(s, from);
    assert(is_label(tag)) by {
        assert forall|i: int| 0 <= i < tag.len() implies #[trigger] tag[i] as u32 <= 0x7f
            && is_word_byte(tag[i] as u8) by {
            assert(is_word_byte(s[from + i]));
            assert(tag[i] == s.subrange(from, end)[i] as char);
        }
    }
    if has_next_tag(s, end) {
        tags_are_labels(s, end + 1);
        let rest = tag_list(s, end + 1);
        assert forall|i: int| 0 <= i < tag_list(s, from).len() implies is_label(
            #[trigger] tag_list(s, from)[i],
        ) by {
            if i > 0 {
                assert(tag_list(s, from)[i] == rest[i - 1]);
            }
        }
    }
}

fn is_word(b: u8) -> (r: bool)
    ensures
        r == is_word_byte(b),
{
    (0x30 <= b && b <= 0x39) || (0x41 <= b && b <= 0x5a) || b == 0x5f || (0x61 <= b && b <= 0x7a)
}

fn is_digit(b: u8) -> (r: bool)
    ensures
        r == is_digit_byte(b),
{
    0x30 <= b && b <= 0x39
}

/// Whether `bytes` holds `word` at `at`.
fn holds_at(bytes: &[u8], at: usize, word: &[u8]) -> (r: bool)
    ensures
        r == has_at(bytes@, at as int, word@),
{
    if at > bytes.len() || word.len() > bytes.len() - at {
        return false;
    }
    let mut i: usize = 0;
    while i < word.len()
        invariant
            i <= word.len(),
            at + word.len() <= bytes.len(),
            forall|j: int| 0 <= j < i ==> bytes@[at + j] == word@[j],
        decreases word.len() - i,
    {
        if bytes[at + i] != word[i] {
            assert(bytes@.subrange(at as int, at + word.len())[i as int] != word@[i as int]);
            return false;
        }
        i += 1;
    }
    assert(bytes@.subrange(at as int, at + word.len()) =~= word@);
    true
}

/// Whether `bytes` is `word`.
fn is_keyword(bytes: &[u8], word: &[u8]) -> (r: bool)
    ensures
        r == (bytes@ == word@),
{
    let r = bytes.len() == word.len() && holds_at(bytes, 0, word);
    proof {
        if bytes.len() == word.len() {
            assert(bytes@.subrange(0, bytes.len() as int) =~= bytes@);
        }
    }
    r
}

/// The end of the run of word bytes that begins at `from`.
fn scan_word(bytes: &[u8], from: usize) -> (end: usize)
    requires
        from <= bytes.len(),
    ensures
        end == from + word_run(bytes@, from as int),
        from <= end <= bytes.len(),
        forall|j: int| from <= j < end ==> is_word_byte(#[trigger] bytes@[j]),
{
    let mut i: usize = from;
    while i < bytes.len() && is_word(bytes[i])
        invariant
            from <= i <= bytes.len(),
            word_run(bytes@, from as int) == (i - from) + word_run(bytes@, i as int),
            forall|j: int| from <= j < i ==> is_word_byte(#[trigger] bytes@[j]),
        decreases bytes.len() - i,
    {
        i += 1;
    }
    i
}

/// The end of the run of digits that begins at `from`.
fn scan_digits(bytes: &[u8], from: usize) -> (end: usize)
    requires
        from <= bytes.len(),
    ensures
        end == from + digit_run(bytes@, from as int),
        from <= end <= bytes.len(),
        forall|j: int| from <= j < end ==> is_digit_byte(#[trigger] bytes@[j]),
{
    let mut i: usize = from;
    while i < bytes.len() && is_digit(bytes[i])
        invariant
            from <= i <= bytes.len(),
            digit_run(bytes@, from as int) == (i - from) + digit_run(bytes@, i as int),
            forall|j: int| from <= j < i ==> is_digit_byte(#[trigger] bytes@[j]),
        decreases bytes.len() - i,
    {
        i += 1;
    }
    i
}

/// The seconds that the digits `bytes[from..to]` spell, or `default`.
fn read_seconds(bytes: &[u8], from: usize, to: usize, default: i64) -> (d: Duration)
    requires
        from <= to <= bytes.len(),
        forall|j: int| from <= j < to ==> is_digit_byte(#[trigger] bytes@[j]),
    ensures
        d == seconds_or(bytes@.subrange(from as int, to as int), default),
{
    let mut value: i64 = 0;
    let mut fits = true;
    let mut i: usize = from;
    while i < to
        invariant
            from <= i <= to <= bytes.len(),
            forall|j: int| from <= j < to ==> is_digit_byte(#[trigger] bytes@[j]),
            0 <= value,
            fits ==> value == decimal_value(bytes@.subrange(from as int, i as int)),
            !fits ==> decimal_value(bytes@.subrange(from as int, i as int)) > i64::MAX,
        decreases to - i,
    {
        let ghost before = bytes@.subrange(from as int, i as int);
        let ghost after = bytes@.subrange(from as int, i + 1);
        proof {
            assert(after.drop_last() =~= before);
            assert(after.last() == bytes@[i as int]);
            assert(is_digit_byte(bytes@[i as int]));
        }
        if fits {
            let digit: i64 = (bytes[i] - 0x30) as i64;
            match value.checked_mul(10) {
                Some(tens) => match tens.checked_add(digit) {
                    Some(sum) => {
                        value = sum;
                    },
                    None => {
                        fits = false;
                    },
                },
                None => {
                    fits = false;
                },
            }
        }
        i += 1;
    }
    if fits {
        Duration { secs: value }
    } else {
        Duration { secs: default }
    }
}

/// The tags of the list that begins at `from`, and where the list ends.
fn read_tags(bytes: &[u8], from: usize) -> (r: (Vec<String>, usize))
    requires
        from <= bytes.len(),
        word_run(bytes@, from as int) > 0,
    ensures
        texts(r.0@) == tag_list(bytes@, from as int),
        r.1 == tag_list_end(bytes@, from as int),
        r.1 <= bytes.len(),
{
    let mut tags: Vec<String> = Vec::new();
    let mut pos: usize = from;
    loop
        invariant
            pos <= bytes.len(),
            word_run(bytes@, pos as int) > 0,
            tag_list(bytes@, from as int) == texts(tags@) + tag_list(bytes@, pos as int),
            tag_list_end(bytes@, from as int) == tag_list_end(bytes@, pos as int),
        decreases bytes.len() - pos,
    {
        let end = scan_word(bytes, pos);
        proof {
            assert forall|j: int| 0 <= j < end - pos implies #[trigger] bytes@.subrange(
                pos as int,
                end as int,
            )[j] < 0x80 by {
                assert(is_word_byte(bytes@[pos + j]));
            }
        }
        let tag = ascii_string(bytes, pos, end);
        let ghost earlier = tags@;
        tags.push(tag);
        assert(texts(tags@) =~= texts(earlier) + seq![tag@]);
        let more = end < bytes.len() && bytes[end] == COMMA && end + 1 < bytes.len() && is_word(
            bytes[end + 1],
        );
        proof {
            word_run_is_positive_at_a_word(bytes@, end + 1);
        }
        if more {
            pos = end + 1;
        } else {
            return (tags, end);
        }
    }
}

impl Command {
    /// Reads a command from the bytes of a request. `current_time` becomes
    /// the start time of a `Start`.
    pub fn from_bytes(current_time: Instant, bytes: &[u8]) -> (command: Option<Command>)
        ensures
            match command {
                Some(c) => parse(bytes@, current_time) == Some(c@),
                None => parse(bytes@, current_time) is None,
            },
    {
        if holds_at(bytes, 0, START.as_slice()) {
            let mut tags: Vec<String> = Vec::new();
            let mut at: usize = 5;
            proof {
                word_run_is_positive_at_a_word(bytes@, 11);
            }
            if holds_at(bytes, 5, TAGS.as_slice()) && 11 < bytes.len() && is_word(bytes[11]) {
                let (found, end) = read_tags(bytes, 11);
                tags = found;
                at = end;
            }
            assert(texts(tags@) =~= (if names_tags(bytes@) {
                tag_list(bytes@, 11)
            } else {
                Seq::empty()
            }));
            assert(at == durations_start(bytes@));
            let mut work = Duration { secs: DEFAULT_WORK_SECONDS };
            let mut rest = Duration { secs: DEFAULT_BREAK_SECONDS };
            if at < bytes.len() && bytes[at] == SPACE {
                let work_end = scan_digits(bytes, at + 1);
                if work_end > at + 1 && work_end < bytes.len() && bytes[work_end] == SPACE {
                    let rest_end = scan_digits(bytes, work_end + 1);
                    if rest_end > work_end + 1 {
                        work = read_seconds(bytes, at + 1, work_end, DEFAULT_WORK_SECONDS);
                        rest = read_seconds(bytes, work_end + 1, rest_end, DEFAULT_BREAK_SECONDS);
                    }
                }
            }
            Some(Command::Start(current_time, work, rest, tags))
        } else if is_keyword(bytes, STOP.as_slice()) {
            Some(Command::Stop)
        } else if is_keyword(bytes, LIST.as_slice()) {
            Some(Command::List)
        } else if is_keyword(bytes, STATUS.as_slice()) {
            Some(Command::Status)
        } else {
            None
        }
    }

    /// Reads a command from a request. A request that matches no command is
    /// handed back in the error.
    pub fn from_string(current_time: Instant, string: String) -> (r: Result<Command, Error>)
        ensures
            match r {
                Ok(command) => parse(encode_utf8(string@), current_time) == Some(command@),
                Err(e) => {
                    &&& parse(encode_utf8(string@), current_time) is None
                    &&& e matches Error::InvalidCommand(request)
                    &&& request@ == string@
                },
            },
    {
        let parsed = Command::from_bytes(current_time, string.as_str().as_bytes());
        match parsed {
            Some(command) => Ok(command),
            None => Err(Error::InvalidCommand(string)),
        }
    }
}

} // verus!
