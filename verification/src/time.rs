//! Instants and durations, counted in whole seconds.

use vstd::prelude::*;

verus! {

/// Timestamp of 0000-01-01 00:00:00 UTC, the earliest instant that is rendered.
pub const MIN_TIMESTAMP: i64 = -62_167_219_200;

/// Timestamp of 9999-12-31 23:59:59 UTC, the latest instant that is rendered.
pub const MAX_TIMESTAMP: i64 = 253_402_300_799;

/// A span of time in whole seconds.
#[derive(Clone, Copy, Debug, PartialEq, Eq, Structural)]
pub struct Duration {
    pub secs: i64,
}

impl Duration {
    /// A duration of `secs` seconds.
    pub fn seconds(secs: i64) -> (d: Duration)
        ensures
            d.secs == secs,
    {
        Duration { secs }
    }

    /// The length of the duration in seconds.
    pub fn num_seconds(&self) -> (secs: i64)
        ensures
            secs == self.secs,
    {
        self.secs
    }
}

/// A point in time: whole seconds since 1970-01-01 00:00:00 UTC.
#[derive(Clone, Copy, Debug, PartialEq, Eq, Structural)]
pub struct Instant {
    pub secs: i64,
}

/// The text `YYYY-MM-DD HH:MM:SS` that chrono gives for the instant `secs`
/// seconds after the epoch, in UTC.
pub uninterp spec fn formatted_instant(secs: int) -> Seq<char>;

/// Renders a timestamp with chrono: `DateTime::from_timestamp`, then
/// `format("%F %H:%M:%S")`. Trusted: the result is a function of the
/// timestamp alone. `from_timestamp` gives `Some` for every year from 0000 to
/// 9999, which is all that `requires` admits.
#[verifier::external_body]
fn chrono_format(secs: i64) -> (text: String)
    requires
        MIN_TIMESTAMP <= secs <= MAX_TIMESTAMP,
    ensures
        text@ == formatted_instant(secs as int),
{
    chrono::DateTime::from_timestamp(secs, 0).unwrap().format("%F %H:%M:%S").to_string()
}

/// Reads the wall clock with chrono: `Utc::now()`, as a timestamp. Trusted;
/// nothing is claimed of the value.
#[verifier::external_body]
fn chrono_now() -> (secs: i64) {
    chrono::Utc::now().timestamp()
}

impl Instant {
    /// True for the instants of the years 0000 to 9999.
    pub open spec fn in_range(self) -> bool {
        MIN_TIMESTAMP <= self.secs <= MAX_TIMESTAMP
    }

    /// The instant `secs` seconds after the epoch.
    pub fn from_timestamp(secs: i64) -> (t: Instant)
        ensures
            t.secs == secs,
    {
        Instant { secs }
    }

    /// Seconds since the epoch.
    pub fn timestamp(&self) -> (secs: i64)
        ensures
            secs == self.secs,
    {
        self.secs
    }

    /// The current time of the system clock.
    pub fn now() -> Instant {
        Instant { secs: chrono_now() }
    }

    /// Whether the instant lies in the years 0000 to 9999.
    pub fn is_in_range(&self) -> (b: bool)
        ensures
            b == self.in_range(),
    {
        MIN_TIMESTAMP <= self.secs && self.secs <= MAX_TIMESTAMP
    }

    /// The instant as `YYYY-MM-DD HH:MM:SS`, in UTC.
    pub fn format(&self) -> (text: String)
        requires
            self.in_range(),
        ensures
            text@ == formatted_instant(self.secs as int),
    {
        chrono_format(self.secs)
    }
}

} // verus!
