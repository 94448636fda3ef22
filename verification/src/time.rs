//! Instants and spans of time as plain integers.

use vstd::prelude::*;

verus! {

/// One second, counted in nanoseconds.
pub const NANOS_PER_SECOND: u32 = 1_000_000_000;

/// An absolute instant: whole seconds since the Unix epoch and the nanoseconds
/// into that second. Instants are ordered by seconds first, then by
/// nanoseconds.
#[derive(Clone, Copy, Debug, PartialEq, Eq, Structural)]
pub struct Timestamp {
    pub seconds: i64,
    pub nanos: u32,
}

/// A signed length of time: `seconds + nanos / 10^9` seconds.
#[derive(Clone, Copy, Debug, PartialEq, Eq, Structural)]
pub struct TimeSpan {
    pub seconds: i64,
    pub nanos: u32,
}

impl Timestamp {
    /// `self` lies strictly before `other`.
    pub open spec fn before(self, other: Timestamp) -> bool {
        self.seconds < other.seconds || (self.seconds == other.seconds && self.nanos
            < other.nanos)
    }

    /// `self` lies at or after `other`.
    pub open spec fn at_or_after(self, other: Timestamp) -> bool {
        !self.before(other)
    }

    /// The instant `span` after `self`, as seconds and nanoseconds without
    /// machine limits.
    pub open spec fn plus(self, span: TimeSpan) -> (int, int) {
        let total = self.nanos as int + span.nanos as int;
        if total >= NANOS_PER_SECOND as int {
            (self.seconds as int + span.seconds as int + 1, total - NANOS_PER_SECOND as int)
        } else {
            (self.seconds as int + span.seconds as int, total)
        }
    }

    /// The instant `span` after `self` can be held in a `Timestamp`.
    pub open spec fn can_add(self, span: TimeSpan) -> bool {
        let (seconds, nanos) = self.plus(span);
        i64::MIN as int <= seconds <= i64::MAX as int && nanos <= u32::MAX as int
    }

    pub fn new(seconds: i64, nanos: u32) -> (t: Timestamp)
        ensures
            t.seconds == seconds,
            t.nanos == nanos,
    {
        Timestamp { seconds, nanos }
    }

    /// Decides whether `self` lies strictly before `other`.
    pub fn is_before(&self, other: &Timestamp) -> (b: bool)
        ensures
            b == self.before(*other),
    {
        self.seconds < other.seconds || (self.seconds == other.seconds && self.nanos
            < other.nanos)
    }

    /// Adds a span to an instant; `None` where the sum cannot be held.
    pub fn checked_add(&self, span: &TimeSpan) -> (sum: Option<Timestamp>)
        ensures
            sum.is_some() == self.can_add(*span),
            sum.is_some() ==> (sum.unwrap().seconds as int, sum.unwrap().nanos as int)
                == self.plus(*span),
    {
        let total: u64 = self.nanos as u64 + span.nanos as u64;
        let carry: i64 = if total >= NANOS_PER_SECOND as u64 {
            1
        } else {
            0
        };
        let nanos: u64 = if total >= NANOS_PER_SECOND as u64 {
            total - NANOS_PER_SECOND as u64
        } else {
            total
        };
        if nanos > u32::MAX as u64 {
            return None;
        }
        let seconds: i128 = self.seconds as i128 + span.seconds as i128 + carry as i128;
        if seconds < i64::MIN as i128 || seconds > i64::MAX as i128 {
            return None;
        }
        Some(Timestamp { seconds: seconds as i64, nanos: nanos as u32 })
    }
}

impl TimeSpan {
    pub fn new(seconds: i64, nanos: u32) -> (d: TimeSpan)
        ensures
            d.seconds == seconds,
            d.nanos == nanos,
    {
        TimeSpan { seconds, nanos }
    }

    /// A span of whole hours.
    pub fn hours(hours: i32) -> (d: TimeSpan)
        ensures
            d.seconds == hours * 3600,
            d.nanos == 0,
    {
        TimeSpan { seconds: hours as i64 * 3600, nanos: 0 }
    }

    /// The empty span.
    pub fn zero() -> (d: TimeSpan)
        ensures
            d.seconds == 0,
            d.nanos == 0,
    {
        TimeSpan { seconds: 0, nanos: 0 }
    }

    /// The span is longer than nothing.
    pub open spec fn is_positive(self) -> bool {
        self.seconds > 0 || (self.seconds == 0 && self.nanos > 0)
    }
}

/// Reads the clock through `chrono::Utc::now`, and hands on the seconds
/// (`timestamp`) and nanoseconds (`timestamp_subsec_nanos`) it gives. Nothing
/// is claimed of the instant that comes back. `Utc::now` panics where the
/// system clock stands before 1970.
#[verifier::external_body]
pub(crate) fn current_time() -> (now: Timestamp) {
    let now = chrono::Utc::now();
    Timestamp { seconds: now.timestamp(), nanos: now.timestamp_subsec_nanos() }
}

/// What `chrono::DateTime::parse_from_rfc3339` makes of a text: the instant
/// it names, or what the parse error says.
pub uninterp spec fn rfc3339_parsed(text: Seq<char>) -> Result<Timestamp, Seq<char>>;

/// What `chrono::DateTime::parse_from_rfc2822` makes of a text: the instant
/// it names, or what the parse error says.
pub uninterp spec fn rfc2822_parsed(text: Seq<char>) -> Result<Timestamp, Seq<char>>;

/// A parsed instant, or the characters of the error.
pub open spec fn instant_result(result: Result<Timestamp, String>) -> Result<
    Timestamp,
    Seq<char>,
> {
    match result {
        Ok(instant) => Ok(instant),
        Err(text) => Err(text@),
    }
}

/// Parses a text with `chrono::DateTime::parse_from_rfc3339`. The date and
/// time come back as the seconds (`timestamp`) and nanoseconds
/// (`timestamp_subsec_nanos`) of their instant; an error as the text it
/// displays.
#[verifier::external_body]
pub(crate) fn parse_rfc3339(text: &str) -> (parsed: Result<Timestamp, String>)
    ensures
        instant_result(parsed) == rfc3339_parsed(text@),
{
    match chrono::DateTime::parse_from_rfc3339(text) {
        Ok(instant) => Ok(
            Timestamp { seconds: instant.timestamp(), nanos: instant.timestamp_subsec_nanos() },
        ),
        Err(error) => Err(error.to_string()),
    }
}

/// Parses a text with `chrono::DateTime::parse_from_rfc2822`. The date and
/// time come back as the seconds (`timestamp`) and nanoseconds
/// (`timestamp_subsec_nanos`) of their instant; an error as the text it
/// displays.
#[verifier::external_body]
pub(crate) fn parse_rfc2822(text: &str) -> (parsed: Result<Timestamp, String>)
    ensures
        instant_result(parsed) == rfc2822_parsed(text@),
{
    match chrono::DateTime::parse_from_rfc2822(text) {
        Ok(instant) => Ok(
            Timestamp { seconds: instant.timestamp(), nanos: instant.timestamp_subsec_nanos() },
        ),
        Err(error) => Err(error.to_string()),
    }
}

/// How `chrono` writes an instant with the format `%+`, as a date and time
/// of ISO 8601; nothing for an instant that `DateTime::from_timestamp`
/// does not take.
pub uninterp spec fn rfc3339_text(instant: Timestamp) -> Option<Seq<char>>;

/// The characters of a text, where there is one.
pub open spec fn optional_text(text: Option<String>) -> Option<Seq<char>> {
    match text {
        Some(text) => Some(text@),
        None => None,
    }
}

/// Writes an instant as `chrono` does with the format `%+`: the instant is
/// handed to `DateTime::from_timestamp`, and what that gives to
/// `DateTime::format`.
#[verifier::external_body]
pub(crate) fn format_rfc3339(instant: &Timestamp) -> (text: Option<String>)
    ensures
        optional_text(text) == rfc3339_text(*instant),
{
    match chrono::DateTime::from_timestamp(instant.seconds, instant.nanos) {
        Some(date_time) => Some(date_time.format("%+").to_string()),
        None => None,
    }
}

} // verus!
