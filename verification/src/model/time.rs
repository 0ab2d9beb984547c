//! Instants and half-open time windows.

use vstd::prelude::*;

verus! {

/// Seconds in one day.
pub const SECONDS_PER_DAY: i64 = 86_400;

/// A point on the UTC time line: whole seconds since 1970-01-01T00:00:00Z and the
/// nanoseconds into that second. During a leap second the nanoseconds run past one
/// thousand million, so instants are ordered by seconds first and nanoseconds second.
#[derive(Clone, Copy, Debug, PartialEq, Eq, Structural)]
pub struct Instant {
    pub secs: i64,
    pub nanos: u32,
}

/// The error with which chrono turns a text down.
#[verifier::external_type_specification]
#[verifier::external_body]
pub struct ExParseError(chrono::ParseError);

/// The instant that an RFC 3339 time stamp stands for, and nothing where the text
/// is no such time stamp.
pub uninterp spec fn rfc3339_instant(text: Seq<char>) -> Option<Instant>;

/// Calls `chrono::DateTime::parse_from_rfc3339` on `text`. What comes back depends
/// on the text alone: the instant that the text names, read off the parsed value as
/// its Unix time stamp and the nanoseconds into that second, or chrono's error.
#[verifier::external_body]
fn rfc3339_to_instant(text: &str) -> (r: Result<Instant, chrono::ParseError>)
    ensures
        match r {
            Ok(instant) => rfc3339_instant(text@) == Some(instant),
            Err(_) => rfc3339_instant(text@) is None,
        },
{
    match chrono::DateTime::parse_from_rfc3339(text) {
        Ok(parsed) => Ok(
            Instant { secs: parsed.timestamp(), nanos: parsed.timestamp_subsec_nanos() },
        ),
        Err(error) => Err(error),
    }
}

impl Instant {
    /// Reads an RFC 3339 time stamp such as `2023-07-20T17:59:38Z`.
    pub fn parse_rfc3339(text: &str) -> (r: Option<Instant>)
        ensures
            r == rfc3339_instant(text@),
    {
        match rfc3339_to_instant(text) {
            Ok(instant) => Some(instant),
            Err(_) => None,
        }
    }

    /// Strictly earlier than `other`.
    pub open spec fn is_before(self, other: Instant) -> bool {
        self.secs < other.secs || (self.secs == other.secs && self.nanos < other.nanos)
    }

    /// Not later than `other`.
    pub open spec fn is_at_or_before(self, other: Instant) -> bool {
        self.secs < other.secs || (self.secs == other.secs && self.nanos <= other.nanos)
    }

    /// The instant `days` whole days earlier, as far as the seconds can be counted.
    pub open spec fn days_earlier(self, days: int) -> Option<Instant> {
        let secs = self.secs - days * 86_400;
        if i64::MIN <= secs <= i64::MAX {
            Some(Instant { secs: secs as i64, nanos: self.nanos })
        } else {
            None
        }
    }

    pub fn new(secs: i64, nanos: u32) -> (r: Instant)
        ensures
            r.secs == secs,
            r.nanos == nanos,
    {
        Instant { secs, nanos }
    }

    pub fn before(&self, other: &Instant) -> (r: bool)
        ensures
            r == self.is_before(*other),
    {
        self.secs < other.secs || (self.secs == other.secs && self.nanos < other.nanos)
    }

    pub fn at_or_before(&self, other: &Instant) -> (r: bool)
        ensures
            r == self.is_at_or_before(*other),
    {
        self.secs < other.secs || (self.secs == other.secs && self.nanos <= other.nanos)
    }

    /// Steps back by `days` whole days; `None` where the seconds leave the range of `i64`.
    pub fn minus_days(&self, days: u32) -> (r: Option<Instant>)
        ensures
            r == self.days_earlier(days as int),
    {
        let span: i64 = (days as i64) * SECONDS_PER_DAY;
        match self.secs.checked_sub(span) {
            Some(secs) => Some(Instant { secs, nanos: self.nanos }),
            None => None,
        }
    }
}

/// The day that holds the second `secs`, counted in days since 1970-01-01.
pub open spec fn day_of(secs: int) -> int {
    secs / 86_400
}

/// The day that holds the second `secs`, counted in days since 1970-01-01.
pub fn day_number(secs: i64) -> (r: i64)
    ensures
        r == day_of(secs as int),
{
    let whole: i64 = secs / SECONDS_PER_DAY;
    let rest: i64 = secs % SECONDS_PER_DAY;
    if rest < 0 {
        whole - 1
    } else {
        whole
    }
}

/// A half-open stretch of time: `start` belongs to it, `end` does not.
#[derive(Clone, Copy, Debug, PartialEq, Eq, Structural)]
pub struct TimeWindow {
    pub start: Instant,
    pub end: Instant,
}

impl TimeWindow {
    /// The start lies strictly before the end.
    pub open spec fn wf(self) -> bool {
        self.start.is_before(self.end)
    }

    /// `start <= t < end`.
    pub open spec fn covers(self, t: Instant) -> bool {
        self.start.is_at_or_before(t) && t.is_before(self.end)
    }

    /// The window from `start` up to `end`, where that is a window at all.
    pub open spec fn between(start: Instant, end: Instant) -> Option<TimeWindow> {
        if start.is_before(end) {
            Some(TimeWindow { start, end })
        } else {
            None
        }
    }

    /// The window that opens `days_ago_start` days before `now` and closes
    /// `days_ago_end` days before `now`.
    pub open spec fn span_days_ago(now: Instant, days_ago_start: int, days_ago_end: int) -> Option<
        TimeWindow,
    > {
        match (now.days_earlier(days_ago_start), now.days_earlier(days_ago_end)) {
            (Some(start), Some(end)) => Self::between(start, end),
            _ => None,
        }
    }

    pub fn new(start: Instant, end: Instant) -> (r: Option<TimeWindow>)
        ensures
            r == Self::between(start, end),
            r is Some ==> r->0.wf(),
    {
        if start.before(&end) {
            Some(TimeWindow { start, end })
        } else {
            None
        }
    }

    /// Builds the window from a pair of offsets in days, counted back from `now`.
    /// `None` where the offsets leave no time between them or reach past what an
    /// instant can hold.
    pub fn days_ago(now: Instant, days_ago_start: u32, days_ago_end: u32) -> (r: Option<TimeWindow>)
        ensures
            r == Self::span_days_ago(now, days_ago_start as int, days_ago_end as int),
            r is Some ==> r->0.wf(),
    {
        let start = now.minus_days(days_ago_start);
        let end = now.minus_days(days_ago_end);
        match (start, end) {
            (Some(start), Some(end)) => TimeWindow::new(start, end),
            _ => None,
        }
    }

    /// The calendar day `day`, counted in days since 1970-01-01, from midnight
    /// to midnight in UTC. `None` where the seconds leave the range of `i64`.
    pub fn of_day(day: i64) -> (r: Option<TimeWindow>)
        ensures
            r is Some <==> i64::MIN <= day * 86_400 && (day + 1) * 86_400 <= i64::MAX,
            r is Some ==> r->0.wf() && forall|t: Instant|
                r->0.covers(t) <==> day_of(#[trigger] t.secs as int) == day,
    {
        let start = match day.checked_mul(SECONDS_PER_DAY) {
            Some(start) => start,
            None => {
                return None;
            },
        };
        let end = match start.checked_add(SECONDS_PER_DAY) {
            Some(end) => end,
            None => {
                return None;
            },
        };
        Some(
            TimeWindow {
                start: Instant { secs: start, nanos: 0 },
                end: Instant { secs: end, nanos: 0 },
            },
        )
    }

    pub fn contains(&self, t: &Instant) -> (r: bool)
        ensures
            r == self.covers(*t),
    {
        self.start.at_or_before(t) && t.before(&self.end)
    }
}

} // verus!
