//! The civil calendar, as chrono keeps it: months and days of the month of a
//! second on the UTC time line.

use vstd::prelude::*;

verus! {

/// The second that a date and time of day, written as `format` lays down, names
/// in UTC; nothing where `text` does not follow `format`.
pub uninterp spec fn naive_datetime_secs(text: Seq<char>, format: Seq<char>) -> Option<i64>;

/// The month, from 1 to 12, of the date that holds the second `secs`; nothing
/// where chrono has no date for it.
pub uninterp spec fn civil_month(secs: i64) -> Option<u32>;

/// The year of the date that holds the second `secs`; nothing where chrono has
/// no date for it.
pub uninterp spec fn civil_year(secs: i64) -> Option<i32>;

/// The second at the same time of day, on the same day of the same month, in
/// the year `year`; nothing where that year has no such day or chrono cannot
/// name it.
pub uninterp spec fn civil_with_year(secs: i64, year: i32) -> Option<i64>;

/// The second at the same time of day on day `day` of the same month; nothing
/// where that month has no such day.
pub uninterp spec fn civil_with_day(secs: i64, day: u32) -> Option<i64>;

/// The second at the same time of day, on the same day of the month, in month
/// `month` of the same year; nothing where there is no such month or it has no
/// such day.
pub uninterp spec fn civil_with_month(secs: i64, month: u32) -> Option<i64>;

/// Calls `chrono::NaiveDateTime::parse_from_str` on `text` and `format` and reads
/// the parsed value, taken as UTC, as a Unix time stamp. The result depends on the
/// two texts alone.
#[verifier::external_body]
pub(crate) fn parse_naive_datetime(text: &str, format: &str) -> (r: Result<i64, chrono::ParseError>)
    ensures
        match r {
            Ok(secs) => naive_datetime_secs(text@, format@) == Some(secs),
            Err(_) => naive_datetime_secs(text@, format@) is None,
        },
{
    match chrono::NaiveDateTime::parse_from_str(text, format) {
        Ok(parsed) => Ok(parsed.and_utc().timestamp()),
        Err(error) => Err(error),
    }
}

/// Calls `chrono::Datelike::month` on the date and time that
/// `chrono::DateTime::from_timestamp` makes of `secs`. chrono documents the
/// month as a number from 1 to 12.
#[verifier::external_body]
pub(crate) fn month_of(secs: i64) -> (r: Option<u32>)
    ensures
        r == civil_month(secs),
        r is Some ==> 1 <= r->0 <= 12,
{
    match chrono::DateTime::from_timestamp(secs, 0) {
        Some(at) => Some(chrono::Datelike::month(&at.naive_utc())),
        None => None,
    }
}

/// Calls `chrono::Datelike::with_day` on the date and time that
/// `chrono::DateTime::from_timestamp` makes of `secs`, and reads the result as a
/// Unix time stamp. The result depends on the two numbers alone.
#[verifier::external_body]
pub(crate) fn with_day(secs: i64, day: u32) -> (r: Option<i64>)
    ensures
        r == civil_with_day(secs, day),
{
    match chrono::DateTime::from_timestamp(secs, 0) {
        Some(at) => match chrono::Datelike::with_day(&at.naive_utc(), day) {
            Some(moved) => Some(moved.and_utc().timestamp()),
            None => None,
        },
        None => None,
    }
}

/// Calls `chrono::Datelike::with_month` on the date and time that
/// `chrono::DateTime::from_timestamp` makes of `secs`, and reads the result as a
/// Unix time stamp. The result depends on the two numbers alone.
#[verifier::external_body]
pub(crate) fn with_month(secs: i64, month: u32) -> (r: Option<i64>)
    ensures
        r == civil_with_month(secs, month),
{
    match chrono::DateTime::from_timestamp(secs, 0) {
        Some(at) => match chrono::Datelike::with_month(&at.naive_utc(), month) {
            Some(moved) => Some(moved.and_utc().timestamp()),
            None => None,
        },
        None => None,
    }
}

/// Calls `chrono::Datelike::year` on the date and time that
/// `chrono::DateTime::from_timestamp` makes of `secs`. The result depends on the
/// number alone.
#[verifier::external_body]
pub(crate) fn year_of(secs: i64) -> (r: Option<i32>)
    ensures
        r == civil_year(secs),
{
    match chrono::DateTime::from_timestamp(secs, 0) {
        Some(at) => Some(chrono::Datelike::year(&at.naive_utc())),
        None => None,
    }
}

/// Calls `chrono::Datelike::with_year` on the date and time that
/// `chrono::DateTime::from_timestamp` makes of `secs`, and reads the result as a
/// Unix time stamp. The result depends on the two numbers alone.
#[verifier::external_body]
pub(crate) fn with_year(secs: i64, year: i32) -> (r: Option<i64>)
    ensures
        r == civil_with_year(secs, year),
{
    match chrono::DateTime::from_timestamp(secs, 0) {
        Some(at) => match chrono::Datelike::with_year(&at.naive_utc(), year) {
            Some(moved) => Some(moved.and_utc().timestamp()),
            None => None,
        },
        None => None,
    }
}

} // verus!
