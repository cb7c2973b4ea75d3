//! Wall-clock time and timestamp text, in milliseconds since the Unix epoch (UTC).
use vstd::prelude::*;

verus! {

pub const MS_PER_DAY: i64 = 86_400_000;

/// Day number (counted from 1 January of year 1) of 1 January 1970.
pub const EPOCH_DAY_FROM_CE: i64 = 719_163;

/// Milliseconds from midnight to 23:59:59 of the same day.
pub const END_OF_DAY_MS: i64 = 86_399_000;

/// What `chrono::DateTime::parse_from_rfc3339` gives for the text, as the instant in
/// milliseconds since the epoch, or `None` where it refuses the text.
pub uninterp spec fn rfc3339_millis(s: Seq<char>) -> Option<i64>;

/// What `chrono::NaiveDateTime::parse_from_str` gives for the text and the format,
/// read as UTC, in milliseconds since the epoch, or `None` where it refuses them.
pub uninterp spec fn naive_millis(s: Seq<char>, fmt: Seq<char>) -> Option<i64>;

/// What `chrono::NaiveDate::parse_from_str` gives for the text and the format, as the
/// day number counted from 1 January of year 1 (day 1), or `None` where it refuses them.
pub uninterp spec fn date_day_number(s: Seq<char>, fmt: Seq<char>) -> Option<i32>;

/// Relies on `chrono::Utc::now`: the current time; nothing is promised of its value.
#[verifier::external_body]
pub(crate) fn now_millis() -> i64 {
    chrono::Utc::now().timestamp_millis()
}

/// Relies on `chrono::DateTime::parse_from_rfc3339` and `timestamp_millis`.
#[verifier::external_body]
fn parse_rfc3339(s: &str) -> (r: Option<i64>)
    ensures
        r == rfc3339_millis(s@),
{
    match chrono::DateTime::parse_from_rfc3339(s) {
        Ok(dt) => Some(dt.timestamp_millis()),
        Err(_) => None,
    }
}

/// Relies on `chrono::NaiveDateTime::parse_from_str`, read as UTC by `and_utc`.
#[verifier::external_body]
fn parse_naive(s: &str, fmt: &str) -> (r: Option<i64>)
    ensures
        r == naive_millis(s@, fmt@),
{
    match chrono::NaiveDateTime::parse_from_str(s, fmt) {
        Ok(dt) => Some(dt.and_utc().timestamp_millis()),
        Err(_) => None,
    }
}

/// Relies on `chrono::NaiveDate::parse_from_str` and `Datelike::num_days_from_ce`.
#[verifier::external_body]
fn parse_date(s: &str, fmt: &str) -> (r: Option<i32>)
    ensures
        r == date_day_number(s@, fmt@),
{
    match chrono::NaiveDate::parse_from_str(s, fmt) {
        Ok(d) => Some(chrono::Datelike::num_days_from_ce(&d)),
        Err(_) => None,
    }
}

pub open spec fn end_of_day_millis(day: i32) -> i64 {
    ((day - EPOCH_DAY_FROM_CE) * MS_PER_DAY + END_OF_DAY_MS) as i64
}

/// The instant a timestamp text denotes: with a zone offset (RFC 3339), else a
/// date and time read as UTC (with, then without, a fraction of a second), else a
/// date alone, read as its last second in UTC. `None` when no form applies.
pub open spec fn parsed_millis(s: Seq<char>) -> Option<i64> {
    if rfc3339_millis(s) is Some {
        rfc3339_millis(s)
    } else if naive_millis(s, "%Y-%m-%dT%H:%M:%S%.f"@) is Some {
        naive_millis(s, "%Y-%m-%dT%H:%M:%S%.f"@)
    } else if naive_millis(s, "%Y-%m-%dT%H:%M:%S"@) is Some {
        naive_millis(s, "%Y-%m-%dT%H:%M:%S"@)
    } else {
        match date_day_number(s, "%Y-%m-%d"@) {
            Some(d) => Some(end_of_day_millis(d)),
            None => None,
        }
    }
}

pub fn parse_datetime(s: &str) -> (r: Option<i64>)
    ensures
        r == parsed_millis(s@),
{
    let a = parse_rfc3339(s);
    if a.is_some() {
        return a;
    }
    let b = parse_naive(s, "%Y-%m-%dT%H:%M:%S%.f");
    if b.is_some() {
        return b;
    }
    let c = parse_naive(s, "%Y-%m-%dT%H:%M:%S");
    if c.is_some() {
        return c;
    }
    match parse_date(s, "%Y-%m-%d") {
        Some(d) => Some(end_of_day(d)),
        None => None,
    }
}

/// The instant 23:59:59 UTC of the day with this number (1 January of year 1
/// being day 1), in milliseconds since the epoch.
pub fn end_of_day(day: i32) -> (r: i64)
    ensures
        r == end_of_day_millis(day),
{
    let d = day as i64;
    (d - EPOCH_DAY_FROM_CE) * MS_PER_DAY + END_OF_DAY_MS
}

} // verus!
