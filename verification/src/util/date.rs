//! Dates as feeds write them.

use vstd::prelude::*;
use chrono::{DateTime, Datelike, NaiveDate, NaiveDateTime, Timelike};
use crate::text::{trim_ascii, trimmed};

verus! {

/// A point in time: seconds and nanoseconds since 1970-01-01T00:00:00Z.
///
/// During a leap second `nanos` is 1,000,000,000 or more.
#[derive(Debug, Clone, Copy, PartialEq, Eq, Structural)]
pub struct Timestamp {
    /// Whole seconds since the epoch; negative before it.
    pub seconds: i64,
    /// Nanoseconds past `seconds`.
    pub nanos: u32,
}

impl Timestamp {
    /// The timestamp with the given parts.
    pub fn new(seconds: i64, nanos: u32) -> (t: Timestamp)
        ensures
            t == (Timestamp { seconds, nanos }),
    {
        Timestamp { seconds, nanos }
    }

    /// The milliseconds since the epoch that have passed at this instant.
    pub open spec fn millis(self) -> int {
        self.seconds * 1000 + self.nanos / 1000000
    }

    /// The milliseconds since the epoch that have passed at this instant,
    /// where they fit in 64 bits.
    pub fn to_millis(&self) -> (millis: Option<i64>)
        ensures
            millis == (if i64::MIN <= self.millis() <= i64::MAX {
                Some(self.millis() as i64)
            } else {
                None::<i64>
            }),
    {
        let total: i128 = self.seconds as i128 * 1000 + (self.nanos / 1000000) as i128;
        if -9223372036854775808 <= total && total <= 9223372036854775807 {
            Some(total as i64)
        } else {
            None
        }
    }
}

/// An instant in UTC taken apart the way a calendar and a clock show it.
#[derive(Debug, Clone, Copy, PartialEq, Eq, Structural)]
pub struct StructTime {
    /// The year.
    pub tm_year: i32,
    /// The month, from 1 to 12.
    pub tm_mon: i32,
    /// The day of the month, from 1 to 31.
    pub tm_mday: i32,
    /// The hour, from 0 to 23.
    pub tm_hour: i32,
    /// The minute, from 0 to 59.
    pub tm_min: i32,
    /// The second, from 0 to 59.
    pub tm_sec: i32,
    /// The day of the week, from 0 for Monday to 6 for Sunday.
    pub tm_wday: i32,
    /// The day of the year, from 1 to 366.
    pub tm_yday: i32,
    /// Whether daylight saving time is in force: never, in UTC.
    pub tm_isdst: i32,
}

impl StructTime {
    /// The parts of an instant in UTC.
    pub fn new(
        tm_year: i32,
        tm_mon: i32,
        tm_mday: i32,
        tm_hour: i32,
        tm_min: i32,
        tm_sec: i32,
        tm_wday: i32,
        tm_yday: i32,
    ) -> (t: StructTime)
        ensures
            t == (StructTime {
                tm_year,
                tm_mon,
                tm_mday,
                tm_hour,
                tm_min,
                tm_sec,
                tm_wday,
                tm_yday,
                tm_isdst: 0,
            }),
    {
        StructTime {
            tm_year,
            tm_mon,
            tm_mday,
            tm_hour,
            tm_min,
            tm_sec,
            tm_wday,
            tm_yday,
            tm_isdst: 0,
        }
    }
}

/// What calendar and clock show in UTC at the instant that lies `seconds`
/// and `nanos` behind the epoch, where the calendar reaches that far.
pub uninterp spec fn calendar_of(seconds: i64, nanos: u32) -> Option<StructTime>;

/// `chrono::DateTime::from_timestamp`, with the date taken apart by the
/// accessors of `chrono`.
///
/// Trusted: the outcome is a function of the two numbers.
#[verifier::external_body]
fn calendar(seconds: i64, nanos: u32) -> (t: Option<StructTime>)
    ensures
        t == calendar_of(seconds, nanos),
{
    DateTime::from_timestamp(seconds, nanos).map(
        |d| StructTime::new(d.year(), d.month() as i32, d.day() as i32, d.hour() as i32,
            d.minute() as i32, d.second() as i32, d.weekday().num_days_from_monday() as i32,
            d.ordinal() as i32),
    )
}

/// Takes a timestamp apart the way a calendar and a clock show it in UTC.
pub fn datetime_to_struct_time(dt: &Timestamp) -> (t: Option<StructTime>)
    ensures
        t == calendar_of(dt.seconds, dt.nanos),
{
    calendar(dt.seconds, dt.nanos)
}

/// Takes a timestamp apart where there is one.
pub fn optional_datetime_to_struct_time(dt: &Option<Timestamp>) -> (t: Option<StructTime>)
    ensures
        t == (match *dt {
            Some(stamp) => calendar_of(stamp.seconds, stamp.nanos),
            None => None::<StructTime>,
        }),
{
    match dt {
        Some(stamp) => datetime_to_struct_time(stamp),
        None => None,
    }
}

/// The instant that `text` names as an RFC 2822 date, if it is one.
pub uninterp spec fn rfc2822_timestamp(text: Seq<char>) -> Option<Timestamp>;

/// The instant that `text` names as an RFC 3339 date, if it is one.
pub uninterp spec fn rfc3339_timestamp(text: Seq<char>) -> Option<Timestamp>;

/// The instant that `text` names when read by the strftime pattern `format`
/// as a date and time of day in UTC, if the pattern fits.
pub uninterp spec fn naive_timestamp(text: Seq<char>, format: Seq<char>) -> Option<Timestamp>;

/// The day that `text` names when read by the strftime pattern `format`, as
/// a count of days in which 0001-01-01 is day 1, if the pattern fits.
pub uninterp spec fn naive_date_day(text: Seq<char>, format: Seq<char>) -> Option<i32>;

/// `chrono::DateTime::parse_from_rfc2822`, with the result as a timestamp.
///
/// Trusted: the outcome is a function of the text.
#[verifier::external_body]
fn parse_rfc2822(text: &str) -> (t: Option<Timestamp>)
    ensures
        t == rfc2822_timestamp(text@),
{
    DateTime::parse_from_rfc2822(text).ok().map(
        |d| Timestamp::new(d.timestamp(), d.timestamp_subsec_nanos()),
    )
}

/// `chrono::DateTime::parse_from_rfc3339`, with the result as a timestamp.
///
/// Trusted: the outcome is a function of the text.
#[verifier::external_body]
fn parse_rfc3339(text: &str) -> (t: Option<Timestamp>)
    ensures
        t == rfc3339_timestamp(text@),
{
    DateTime::parse_from_rfc3339(text).ok().map(
        |d| Timestamp::new(d.timestamp(), d.timestamp_subsec_nanos()),
    )
}

/// `chrono::NaiveDateTime::parse_from_str`, with the result taken as UTC and
/// returned as a timestamp.
///
/// Trusted: the outcome is a function of the text and the pattern.
#[verifier::external_body]
fn parse_naive(text: &str, format: &str) -> (t: Option<Timestamp>)
    ensures
        t == naive_timestamp(text@, format@),
{
    NaiveDateTime::parse_from_str(text, format).ok().map(
        |d| Timestamp::new(d.and_utc().timestamp(), d.and_utc().timestamp_subsec_nanos()),
    )
}

/// `chrono::NaiveDate::parse_from_str`, with the result as its day number.
///
/// Trusted: the outcome is a function of the text and the pattern.
#[verifier::external_body]
fn parse_naive_day(text: &str, format: &str) -> (day: Option<i32>)
    ensures
        day == naive_date_day(text@, format@),
{
    NaiveDate::parse_from_str(text, format).ok().map(|d| d.num_days_from_ce())
}

/// Midnight UTC at the start of day number `day`.
pub open spec fn midnight_of(day: i32) -> Timestamp {
    Timestamp { seconds: ((day as int - 719163) * 86400) as i64, nanos: 0 }
}

/// What a date-only text names: midnight at the start of its day.
pub open spec fn date_only_timestamp(text: Seq<char>) -> Option<Timestamp> {
    match naive_date_day(text, "%Y-%m-%d"@) {
        Some(day) => Some(midnight_of(day)),
        None => None,
    }
}

/// The first of the known notations that fits trimmed, non-empty `text`.
pub open spec fn first_fitting(text: Seq<char>) -> Option<Timestamp> {
    if rfc2822_timestamp(text) is Some {
        rfc2822_timestamp(text)
    } else if rfc3339_timestamp(text) is Some {
        rfc3339_timestamp(text)
    } else if naive_timestamp(text, "%Y-%m-%dT%H:%M:%S%.f"@) is Some {
        naive_timestamp(text, "%Y-%m-%dT%H:%M:%S%.f"@)
    } else if naive_timestamp(text, "%Y-%m-%d %H:%M:%S%.f"@) is Some {
        naive_timestamp(text, "%Y-%m-%d %H:%M:%S%.f"@)
    } else {
        date_only_timestamp(text)
    }
}

/// What `parse_date` returns.
pub open spec fn parsed_date(input: Seq<char>) -> Option<Timestamp> {
    if trimmed(input).len() == 0 {
        None
    } else {
        first_fitting(trimmed(input))
    }
}

/// Reads a date in any of the notations feeds use.
///
/// The text is trimmed, then tried in a fixed order as RFC 2822, as
/// RFC 3339, as an ISO 8601 date and time without a zone (taken as UTC,
/// with `T` or a space between the two), and as a bare `YYYY-MM-DD` date
/// (taken as midnight UTC). The first notation that fits decides; if none
/// does, or the text is empty, the result is `None`.
pub fn parse_date(input: &str) -> (date: Option<Timestamp>)
    ensures
        date == parsed_date(input@),
{
    let text = trim_ascii(input);
    if text.is_empty() {
        return None;
    }
    let t = parse_rfc2822(text);
    if t.is_some() {
        return t;
    }
    let t = parse_rfc3339(text);
    if t.is_some() {
        return t;
    }
    let t = parse_naive(text, "%Y-%m-%dT%H:%M:%S%.f");
    if t.is_some() {
        return t;
    }
    let t = parse_naive(text, "%Y-%m-%d %H:%M:%S%.f");
    if t.is_some() {
        return t;
    }
    match parse_naive_day(text, "%Y-%m-%d") {
        Some(day) => {
            let days: i64 = day as i64 - 719163;
            Some(Timestamp::new(days * 86400, 0))
        },
        None => None,
    }
}

/// Text that is empty or white space names no date.
pub proof fn lemma_blank_is_no_date(input: Seq<char>)
    requires
        trimmed(input).len() == 0,
    ensures
        parsed_date(input) is None,
{
}

} // verus!
