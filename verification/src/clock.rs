//! Points in time as a person reads them.

use vstd::prelude::*;
use vstd::string::StringExecFns;

use crate::text;
use crate::usage::Timestamp;

verus! {

/// Seconds in a minute, an hour and a day.
pub const SECONDS_PER_MINUTE: u64 = 60;

pub const SECONDS_PER_HOUR: u64 = 3600;

pub const SECONDS_PER_DAY: u64 = 86400;

/// What `chrono` writes for a point in time as RFC 3339, in UTC; nothing for one
/// outside the years it can represent.
pub uninterp spec fn rfc3339(seconds: i64, nanos: u32) -> Seq<char>;

/// Calls `chrono::DateTime::from_timestamp` and `to_rfc3339`. Claims that the
/// text depends on the seconds and nanoseconds alone.
#[verifier::external_body]
fn write_rfc3339(seconds: i64, nanos: u32) -> (result: String)
    ensures
        result@ == rfc3339(seconds, nanos),
{
    chrono::DateTime::from_timestamp(seconds, nanos).map(|time| time.to_rfc3339()).unwrap_or_default()
}

/// What `chrono` writes for the UTC date of a point in time; nothing for one
/// outside the years it can represent.
pub uninterp spec fn calendar_date(seconds: i64, nanos: u32) -> Seq<char>;

/// Calls `chrono::DateTime::from_timestamp` and `date_naive`. Claims that the
/// text depends on the seconds and nanoseconds alone.
#[verifier::external_body]
fn write_date(seconds: i64, nanos: u32) -> (result: String)
    ensures
        result@ == calendar_date(seconds, nanos),
{
    chrono::DateTime::from_timestamp(seconds, nanos).map(|time| time.date_naive().to_string()).unwrap_or_default()
}

/// The point in time as RFC 3339, in UTC.
pub fn timestamp_text(time: &Timestamp) -> (result: String)
    ensures
        result@ == rfc3339(time.seconds, time.nanos),
{
    write_rfc3339(time.seconds, time.nanos)
}

/// The point in time as RFC 3339, or nothing.
pub open spec fn optional_timestamp(time: Option<Timestamp>) -> Seq<char> {
    match time {
        Some(time) => rfc3339(time.seconds, time.nanos),
        None => Seq::empty(),
    }
}

/// The point in time as RFC 3339, or nothing.
pub fn optional_timestamp_text(time: &Option<Timestamp>) -> (result: String)
    ensures
        result@ == optional_timestamp(*time),
{
    match time {
        Some(time) => timestamp_text(time),
        None => String::new(),
    }
}

/// The UTC date of a point in time.
pub fn date_text(time: &Timestamp) -> (result: String)
    ensures
        result@ == calendar_date(time.seconds, time.nanos),
{
    write_date(time.seconds, time.nanos)
}

/// How long a wait is: `<1m`, `12m`, `3h05m`, or `2d03h`.
pub open spec fn duration(seconds: u64) -> Seq<char> {
    if seconds < SECONDS_PER_MINUTE {
        "<1m"@
    } else if seconds < SECONDS_PER_HOUR {
        text::decimal_digits((seconds / 60) as nat) + "m"@
    } else if seconds < SECONDS_PER_DAY {
        text::decimal_digits((seconds / 3600) as nat) + "h"@ + text::two_digits(
            (seconds % 3600 / 60) as nat,
        ) + "m"@
    } else {
        text::decimal_digits((seconds / 86400) as nat) + "d"@ + text::two_digits(
            (seconds % 86400 / 3600) as nat,
        ) + "h"@
    }
}

/// How long a wait is: `<1m`, `12m`, `3h05m`, or `2d03h`.
pub fn countdown_text(seconds: u64) -> (result: String)
    ensures
        result@ == duration(seconds),
{
    if seconds < SECONDS_PER_MINUTE {
        "<1m".to_owned()
    } else if seconds < SECONDS_PER_HOUR {
        text::join2(text::decimal(seconds / 60).as_str(), "m")
    } else if seconds < SECONDS_PER_DAY {
        let mut result = text::join3(
            text::decimal(seconds / 3600).as_str(),
            "h",
            text::padded_decimal(seconds % 3600 / 60).as_str(),
        );
        result.append("m");
        result
    } else {
        let mut result = text::join3(
            text::decimal(seconds / 86400).as_str(),
            "d",
            text::padded_decimal(seconds % 86400 / 3600).as_str(),
        );
        result.append("h");
        result
    }
}

/// Whole seconds from the first point in time to the second, or none if it is
/// not later.
pub open spec fn seconds_between(from: Timestamp, to: Timestamp) -> u64 {
    if to.seconds <= from.seconds {
        0
    } else if to.nanos < from.nanos {
        (to.seconds - from.seconds - 1) as u64
    } else {
        (to.seconds - from.seconds) as u64
    }
}

/// Whole seconds from the first point in time to the second, or none if it is
/// not later.
pub fn elapsed_seconds(from: &Timestamp, to: &Timestamp) -> (result: u64)
    ensures
        result == seconds_between(*from, *to),
{
    if to.seconds <= from.seconds {
        0
    } else {
        let difference: i128 = to.seconds as i128 - from.seconds as i128;
        if to.nanos < from.nanos {
            (difference - 1) as u64
        } else {
            difference as u64
        }
    }
}

/// How long ago a point in time was.
pub open spec fn ago(then: Timestamp, now: Timestamp) -> Seq<char> {
    duration(seconds_between(then, now)) + " ago"@
}

/// How long ago a point in time was.
pub fn relative_past(then: &Timestamp, now: &Timestamp) -> (result: String)
    ensures
        result@ == ago(*then, *now),
{
    text::join2(countdown_text(elapsed_seconds(then, now)).as_str(), " ago")
}

} // verus!
