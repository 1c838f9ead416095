//! Times as text. A time is the number of seconds since the start of 1970 in
//! UTC; the calendar is that of `chrono`.

use chrono::Datelike;
use crate::text::content_of;
use std::fmt::Write;
use vstd::prelude::*;
use vstd::string::*;

verus! {

/// How the time of day is written.
pub const TIME_OF_DAY: &'static str = "%H:%M";

/// How a day and the time of day are written.
pub const DAY_AND_TIME: &'static str = "%b %e %H:%M";

/// The year, month and day of a time in UTC, as `chrono` gives them for the
/// time that `DateTime::from_timestamp` makes of the seconds: `None` where it
/// makes none.
pub uninterp spec fn utc_day(seconds: i64) -> Option<(i32, u32, u32)>;

/// What `chrono` writes for a time in UTC and a pattern of its `strftime`
/// kind: `None` where `DateTime::from_timestamp` makes no time of the seconds
/// or the pattern cannot be written.
pub uninterp spec fn utc_text(seconds: i64, pattern: Seq<char>) -> Option<Seq<char>>;

/// Calls `chrono::DateTime::from_timestamp` and reads the year, month and day
/// of the time with `Datelike`. The contract gives the result the name
/// `utc_day`.
#[verifier::external_body]
fn utc_date(seconds: i64) -> (date: Option<(i32, u32, u32)>)
    ensures
        date == utc_day(seconds),
{
    let time = chrono::DateTime::from_timestamp(seconds, 0)?;
    Some((time.year(), time.month(), time.day()))
}

/// Calls `chrono::DateTime::from_timestamp` and writes the time with
/// `DateTime::format`. The contract gives the result the name `utc_text`.
#[verifier::external_body]
pub(crate) fn format_utc(seconds: i64, pattern: &str) -> (text: Option<String>)
    ensures
        content_of(text) == utc_text(seconds, pattern@),
{
    let time = chrono::DateTime::from_timestamp(seconds, 0)?;
    let mut text = String::new();
    write!(text, "{}", time.format(pattern)).ok()?;
    Some(text)
}

/// Reads the clock with `std::time::SystemTime::now` and has `chrono` turn
/// the time into seconds since the start of 1970. The contract claims that
/// the seconds lie inside the calendar, whatever the clock says: `chrono`
/// gives the seconds of a time that it has made, and
/// `DateTime::from_timestamp` makes a time of them again.
#[verifier::external_body]
pub(crate) fn now_seconds() -> (seconds: i64)
    ensures
        utc_day(seconds) is Some,
{
    chrono::DateTime::<chrono::Utc>::from(std::time::SystemTime::now()).timestamp()
}

/// The pattern by which a time is written at the time `now`: the time of day
/// alone for a time of the same day, else the day as well. There is none
/// where one of the two times lies outside the calendar.
pub open spec fn time_pattern(system_time: i64, now: i64) -> Option<Seq<char>> {
    match (utc_day(system_time), utc_day(now)) {
        (Some(day), Some(today)) => Some(
            if day == today {
                TIME_OF_DAY@
            } else {
                DAY_AND_TIME@
            },
        ),
        _ => None,
    }
}

/// A time as it is written at the time `now`.
pub open spec fn time_text(system_time: i64, now: i64) -> Option<Seq<char>> {
    match time_pattern(system_time, now) {
        Some(pattern) => utc_text(system_time, pattern),
        None => None,
    }
}

/// Writes a time as it is written at the time `now`: the time of day alone
/// for a time of the same day, else the day as well. The result is `None`
/// where a time lies outside the calendar.
pub fn format_system_time_at(system_time: i64, now: i64) -> (text: Option<String>)
    ensures
        content_of(text) == time_text(system_time, now),
{
    let day = utc_date(system_time);
    let today = utc_date(now);
    match (day, today) {
        (Some(day), Some(today)) => {
            if day.0 == today.0 && day.1 == today.1 && day.2 == today.2 {
                format_utc(system_time, TIME_OF_DAY)
            } else {
                format_utc(system_time, DAY_AND_TIME)
            }
        },
        _ => None,
    }
}

/// Writes a time as it is written now, by the clock, which gives a time
/// inside the calendar.
pub fn format_system_time(system_time: i64) -> (text: Option<String>)
    ensures
        exists|now: i64| utc_day(now) is Some && content_of(text) == time_text(system_time, now),
{
    let now = now_seconds();
    let text = format_system_time_at(system_time, now);
    assert(utc_day(now) is Some && content_of(text) == time_text(system_time, now));
    text
}

} // verus!
