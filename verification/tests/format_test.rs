use chrono::prelude::{DateTime, Utc};
use chrono::Timelike;
use gnotes::format::{format_system_time, format_system_time_at};
use std::time::{SystemTime, UNIX_EPOCH};

fn seconds(time: SystemTime) -> i64 {
    time.duration_since(UNIX_EPOCH).unwrap().as_secs() as i64
}

fn not_today() {
    let system_time = UNIX_EPOCH;

    let formatted = format_system_time(seconds(system_time));

    assert_eq!(formatted, Some(String::from("Jan  1 00:00")))
}

fn today() {
    let system_time = SystemTime::now();
    let now: DateTime<Utc> = SystemTime::now().into();

    let formatted = format_system_time(seconds(system_time));

    assert_eq!(formatted, Some(format!("{:02}:{:02}", now.hour(), now.minute())))
}

#[test]
fn list_format_system_time_not_today() {
    not_today()
}

#[test]
fn list_format_system_time_today() {
    today()
}

#[test]
fn common_format_system_time_not_today() {
    not_today()
}

#[test]
fn common_format_system_time_today() {
    today()
}

#[test]
fn format_format_system_time_not_today() {
    not_today()
}

#[test]
fn format_format_system_time_today() {
    today()
}

#[test]
fn format_system_time_at_of_the_same_day_is_the_time_of_day() {
    // 2021-03-04 05:06:07 UTC, seen at 23:59:59 of that day.
    let formatted = format_system_time_at(1614834367, 1614902399);

    assert_eq!(formatted, Some(String::from("05:06")));
}

#[test]
fn format_system_time_at_of_another_day_names_the_day() {
    // 2021-03-04 05:06:07 UTC, seen at 00:00:00 of the next day.
    let formatted = format_system_time_at(1614834367, 1614902400);

    assert_eq!(formatted, Some(String::from("Mar  4 05:06")));
}

#[test]
fn format_system_time_at_of_the_same_day_of_another_year_names_the_day() {
    // 2021-03-04 and 2022-03-04.
    let formatted = format_system_time_at(1614834367, 1646370367);

    assert_eq!(formatted, Some(String::from("Mar  4 05:06")));
}

#[test]
fn format_system_time_at_writes_two_digit_days() {
    // 2021-12-25 18:30:00 UTC.
    let formatted = format_system_time_at(1640457000, 0);

    assert_eq!(formatted, Some(String::from("Dec 25 18:30")));
}

#[test]
fn format_system_time_at_before_1970() {
    // 1969-12-31 23:59:00 UTC.
    let formatted = format_system_time_at(-60, 0);

    assert_eq!(formatted, Some(String::from("Dec 31 23:59")));
}

#[test]
fn format_system_time_at_outside_the_calendar() {
    assert_eq!(format_system_time_at(i64::MAX, 0), None);
    assert_eq!(format_system_time_at(0, i64::MIN), None);
}
