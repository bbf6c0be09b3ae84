//! The calls into `chrono` and `console`. Each function here converts its
//! arguments, makes one call, and converts the answer back. Their contracts
//! are taken from the documentation and the source of the two crates and
//! are not proved.

use crate::calendar::{is_calendar_date, is_representable, weekday_index, CivilDateTime};
use crate::text::{date_text, shows_with, time_text, timestamp_text, weekday_text};
use chrono::{DateTime, Datelike, Duration, NaiveDate, SecondsFormat, TimeZone, Timelike, Utc};
use console::style;
use vstd::prelude::*;

verus! {

/// `Datelike::with_year` on a `NaiveDateTime`: the same month, day and time
/// of day in `year`, or nothing where that year has no such day (February 29
/// in a common year) or lies outside the supported years.
#[verifier::external_body]
pub(crate) fn with_year(v: CivilDateTime, year: i32) -> (r: Option<CivilDateTime>)
    requires
        v.is_valid(),
    ensures
        r == (if is_calendar_date(year as int, v.month as int, v.day as int) {
            Some(CivilDateTime { year, ..v })
        } else {
            None
        }),
{
    let n = NaiveDate::from_ymd_opt(v.year, v.month, v.day).unwrap()
        .and_hms_opt(v.hour, v.minute, v.second).unwrap();
    match n.with_year(year) {
        Some(d) => Some(CivilDateTime {
            year: d.year(), month: d.month(), day: d.day(),
            hour: d.hour(), minute: d.minute(), second: d.second(),
        }),
        None => None,
    }
}

/// `Datelike::with_month` on a `NaiveDateTime`: the same year, day and time
/// of day in `month`, or nothing where `month` is not in `1..=12` or has no
/// such day.
#[verifier::external_body]
pub(crate) fn with_month(v: CivilDateTime, month: u32) -> (r: Option<CivilDateTime>)
    requires
        v.is_valid(),
    ensures
        r == (if is_calendar_date(v.year as int, month as int, v.day as int) {
            Some(CivilDateTime { month, ..v })
        } else {
            None
        }),
{
    let n = NaiveDate::from_ymd_opt(v.year, v.month, v.day).unwrap()
        .and_hms_opt(v.hour, v.minute, v.second).unwrap();
    match n.with_month(month) {
        Some(d) => Some(CivilDateTime {
            year: d.year(), month: d.month(), day: d.day(),
            hour: d.hour(), minute: d.minute(), second: d.second(),
        }),
        None => None,
    }
}

/// `Datelike::with_day` on a `NaiveDateTime`: the same year, month and time
/// of day on day `day` of the month, or nothing where the month has no such
/// day.
#[verifier::external_body]
pub(crate) fn with_day(v: CivilDateTime, day: u32) -> (r: Option<CivilDateTime>)
    requires
        v.is_valid(),
    ensures
        r == (if is_calendar_date(v.year as int, v.month as int, day as int) {
            Some(CivilDateTime { day, ..v })
        } else {
            None
        }),
{
    let n = NaiveDate::from_ymd_opt(v.year, v.month, v.day).unwrap()
        .and_hms_opt(v.hour, v.minute, v.second).unwrap();
    match n.with_day(day) {
        Some(d) => Some(CivilDateTime {
            year: d.year(), month: d.month(), day: d.day(),
            hour: d.hour(), minute: d.minute(), second: d.second(),
        }),
        None => None,
    }
}

/// `Timelike::with_hour` on a `NaiveDateTime`: the same date, minute and
/// second at `hour`, or nothing where `hour` is 24 or more.
#[verifier::external_body]
pub(crate) fn with_hour(v: CivilDateTime, hour: u32) -> (r: Option<CivilDateTime>)
    requires
        v.is_valid(),
    ensures
        r == (if hour < 24 {
            Some(CivilDateTime { hour, ..v })
        } else {
            None
        }),
{
    let n = NaiveDate::from_ymd_opt(v.year, v.month, v.day).unwrap()
        .and_hms_opt(v.hour, v.minute, v.second).unwrap();
    match n.with_hour(hour) {
        Some(d) => Some(CivilDateTime {
            year: d.year(), month: d.month(), day: d.day(),
            hour: d.hour(), minute: d.minute(), second: d.second(),
        }),
        None => None,
    }
}

/// `Timelike::with_minute` on a `NaiveDateTime`: the same date, hour and
/// second at `minute`, or nothing where `minute` is 60 or more.
#[verifier::external_body]
pub(crate) fn with_minute(v: CivilDateTime, minute: u32) -> (r: Option<CivilDateTime>)
    requires
        v.is_valid(),
    ensures
        r == (if minute < 60 {
            Some(CivilDateTime { minute, ..v })
        } else {
            None
        }),
{
    let n = NaiveDate::from_ymd_opt(v.year, v.month, v.day).unwrap()
        .and_hms_opt(v.hour, v.minute, v.second).unwrap();
    match n.with_minute(minute) {
        Some(d) => Some(CivilDateTime {
            year: d.year(), month: d.month(), day: d.day(),
            hour: d.hour(), minute: d.minute(), second: d.second(),
        }),
        None => None,
    }
}

/// `Timelike::with_second` on a `NaiveDateTime`: the same date, hour and
/// minute at `second`, or nothing where `second` is 60 or more.
#[verifier::external_body]
pub(crate) fn with_second(v: CivilDateTime, second: u32) -> (r: Option<CivilDateTime>)
    requires
        v.is_valid(),
    ensures
        r == (if second < 60 {
            Some(CivilDateTime { second, ..v })
        } else {
            None
        }),
{
    let n = NaiveDate::from_ymd_opt(v.year, v.month, v.day).unwrap()
        .and_hms_opt(v.hour, v.minute, v.second).unwrap();
    match n.with_second(second) {
        Some(d) => Some(CivilDateTime {
            year: d.year(), month: d.month(), day: d.day(),
            hour: d.hour(), minute: d.minute(), second: d.second(),
        }),
        None => None,
    }
}

/// `NaiveDateTime + Duration::seconds(seconds)`: the date and time that
/// many seconds later (earlier, if negative), every day counted as 86400
/// seconds. chrono stops the program where the sum leaves the supported
/// years, so those inputs are excluded.
#[verifier::external_body]
pub(crate) fn plus_seconds(v: CivilDateTime, seconds: i64) -> (r: CivilDateTime)
    requires
        v.is_valid(),
        -86400 <= seconds <= 86400,
        is_representable(v.second_number() + seconds),
    ensures
        r.is_valid(),
        r.second_number() == v.second_number() + seconds,
{
    let n = NaiveDate::from_ymd_opt(v.year, v.month, v.day).unwrap()
        .and_hms_opt(v.hour, v.minute, v.second).unwrap();
    let d = n + Duration::seconds(seconds);
    CivilDateTime {
        year: d.year(), month: d.month(), day: d.day(),
        hour: d.hour(), minute: d.minute(), second: d.second(),
    }
}

/// What `DateTime::parse_from_rfc3339` followed by `naive_local` makes of
/// a text: the date and time of day that the text spells out, whatever its
/// offset, cut to the whole second; or nothing where the text is not an
/// RFC 3339 timestamp.
pub uninterp spec fn rfc3339_local(text: Seq<char>) -> Option<CivilDateTime>;

/// `DateTime::parse_from_rfc3339` followed by `naive_local`. The parser
/// reads the year from exactly four digits and accepts only days of the
/// calendar, so a result is valid and lies in the years 0 to 9999.
#[verifier::external_body]
pub(crate) fn parse_rfc3339_local(text: &str) -> (r: Option<CivilDateTime>)
    ensures
        r == rfc3339_local(text@),
        r matches Some(v) ==> v.is_valid() && 0 <= v.year <= 9999,
{
    match DateTime::parse_from_rfc3339(text) {
        Ok(parsed) => {
            let d = parsed.naive_local();
            Some(CivilDateTime {
                year: d.year(), month: d.month(), day: d.day(),
                hour: d.hour(), minute: d.minute(), second: d.second(),
            })
        },
        Err(_) => None,
    }
}

/// `NaiveDateTime::format` with one of two patterns, written out as text:
/// `%Y-%m-%d` gives the year (four digits, or signed outside 0 to 9999),
/// month and day joined by hyphens; `%H:%M:%S` gives hour, minute and
/// second joined by colons, two digits each.
#[verifier::external_body]
pub(crate) fn format_with(v: CivilDateTime, pattern: &str) -> (r: String)
    requires
        v.is_valid(),
        pattern@ == "%Y-%m-%d"@ || pattern@ == "%H:%M:%S"@,
    ensures
        pattern@ == "%Y-%m-%d"@ ==> r@ == date_text(v),
        pattern@ == "%H:%M:%S"@ ==> r@ == time_text(v),
{
    let n = NaiveDate::from_ymd_opt(v.year, v.month, v.day).unwrap()
        .and_hms_opt(v.hour, v.minute, v.second).unwrap();
    n.format(pattern).to_string()
}

/// `DateTime::<Utc>::to_rfc3339_opts` with whole seconds and `Z` for the
/// offset: the date, `T`, the time of day, `Z`.
#[verifier::external_body]
pub(crate) fn to_rfc3339_utc(v: CivilDateTime) -> (r: String)
    requires
        v.is_valid(),
    ensures
        r@ == timestamp_text(v),
{
    let n = NaiveDate::from_ymd_opt(v.year, v.month, v.day).unwrap()
        .and_hms_opt(v.hour, v.minute, v.second).unwrap();
    Utc.from_utc_datetime(&n).to_rfc3339_opts(SecondsFormat::Secs, true)
}

/// `Datelike::weekday` on a `NaiveDateTime`, written out with `{:?}`: the
/// short English name of the day of the week.
#[verifier::external_body]
pub(crate) fn weekday_name(v: CivilDateTime) -> (r: String)
    requires
        v.is_valid(),
    ensures
        r@ == weekday_text(weekday_index(v.year as int, v.month as int, v.day as int)),
{
    let n = NaiveDate::from_ymd_opt(v.year, v.month, v.day).unwrap()
        .and_hms_opt(v.hour, v.minute, v.second).unwrap();
    format!("{:?}", n.weekday())
}

/// `Utc::now` cut to its date: today in UTC at midnight. Which day that is
/// depends on the clock; chrono stops the program if the clock reads a time
/// before 1970.
#[verifier::external_body]
pub(crate) fn today_utc() -> (r: CivilDateTime)
    ensures
        r.is_valid(),
        r.hour == 0 && r.minute == 0 && r.second == 0,
{
    let d = Utc::now().date_naive();
    CivilDateTime { year: d.year(), month: d.month(), day: d.day(), hour: 0, minute: 0, second: 0 }
}

/// `console::style(text).bold()`, written out: `text` between the escape
/// sequences for bold and for reset, or `text` alone where console finds
/// that styling is switched off.
#[verifier::external_body]
pub(crate) fn emphasized(text: &str) -> (r: String)
    ensures
        shows_with(r@, '1', text@),
{
    style(text).bold().to_string()
}

/// `console::style(text).dim()`, written out: `text` between the escape
/// sequences for dim and for reset, or `text` alone where console finds
/// that styling is switched off.
#[verifier::external_body]
pub(crate) fn muted(text: &str) -> (r: String)
    ensures
        shows_with(r@, '2', text@),
{
    style(text).dim().to_string()
}

} // verus!
