//! Stepping a date-time by one unit of one field, never leaving the
//! calendar.

use crate::bridge::{plus_seconds, with_day, with_month, with_year};
use crate::calendar::{
    days_in_month, first_second, is_leap_year, is_representable, last_day_of_month, last_second,
    lemma_day_within_year, lemma_month_start, lemma_order_is_chronological,
    lemma_valid_is_representable, lemma_year_length, CivilDateTime, MAX_YEAR, MIN_YEAR,
};
use vstd::prelude::*;

verus! {

/// One year on: the same month and day, but February 28 where the source is
/// February 29 and the next year is a common year.
pub open spec fn year_after(v: CivilDateTime) -> CivilDateTime {
    let day = if v.month == 2 && v.day == 29 && !is_leap_year(v.year + 1) {
        28u32
    } else {
        v.day
    };
    CivilDateTime { year: (v.year + 1) as i32, day, ..v }
}

/// One year back: the same month and day, but February 28 where the source
/// is February 29 and the year before is a common year.
pub open spec fn year_before(v: CivilDateTime) -> CivilDateTime {
    let day = if v.month == 2 && v.day == 29 && !is_leap_year(v.year - 1) {
        28u32
    } else {
        v.day
    };
    CivilDateTime { year: (v.year - 1) as i32, day, ..v }
}

/// The day of the month kept on entering `month` of `year`: the same day,
/// or the last day of that month where it is shorter.
pub open spec fn day_kept(day: u32, year: int, month: int) -> u32 {
    if day <= days_in_month(year, month) {
        day
    } else {
        days_in_month(year, month) as u32
    }
}

/// One month on: December turns into January of the next year; the day is
/// kept, or lowered to the last day of the month entered.
pub open spec fn month_after(v: CivilDateTime) -> CivilDateTime {
    if v.month >= 12 {
        CivilDateTime { year: (v.year + 1) as i32, month: 1, ..v }
    } else {
        CivilDateTime {
            month: (v.month + 1) as u32,
            day: day_kept(v.day, v.year as int, v.month + 1),
            ..v
        }
    }
}

/// One month back: January turns into December of the year before; the day
/// is kept, or lowered to the last day of the month entered.
pub open spec fn month_before(v: CivilDateTime) -> CivilDateTime {
    if v.month <= 1 {
        CivilDateTime { year: (v.year - 1) as i32, month: 12, ..v }
    } else {
        CivilDateTime {
            month: (v.month - 1) as u32,
            day: day_kept(v.day, v.year as int, v.month - 1),
            ..v
        }
    }
}

/// Steps the year up by one.
pub fn increment_year(v: CivilDateTime) -> (r: CivilDateTime)
    requires
        v.is_valid(),
        v.year < MAX_YEAR,
    ensures
        r == year_after(v),
        r.is_valid(),
{
    match with_year(v, v.year + 1) {
        Some(r) => r,
        None => {
            // Only a leap day has no counterpart one year on.
            assert(v.month == 2 && v.day == 29);
            let eve = with_day(v, 28).unwrap();
            with_year(eve, v.year + 1).unwrap()
        },
    }
}

/// Steps the year down by one.
pub fn decrement_year(v: CivilDateTime) -> (r: CivilDateTime)
    requires
        v.is_valid(),
        v.year > MIN_YEAR,
    ensures
        r == year_before(v),
        r.is_valid(),
{
    match with_year(v, v.year - 1) {
        Some(r) => r,
        None => {
            // Only a leap day has no counterpart one year back.
            assert(v.month == 2 && v.day == 29);
            let eve = with_day(v, 28).unwrap();
            with_year(eve, v.year - 1).unwrap()
        },
    }
}

/// Steps the month up by one.
pub fn increment_month(v: CivilDateTime) -> (r: CivilDateTime)
    requires
        v.is_valid(),
        v.year < MAX_YEAR || v.month < 12,
    ensures
        r == month_after(v),
        r.is_valid(),
{
    let new_month: u32 = v.month + 1;
    if new_month > 12 {
        // December and January both have 31 days.
        let next = with_year(v, v.year + 1).unwrap();
        with_month(next, 1).unwrap()
    } else {
        match with_month(v, new_month) {
            Some(r) => r,
            None => {
                // The month entered is shorter than the day asks for.
                let last = last_day_of_month(v.year, new_month);
                assert(v.day > last);
                let lowered = with_day(v, last).unwrap();
                with_month(lowered, new_month).unwrap()
            },
        }
    }
}

/// Steps the month down by one.
pub fn decrement_month(v: CivilDateTime) -> (r: CivilDateTime)
    requires
        v.is_valid(),
        v.year > MIN_YEAR || v.month > 1,
    ensures
        r == month_before(v),
        r.is_valid(),
{
    let new_month: u32 = v.month - 1;
    if new_month < 1 {
        // December and January both have 31 days.
        let last = with_year(v, v.year - 1).unwrap();
        with_month(last, 12).unwrap()
    } else {
        match with_month(v, new_month) {
            Some(r) => r,
            None => {
                // The month entered is shorter than the day asks for.
                let last = last_day_of_month(v.year, new_month);
                assert(v.day > last);
                let lowered = with_day(v, last).unwrap();
                with_month(lowered, new_month).unwrap()
            },
        }
    }
}

/// The next day at the same time of day.
pub open spec fn day_after(v: CivilDateTime) -> CivilDateTime {
    if v.day < days_in_month(v.year as int, v.month as int) {
        CivilDateTime { day: (v.day + 1) as u32, ..v }
    } else if v.month < 12 {
        CivilDateTime { month: (v.month + 1) as u32, day: 1, ..v }
    } else {
        CivilDateTime { year: (v.year + 1) as i32, month: 1, day: 1, ..v }
    }
}

/// The day before at the same time of day.
pub open spec fn day_before(v: CivilDateTime) -> CivilDateTime {
    if v.day > 1 {
        CivilDateTime { day: (v.day - 1) as u32, ..v }
    } else if v.month > 1 {
        CivilDateTime {
            month: (v.month - 1) as u32,
            day: days_in_month(v.year as int, v.month - 1) as u32,
            ..v
        }
    } else {
        CivilDateTime { year: (v.year - 1) as i32, month: 12, day: 31, ..v }
    }
}

/// One hour on, passing midnight into the next day.
pub open spec fn hour_after(v: CivilDateTime) -> CivilDateTime {
    if v.hour < 23 {
        CivilDateTime { hour: (v.hour + 1) as u32, ..v }
    } else {
        CivilDateTime { hour: 0, ..day_after(v) }
    }
}

/// One hour back, passing midnight into the day before.
pub open spec fn hour_before(v: CivilDateTime) -> CivilDateTime {
    if v.hour > 0 {
        CivilDateTime { hour: (v.hour - 1) as u32, ..v }
    } else {
        CivilDateTime { hour: 23, ..day_before(v) }
    }
}

/// One minute on, passing the full hour into the next one.
pub open spec fn minute_after(v: CivilDateTime) -> CivilDateTime {
    if v.minute < 59 {
        CivilDateTime { minute: (v.minute + 1) as u32, ..v }
    } else {
        CivilDateTime { minute: 0, ..hour_after(v) }
    }
}

/// One minute back, passing the full hour into the one before.
pub open spec fn minute_before(v: CivilDateTime) -> CivilDateTime {
    if v.minute > 0 {
        CivilDateTime { minute: (v.minute - 1) as u32, ..v }
    } else {
        CivilDateTime { minute: 59, ..hour_before(v) }
    }
}

/// One second on, passing the full minute into the next one.
pub open spec fn second_after(v: CivilDateTime) -> CivilDateTime {
    if v.second < 59 {
        CivilDateTime { second: (v.second + 1) as u32, ..v }
    } else {
        CivilDateTime { second: 0, ..minute_after(v) }
    }
}

/// One second back, passing the full minute into the one before.
pub open spec fn second_before(v: CivilDateTime) -> CivilDateTime {
    if v.second > 0 {
        CivilDateTime { second: (v.second - 1) as u32, ..v }
    } else {
        CivilDateTime { second: 59, ..minute_before(v) }
    }
}

/// Whether the value `seconds` later than `v` lies within the supported
/// years.
pub open spec fn can_shift(v: CivilDateTime, seconds: int) -> bool {
    is_representable(v.second_number() + seconds)
}

/// Away from the first and the last supported year, a shift of up to a day
/// stays within the supported years.
pub proof fn lemma_inner_years_can_shift(v: CivilDateTime, seconds: int)
    requires
        v.is_valid(),
        MIN_YEAR < v.year < MAX_YEAR,
        -86400 <= seconds <= 86400,
    ensures
        can_shift(v, seconds),
{
    let before = CivilDateTime { year: (v.year - 1) as i32, month: 1, day: 1, ..v };
    let after = CivilDateTime { year: (v.year + 1) as i32, month: 12, day: 31, ..v };
    lemma_valid_is_representable(before);
    lemma_valid_is_representable(after);
    lemma_year_length(v.year - 1);
    lemma_year_length(v.year as int);
    lemma_year_length(v.year + 1);
    lemma_day_within_year(v.year as int, v.month as int, v.day as int);
}

/// Whether `v` falls on the last day of the last supported year.
pub open spec fn on_last_day(v: CivilDateTime) -> bool {
    v.year == MAX_YEAR && v.month == 12 && v.day == 31
}

/// Whether `v` falls on the first day of the first supported year.
pub open spec fn on_first_day(v: CivilDateTime) -> bool {
    v.year == MIN_YEAR && v.month == 1 && v.day == 1
}

/// The next day is 86400 seconds later, and is a day of the calendar unless
/// `v` falls on the last supported day.
pub proof fn lemma_day_after(v: CivilDateTime)
    requires
        v.is_valid(),
    ensures
        day_after(v).second_number() == v.second_number() + 86400,
        !on_last_day(v) ==> day_after(v).is_valid(),
        on_last_day(v) ==> v.second_number() - (v.hour * 3600 + v.minute * 60 + v.second)
            + 86400 == last_second() + 1,
{
    if v.day < days_in_month(v.year as int, v.month as int) {
    } else if v.month < 12 {
        lemma_month_start(v.year as int, v.month as int);
    } else {
        lemma_year_length(v.year as int);
    }
}

/// The day before is 86400 seconds earlier, and is a day of the calendar
/// unless `v` falls on the first supported day.
pub proof fn lemma_day_before(v: CivilDateTime)
    requires
        v.is_valid(),
    ensures
        day_before(v).second_number() == v.second_number() - 86400,
        !on_first_day(v) ==> day_before(v).is_valid(),
        on_first_day(v) ==> v.second_number() - (v.hour * 3600 + v.minute * 60 + v.second)
            == first_second(),
{
    if v.day > 1 {
    } else if v.month > 1 {
        lemma_month_start(v.year as int, v.month - 1);
    } else {
        lemma_year_length(v.year - 1);
    }
}

/// Each step forward adds its unit to the second number, and gives a valid
/// value wherever that sum lies within the supported years.
pub proof fn lemma_steps_forward(v: CivilDateTime)
    requires
        v.is_valid(),
    ensures
        day_after(v).second_number() == v.second_number() + 86400,
        hour_after(v).second_number() == v.second_number() + 3600,
        minute_after(v).second_number() == v.second_number() + 60,
        second_after(v).second_number() == v.second_number() + 1,
        can_shift(v, 86400) ==> day_after(v).is_valid(),
        can_shift(v, 3600) ==> hour_after(v).is_valid(),
        can_shift(v, 60) ==> minute_after(v).is_valid(),
        can_shift(v, 1) ==> second_after(v).is_valid(),
{
    lemma_day_after(v);
}

/// Each step back takes its unit from the second number, and gives a valid
/// value wherever that difference lies within the supported years.
pub proof fn lemma_steps_back(v: CivilDateTime)
    requires
        v.is_valid(),
    ensures
        day_before(v).second_number() == v.second_number() - 86400,
        hour_before(v).second_number() == v.second_number() - 3600,
        minute_before(v).second_number() == v.second_number() - 60,
        second_before(v).second_number() == v.second_number() - 1,
        can_shift(v, -86400) ==> day_before(v).is_valid(),
        can_shift(v, -3600) ==> hour_before(v).is_valid(),
        can_shift(v, -60) ==> minute_before(v).is_valid(),
        can_shift(v, -1) ==> second_before(v).is_valid(),
{
    lemma_day_before(v);
}

/// Steps to the next day.
pub fn increment_day(v: CivilDateTime) -> (r: CivilDateTime)
    requires
        v.is_valid(),
        can_shift(v, 86400),
    ensures
        r == day_after(v),
        r.is_valid(),
{
    let r = plus_seconds(v, 86400);
    proof {
        lemma_steps_forward(v);
        lemma_order_is_chronological(r, day_after(v));
    }
    r
}

/// Steps to the day before.
pub fn decrement_day(v: CivilDateTime) -> (r: CivilDateTime)
    requires
        v.is_valid(),
        can_shift(v, -86400),
    ensures
        r == day_before(v),
        r.is_valid(),
{
    let r = plus_seconds(v, -86400);
    proof {
        lemma_steps_back(v);
        lemma_order_is_chronological(r, day_before(v));
    }
    r
}

/// Steps one hour on.
pub fn increment_hour(v: CivilDateTime) -> (r: CivilDateTime)
    requires
        v.is_valid(),
        can_shift(v, 3600),
    ensures
        r == hour_after(v),
        r.is_valid(),
{
    let r = plus_seconds(v, 3600);
    proof {
        lemma_steps_forward(v);
        lemma_order_is_chronological(r, hour_after(v));
    }
    r
}

/// Steps one hour back.
pub fn decrement_hour(v: CivilDateTime) -> (r: CivilDateTime)
    requires
        v.is_valid(),
        can_shift(v, -3600),
    ensures
        r == hour_before(v),
        r.is_valid(),
{
    let r = plus_seconds(v, -3600);
    proof {
        lemma_steps_back(v);
        lemma_order_is_chronological(r, hour_before(v));
    }
    r
}

/// Steps one minute on.
pub fn increment_minute(v: CivilDateTime) -> (r: CivilDateTime)
    requires
        v.is_valid(),
        can_shift(v, 60),
    ensures
        r == minute_after(v),
        r.is_valid(),
{
    let r = plus_seconds(v, 60);
    proof {
        lemma_steps_forward(v);
        lemma_order_is_chronological(r, minute_after(v));
    }
    r
}

/// Steps one minute back.
pub fn decrement_minute(v: CivilDateTime) -> (r: CivilDateTime)
    requires
        v.is_valid(),
        can_shift(v, -60),
    ensures
        r == minute_before(v),
        r.is_valid(),
{
    let r = plus_seconds(v, -60);
    proof {
        lemma_steps_back(v);
        lemma_order_is_chronological(r, minute_before(v));
    }
    r
}

/// Steps one second on.
pub fn increment_second(v: CivilDateTime) -> (r: CivilDateTime)
    requires
        v.is_valid(),
        can_shift(v, 1),
    ensures
        r == second_after(v),
        r.is_valid(),
{
    let r = plus_seconds(v, 1);
    proof {
        lemma_steps_forward(v);
        lemma_order_is_chronological(r, second_after(v));
    }
    r
}

/// Steps one second back.
pub fn decrement_second(v: CivilDateTime) -> (r: CivilDateTime)
    requires
        v.is_valid(),
        can_shift(v, -1),
    ensures
        r == second_before(v),
        r.is_valid(),
{
    let r = plus_seconds(v, -1);
    proof {
        lemma_steps_back(v);
        lemma_order_is_chronological(r, second_before(v));
    }
    r
}

/// The fields of a date-time that can be stepped.
#[derive(Clone, Copy, Debug, PartialEq, Eq, Structural)]
pub enum Field {
    Year,
    Month,
    Day,
    Hour,
    Minute,
    Second,
}

/// `v` one unit of `field` on.
pub open spec fn stepped_up(field: Field, v: CivilDateTime) -> CivilDateTime {
    match field {
        Field::Year => year_after(v),
        Field::Month => month_after(v),
        Field::Day => day_after(v),
        Field::Hour => hour_after(v),
        Field::Minute => minute_after(v),
        Field::Second => second_after(v),
    }
}

/// `v` one unit of `field` back.
pub open spec fn stepped_down(field: Field, v: CivilDateTime) -> CivilDateTime {
    match field {
        Field::Year => year_before(v),
        Field::Month => month_before(v),
        Field::Day => day_before(v),
        Field::Hour => hour_before(v),
        Field::Minute => minute_before(v),
        Field::Second => second_before(v),
    }
}

/// Whether `v` one unit of `field` on still lies within the supported
/// years.
pub open spec fn can_step_up(field: Field, v: CivilDateTime) -> bool {
    match field {
        Field::Year => v.year < MAX_YEAR,
        Field::Month => v.year < MAX_YEAR || v.month < 12,
        Field::Day => can_shift(v, 86400),
        Field::Hour => can_shift(v, 3600),
        Field::Minute => can_shift(v, 60),
        Field::Second => can_shift(v, 1),
    }
}

/// Whether `v` one unit of `field` back still lies within the supported
/// years.
pub open spec fn can_step_down(field: Field, v: CivilDateTime) -> bool {
    match field {
        Field::Year => v.year > MIN_YEAR,
        Field::Month => v.year > MIN_YEAR || v.month > 1,
        Field::Day => can_shift(v, -86400),
        Field::Hour => can_shift(v, -3600),
        Field::Minute => can_shift(v, -60),
        Field::Second => can_shift(v, -1),
    }
}

/// Steps `v` one unit of `field` on.
pub fn step_up(field: Field, v: CivilDateTime) -> (r: CivilDateTime)
    requires
        v.is_valid(),
        can_step_up(field, v),
    ensures
        r == stepped_up(field, v),
        r.is_valid(),
{
    match field {
        Field::Year => increment_year(v),
        Field::Month => increment_month(v),
        Field::Day => increment_day(v),
        Field::Hour => increment_hour(v),
        Field::Minute => increment_minute(v),
        Field::Second => increment_second(v),
    }
}

/// Steps `v` one unit of `field` back.
pub fn step_down(field: Field, v: CivilDateTime) -> (r: CivilDateTime)
    requires
        v.is_valid(),
        can_step_down(field, v),
    ensures
        r == stepped_down(field, v),
        r.is_valid(),
{
    match field {
        Field::Year => decrement_year(v),
        Field::Month => decrement_month(v),
        Field::Day => decrement_day(v),
        Field::Hour => decrement_hour(v),
        Field::Minute => decrement_minute(v),
        Field::Second => decrement_second(v),
    }
}

/// Whether the value `seconds` later than `v` lies within the supported
/// years.
pub fn shift_fits(v: CivilDateTime, seconds: i64) -> (r: bool)
    requires
        v.is_valid(),
        -86400 <= seconds <= 86400,
    ensures
        r == can_shift(v, seconds as int),
{
    proof {
        lemma_day_after(v);
        lemma_day_before(v);
        lemma_valid_is_representable(v);
        if !on_last_day(v) {
            lemma_valid_is_representable(day_after(v));
        }
        if !on_first_day(v) {
            lemma_valid_is_representable(day_before(v));
        }
    }
    let time_of_day: i64 = v.hour as i64 * 3600 + v.minute as i64 * 60 + v.second as i64;
    if seconds >= 0 {
        !(v.year == MAX_YEAR && v.month == 12 && v.day == 31) || time_of_day + seconds < 86400
    } else {
        !(v.year == MIN_YEAR && v.month == 1 && v.day == 1) || time_of_day + seconds >= 0
    }
}

/// Steps `v` one unit of `field` on, or gives nothing where that would
/// lead past the supported years.
pub fn try_step_up(field: Field, v: CivilDateTime) -> (r: Option<CivilDateTime>)
    requires
        v.is_valid(),
    ensures
        r == (if can_step_up(field, v) {
            Some(stepped_up(field, v))
        } else {
            None
        }),
        r matches Some(w) ==> w.is_valid(),
{
    let fits = match field {
        Field::Year => v.year < MAX_YEAR,
        Field::Month => v.year < MAX_YEAR || v.month < 12,
        Field::Day => shift_fits(v, 86400),
        Field::Hour => shift_fits(v, 3600),
        Field::Minute => shift_fits(v, 60),
        Field::Second => shift_fits(v, 1),
    };
    if fits {
        Some(step_up(field, v))
    } else {
        None
    }
}

/// Steps `v` one unit of `field` back, or gives nothing where that would
/// lead before the supported years.
pub fn try_step_down(field: Field, v: CivilDateTime) -> (r: Option<CivilDateTime>)
    requires
        v.is_valid(),
    ensures
        r == (if can_step_down(field, v) {
            Some(stepped_down(field, v))
        } else {
            None
        }),
        r matches Some(w) ==> w.is_valid(),
{
    let fits = match field {
        Field::Year => v.year > MIN_YEAR,
        Field::Month => v.year > MIN_YEAR || v.month > 1,
        Field::Day => shift_fits(v, -86400),
        Field::Hour => shift_fits(v, -3600),
        Field::Minute => shift_fits(v, -60),
        Field::Second => shift_fits(v, -1),
    };
    if fits {
        Some(step_down(field, v))
    } else {
        None
    }
}

/// Away from the first and the last supported year every field can be
/// stepped both ways.
pub proof fn lemma_inner_years_can_step(field: Field, v: CivilDateTime)
    requires
        v.is_valid(),
        MIN_YEAR < v.year < MAX_YEAR,
    ensures
        can_step_up(field, v),
        can_step_down(field, v),
{
    lemma_inner_years_can_shift(v, 86400);
    lemma_inner_years_can_shift(v, 3600);
    lemma_inner_years_can_shift(v, 60);
    lemma_inner_years_can_shift(v, 1);
    lemma_inner_years_can_shift(v, -86400);
    lemma_inner_years_can_shift(v, -3600);
    lemma_inner_years_can_shift(v, -60);
    lemma_inner_years_can_shift(v, -1);
}

/// A step of a year leads from a valid value to a valid value.
pub proof fn lemma_year_steps_valid(v: CivilDateTime)
    requires
        v.is_valid(),
    ensures
        v.year < MAX_YEAR ==> year_after(v).is_valid(),
        v.year > MIN_YEAR ==> year_before(v).is_valid(),
{
}

/// A step of a month leads from a valid value to a valid value.
pub proof fn lemma_month_steps_valid(v: CivilDateTime)
    requires
        v.is_valid(),
    ensures
        v.year < MAX_YEAR || v.month < 12 ==> month_after(v).is_valid(),
        v.year > MIN_YEAR || v.month > 1 ==> month_before(v).is_valid(),
{
}

/// A step of any field, either way, leads from a valid value to a valid
/// value, as long as it stays within the supported years.
pub proof fn lemma_step_is_valid(field: Field, v: CivilDateTime)
    requires
        v.is_valid(),
    ensures
        can_step_up(field, v) ==> stepped_up(field, v).is_valid(),
        can_step_down(field, v) ==> stepped_down(field, v).is_valid(),
{
    match field {
        Field::Year => {
            lemma_year_steps_valid(v);
        },
        Field::Month => {
            lemma_month_steps_valid(v);
        },
        _ => {
            lemma_steps_forward(v);
            lemma_steps_back(v);
        },
    }
}

/// A year up and a year down again give the value back, except from a
/// February 29, which comes back as February 28 of its year.
pub proof fn lemma_year_up_and_down(v: CivilDateTime)
    requires
        v.is_valid(),
        v.year < MAX_YEAR,
    ensures
        year_before(year_after(v)) == if v.month == 2 && v.day == 29 {
            CivilDateTime { day: 28, ..v }
        } else {
            v
        },
{
}

/// `v` after `count` steps of one month.
pub open spec fn months_after(v: CivilDateTime, count: nat) -> CivilDateTime
    decreases count,
{
    if count == 0 {
        v
    } else {
        month_after(months_after(v, (count - 1) as nat))
    }
}

/// From the 28th or an earlier day, twelve steps of a month make one step
/// of a year.
pub proof fn lemma_twelve_months_make_a_year(v: CivilDateTime)
    requires
        v.is_valid(),
        v.day <= 28,
        v.year < MAX_YEAR,
    ensures
        months_after(v, 12) == year_after(v),
{
    reveal_with_fuel(months_after, 13);
}

} // verus!
