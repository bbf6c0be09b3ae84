use chrono::{Datelike, NaiveDate};
use datetime_select::adjust::{
    decrement_day, decrement_hour, decrement_minute, decrement_month, decrement_second,
    decrement_year, increment_day, increment_hour, increment_minute, increment_month,
    increment_second, increment_year, shift_fits, step_down, step_up, try_step_down, try_step_up,
};
use datetime_select::calendar::{
    common_month_end, last_day_of_month, leap_year, MAX_YEAR, MIN_YEAR,
};
use datetime_select::{CivilDateTime, Field};

fn at(year: i32, month: u32, day: u32, hour: u32, minute: u32, second: u32) -> CivilDateTime {
    CivilDateTime::new(year, month, day, hour, minute, second).unwrap()
}

fn date(year: i32, month: u32, day: u32) -> CivilDateTime {
    at(year, month, day, 0, 0, 0)
}

fn is_leap(year: i32) -> bool {
    year.rem_euclid(4) == 0 && (year.rem_euclid(100) != 0 || year.rem_euclid(400) == 0)
}

fn month_length(year: i32, month: u32) -> u32 {
    match month {
        2 => {
            if is_leap(year) {
                29
            } else {
                28
            }
        }
        4 | 6 | 9 | 11 => 30,
        _ => 31,
    }
}

fn next_day(v: CivilDateTime) -> CivilDateTime {
    if v.day < month_length(v.year, v.month) {
        CivilDateTime { day: v.day + 1, ..v }
    } else if v.month < 12 {
        CivilDateTime { month: v.month + 1, day: 1, ..v }
    } else {
        CivilDateTime { year: v.year + 1, month: 1, day: 1, ..v }
    }
}

fn known_to_chrono(v: CivilDateTime) -> bool {
    match NaiveDate::from_ymd_opt(v.year, v.month, v.day) {
        Some(d) => d.and_hms_opt(v.hour, v.minute, v.second).is_some(),
        None => false,
    }
}

const FIELDS: [Field; 6] =
    [Field::Year, Field::Month, Field::Day, Field::Hour, Field::Minute, Field::Second];

#[test]
fn leap_years_follow_the_gregorian_rule() {
    assert!(leap_year(2020));
    assert!(!leap_year(2021));
    assert!(!leap_year(1900));
    assert!(leap_year(2000));
    assert!(leap_year(0));
    assert!(leap_year(-4));
    assert!(!leap_year(-1));
    assert!(!leap_year(-100));
    assert!(leap_year(-400));
}

#[test]
fn month_lengths() {
    let common = [31, 28, 31, 30, 31, 30, 31, 31, 30, 31, 30, 31];
    for month in 1..=12u32 {
        assert_eq!(common_month_end(month), common[month as usize - 1]);
        assert_eq!(last_day_of_month(2021, month), common[month as usize - 1]);
        let leap = if month == 2 { 29 } else { common[month as usize - 1] };
        assert_eq!(last_day_of_month(2020, month), leap);
    }
}

#[test]
fn new_accepts_exactly_the_days_of_the_calendar() {
    assert!(CivilDateTime::new(2020, 2, 29, 0, 0, 0).is_some());
    assert!(CivilDateTime::new(2019, 2, 29, 0, 0, 0).is_none());
    assert!(CivilDateTime::new(2019, 0, 1, 0, 0, 0).is_none());
    assert!(CivilDateTime::new(2019, 13, 1, 0, 0, 0).is_none());
    assert!(CivilDateTime::new(2019, 4, 31, 0, 0, 0).is_none());
    assert!(CivilDateTime::new(2019, 4, 0, 0, 0, 0).is_none());
    assert!(CivilDateTime::new(2019, 4, 30, 24, 0, 0).is_none());
    assert!(CivilDateTime::new(2019, 4, 30, 23, 60, 0).is_none());
    assert!(CivilDateTime::new(2019, 4, 30, 23, 59, 60).is_none());
    assert_eq!(
        CivilDateTime::new(2019, 4, 30, 23, 59, 59),
        Some(CivilDateTime { year: 2019, month: 4, day: 30, hour: 23, minute: 59, second: 59 })
    );
    assert!(CivilDateTime::new(MAX_YEAR, 12, 31, 23, 59, 59).is_some());
    assert!(CivilDateTime::new(MAX_YEAR + 1, 1, 1, 0, 0, 0).is_none());
    assert!(CivilDateTime::new(MIN_YEAR, 1, 1, 0, 0, 0).is_some());
    assert!(CivilDateTime::new(MIN_YEAR - 1, 12, 31, 0, 0, 0).is_none());
}

#[test]
fn supported_years_are_those_of_chrono() {
    assert_eq!(NaiveDate::MAX.year(), MAX_YEAR);
    assert_eq!(NaiveDate::MIN.year(), MIN_YEAR);
    assert!(NaiveDate::from_ymd_opt(MAX_YEAR, 12, 31).is_some());
    assert!(NaiveDate::from_ymd_opt(MAX_YEAR + 1, 1, 1).is_none());
    assert!(NaiveDate::from_ymd_opt(MIN_YEAR, 1, 1).is_some());
    assert!(NaiveDate::from_ymd_opt(MIN_YEAR - 1, 12, 31).is_none());
}

#[test]
fn validity_agrees_with_chrono() {
    for year in [-401, -400, -1, 0, 1, 1900, 2000, 2019, 2020, 2100] {
        for month in 0..=13u32 {
            for day in 0..=32u32 {
                let v = CivilDateTime { year, month, day, hour: 12, minute: 30, second: 30 };
                assert_eq!(v.is_valid(), known_to_chrono(v), "{:?}", v);
            }
        }
    }
    for (hour, minute, second) in [(24, 0, 0), (0, 60, 0), (0, 0, 60), (23, 59, 59), (0, 0, 0)] {
        let v = CivilDateTime { year: 2020, month: 1, day: 1, hour, minute, second };
        assert_eq!(v.is_valid(), known_to_chrono(v), "{:?}", v);
    }
}

#[test]
fn order_goes_by_fields_from_the_year_down() {
    let a = at(2020, 5, 17, 10, 20, 30);
    assert!(!a.is_before(a));
    assert!(a.not_after(a));
    for later in [
        at(2021, 1, 1, 0, 0, 0),
        at(2020, 6, 1, 0, 0, 0),
        at(2020, 5, 18, 0, 0, 0),
        at(2020, 5, 17, 11, 0, 0),
        at(2020, 5, 17, 10, 21, 0),
        at(2020, 5, 17, 10, 20, 31),
    ] {
        assert!(a.is_before(later));
        assert!(a.not_after(later));
        assert!(!later.is_before(a));
        assert!(!later.not_after(a));
    }
    assert!(at(-1, 12, 31, 23, 59, 59).is_before(at(0, 1, 1, 0, 0, 0)));
}

#[test]
fn year_steps_keep_month_and_day() {
    let v = at(2021, 3, 15, 7, 8, 9);
    assert_eq!(increment_year(v), at(2022, 3, 15, 7, 8, 9));
    assert_eq!(decrement_year(v), at(2020, 3, 15, 7, 8, 9));
    assert_eq!(increment_year(at(-1, 12, 31, 0, 0, 0)), at(0, 12, 31, 0, 0, 0));
    assert_eq!(decrement_year(at(0, 1, 1, 0, 0, 0)), at(-1, 1, 1, 0, 0, 0));
}

#[test]
fn year_steps_from_a_leap_day_land_on_february_28() {
    let leap_day = at(2020, 2, 29, 12, 0, 0);
    assert_eq!(increment_year(leap_day), at(2021, 2, 28, 12, 0, 0));
    assert_eq!(decrement_year(leap_day), at(2019, 2, 28, 12, 0, 0));
    // Four years on would be a leap year again, but one year on never is.
    assert_eq!(increment_year(at(2096, 2, 29, 0, 0, 0)), at(2097, 2, 28, 0, 0, 0));
    // February 28 before a leap year stays the 28th.
    assert_eq!(increment_year(at(2019, 2, 28, 0, 0, 0)), at(2020, 2, 28, 0, 0, 0));
}

#[test]
fn year_up_and_down_gives_the_value_back_except_on_a_leap_day() {
    for year in [-4, 0, 1899, 1900, 2000, 2019, 2020, 2021] {
        for month in 1..=12u32 {
            for day in 1..=month_length(year, month) {
                let v = at(year, month, day, 6, 7, 8);
                let back = decrement_year(increment_year(v));
                if month == 2 && day == 29 {
                    assert_eq!(back, at(year, 2, 28, 6, 7, 8));
                } else {
                    assert_eq!(back, v);
                }
            }
        }
    }
}

#[test]
fn month_steps_wrap_around_the_year() {
    assert_eq!(increment_month(at(2021, 12, 31, 1, 2, 3)), at(2022, 1, 31, 1, 2, 3));
    assert_eq!(decrement_month(at(2021, 1, 31, 1, 2, 3)), at(2020, 12, 31, 1, 2, 3));
    assert_eq!(increment_month(at(2021, 5, 17, 1, 2, 3)), at(2021, 6, 17, 1, 2, 3));
    assert_eq!(decrement_month(at(2021, 5, 17, 1, 2, 3)), at(2021, 4, 17, 1, 2, 3));
}

#[test]
fn month_steps_lower_the_day_to_the_end_of_a_shorter_month() {
    assert_eq!(increment_month(date(2021, 1, 31)), date(2021, 2, 28));
    assert_eq!(increment_month(date(2021, 1, 29)), date(2021, 2, 28));
    assert_eq!(increment_month(date(2020, 1, 31)), date(2020, 2, 29));
    assert_eq!(increment_month(date(2020, 1, 30)), date(2020, 2, 29));
    assert_eq!(increment_month(date(2020, 1, 29)), date(2020, 2, 29));
    assert_eq!(increment_month(date(2021, 3, 31)), date(2021, 4, 30));
    assert_eq!(increment_month(date(2021, 8, 31)), date(2021, 9, 30));
    assert_eq!(increment_month(date(2021, 7, 31)), date(2021, 8, 31));
    assert_eq!(decrement_month(date(2021, 3, 31)), date(2021, 2, 28));
    assert_eq!(decrement_month(date(2020, 3, 31)), date(2020, 2, 29));
    assert_eq!(decrement_month(date(2021, 5, 31)), date(2021, 4, 30));
    assert_eq!(decrement_month(date(2021, 8, 31)), date(2021, 7, 31));
}

#[test]
fn twelve_months_make_a_year_from_the_28th_or_before() {
    for year in [-1, 1999, 2019, 2020] {
        for month in 1..=12u32 {
            for day in [1, 15, 28] {
                let v = at(year, month, day, 23, 59, 59);
                let mut stepped = v;
                for _ in 0..12 {
                    stepped = increment_month(stepped);
                }
                assert_eq!(stepped, increment_year(v));
            }
        }
    }
    // From the 31st the day is lost on the way.
    let mut stepped = date(2021, 1, 31);
    for _ in 0..12 {
        stepped = increment_month(stepped);
    }
    assert_eq!(stepped, date(2022, 1, 28));
}

#[test]
fn day_steps_cross_months_and_years() {
    assert_eq!(increment_day(at(2021, 2, 28, 5, 6, 7)), at(2021, 3, 1, 5, 6, 7));
    assert_eq!(increment_day(at(2020, 2, 28, 5, 6, 7)), at(2020, 2, 29, 5, 6, 7));
    assert_eq!(increment_day(at(2020, 2, 29, 5, 6, 7)), at(2020, 3, 1, 5, 6, 7));
    assert_eq!(increment_day(at(2021, 12, 31, 5, 6, 7)), at(2022, 1, 1, 5, 6, 7));
    assert_eq!(decrement_day(at(2021, 3, 1, 5, 6, 7)), at(2021, 2, 28, 5, 6, 7));
    assert_eq!(decrement_day(at(2020, 3, 1, 5, 6, 7)), at(2020, 2, 29, 5, 6, 7));
    assert_eq!(decrement_day(at(2021, 1, 1, 5, 6, 7)), at(2020, 12, 31, 5, 6, 7));
    assert_eq!(decrement_day(at(0, 1, 1, 0, 0, 0)), at(-1, 12, 31, 0, 0, 0));
    assert_eq!(increment_day(at(1900, 2, 28, 0, 0, 0)), at(1900, 3, 1, 0, 0, 0));
    assert_eq!(increment_day(at(2000, 2, 28, 0, 0, 0)), at(2000, 2, 29, 0, 0, 0));
}

#[test]
fn clock_steps_carry_into_the_next_unit() {
    assert_eq!(increment_hour(at(2021, 5, 5, 10, 6, 7)), at(2021, 5, 5, 11, 6, 7));
    assert_eq!(increment_hour(at(2021, 12, 31, 23, 6, 7)), at(2022, 1, 1, 0, 6, 7));
    assert_eq!(decrement_hour(at(2021, 5, 5, 10, 6, 7)), at(2021, 5, 5, 9, 6, 7));
    assert_eq!(decrement_hour(at(2021, 3, 1, 0, 6, 7)), at(2021, 2, 28, 23, 6, 7));
    assert_eq!(increment_minute(at(2021, 5, 5, 10, 6, 7)), at(2021, 5, 5, 10, 7, 7));
    assert_eq!(increment_minute(at(2021, 5, 5, 23, 59, 7)), at(2021, 5, 6, 0, 0, 7));
    assert_eq!(decrement_minute(at(2021, 5, 5, 10, 6, 7)), at(2021, 5, 5, 10, 5, 7));
    assert_eq!(decrement_minute(at(2021, 5, 1, 0, 0, 7)), at(2021, 4, 30, 23, 59, 7));
    assert_eq!(increment_second(at(2021, 5, 5, 10, 6, 7)), at(2021, 5, 5, 10, 6, 8));
    assert_eq!(increment_second(at(2020, 2, 28, 23, 59, 59)), at(2020, 2, 29, 0, 0, 0));
    assert_eq!(increment_second(at(2021, 12, 31, 23, 59, 59)), at(2022, 1, 1, 0, 0, 0));
    assert_eq!(decrement_second(at(2021, 5, 5, 10, 6, 7)), at(2021, 5, 5, 10, 6, 6));
    assert_eq!(decrement_second(at(2021, 1, 1, 0, 0, 0)), at(2020, 12, 31, 23, 59, 59));
}

#[test]
fn day_steps_walk_through_every_day_in_order() {
    for (first, last) in [(-402, -398), (-2, 2), (1898, 1902), (1998, 2002), (2018, 2022)] {
        let mut v = at(first, 1, 1, 13, 14, 15);
        while v.year <= last {
            let next = increment_day(v);
            assert_eq!(next, next_day(v));
            assert_eq!(decrement_day(next), v);
            v = next;
        }
    }
}

#[test]
fn every_step_gives_a_valid_value() {
    let mut samples = Vec::new();
    for year in [-400, -1, 0, 1900, 2000, 2019, 2020] {
        for month in 1..=12u32 {
            for day in [1, 28, month_length(year, month)] {
                for (hour, minute, second) in [(0, 0, 0), (12, 30, 30), (23, 59, 59)] {
                    samples.push(at(year, month, day, hour, minute, second));
                }
            }
        }
    }
    for v in samples {
        for field in FIELDS {
            let up = step_up(field, v);
            assert!(up.is_valid(), "{:?} up from {:?}", field, v);
            assert!(known_to_chrono(up), "{:?} up from {:?}", field, v);
            assert!(v.is_before(up));
            let down = step_down(field, v);
            assert!(down.is_valid(), "{:?} down from {:?}", field, v);
            assert!(known_to_chrono(down), "{:?} down from {:?}", field, v);
            assert!(down.is_before(v));
            assert_eq!(try_step_up(field, v), Some(up));
            assert_eq!(try_step_down(field, v), Some(down));
        }
    }
}

#[test]
fn steps_by_field_are_the_named_steps() {
    let v = at(2020, 2, 29, 23, 59, 59);
    assert_eq!(step_up(Field::Year, v), increment_year(v));
    assert_eq!(step_up(Field::Month, v), increment_month(v));
    assert_eq!(step_up(Field::Day, v), increment_day(v));
    assert_eq!(step_up(Field::Hour, v), increment_hour(v));
    assert_eq!(step_up(Field::Minute, v), increment_minute(v));
    assert_eq!(step_up(Field::Second, v), increment_second(v));
    assert_eq!(step_down(Field::Year, v), decrement_year(v));
    assert_eq!(step_down(Field::Month, v), decrement_month(v));
    assert_eq!(step_down(Field::Day, v), decrement_day(v));
    assert_eq!(step_down(Field::Hour, v), decrement_hour(v));
    assert_eq!(step_down(Field::Minute, v), decrement_minute(v));
    assert_eq!(step_down(Field::Second, v), decrement_second(v));
    assert_eq!(step_up(Field::Month, v), at(2020, 3, 29, 23, 59, 59));
    assert_eq!(step_up(Field::Second, v), at(2020, 3, 1, 0, 0, 0));
}

#[test]
fn steps_stop_at_the_last_supported_second() {
    let last = at(MAX_YEAR, 12, 31, 23, 59, 59);
    for field in FIELDS {
        assert_eq!(try_step_up(field, last), None);
    }
    assert_eq!(try_step_down(Field::Second, last), Some(at(MAX_YEAR, 12, 31, 23, 59, 58)));

    let almost = at(MAX_YEAR, 12, 31, 23, 59, 58);
    assert_eq!(try_step_up(Field::Second, almost), Some(last));
    assert_eq!(try_step_up(Field::Minute, almost), None);
    assert_eq!(try_step_up(Field::Minute, at(MAX_YEAR, 12, 31, 23, 58, 59)), Some(last));
    assert_eq!(try_step_up(Field::Hour, at(MAX_YEAR, 12, 31, 22, 59, 59)), Some(last));
    assert_eq!(try_step_up(Field::Hour, at(MAX_YEAR, 12, 31, 23, 0, 0)), None);
    assert_eq!(try_step_up(Field::Day, at(MAX_YEAR, 12, 30, 23, 59, 59)), Some(last));
    assert_eq!(try_step_up(Field::Month, at(MAX_YEAR, 11, 30, 0, 0, 0)), Some(date(MAX_YEAR, 12, 30)));
    assert_eq!(try_step_up(Field::Month, date(MAX_YEAR, 12, 1)), None);
    assert_eq!(try_step_up(Field::Year, date(MAX_YEAR, 1, 1)), None);
    assert_eq!(try_step_up(Field::Year, date(MAX_YEAR - 1, 1, 1)), Some(date(MAX_YEAR, 1, 1)));
}

#[test]
fn steps_stop_at_the_first_supported_second() {
    let first = at(MIN_YEAR, 1, 1, 0, 0, 0);
    for field in FIELDS {
        assert_eq!(try_step_down(field, first), None);
    }
    assert_eq!(try_step_up(Field::Second, first), Some(at(MIN_YEAR, 1, 1, 0, 0, 1)));
    assert_eq!(try_step_down(Field::Second, at(MIN_YEAR, 1, 1, 0, 0, 1)), Some(first));
    assert_eq!(try_step_down(Field::Minute, at(MIN_YEAR, 1, 1, 0, 0, 59)), None);
    assert_eq!(try_step_down(Field::Minute, at(MIN_YEAR, 1, 1, 0, 1, 0)), Some(first));
    assert_eq!(try_step_down(Field::Hour, at(MIN_YEAR, 1, 1, 1, 0, 0)), Some(first));
    assert_eq!(try_step_down(Field::Day, at(MIN_YEAR, 1, 2, 0, 0, 0)), Some(first));
    assert_eq!(try_step_down(Field::Day, at(MIN_YEAR, 1, 1, 23, 0, 0)), None);
    assert_eq!(try_step_down(Field::Month, date(MIN_YEAR, 2, 1)), Some(first));
    assert_eq!(try_step_down(Field::Month, date(MIN_YEAR, 1, 31)), None);
    assert_eq!(try_step_down(Field::Year, date(MIN_YEAR, 6, 1)), None);
    assert_eq!(try_step_down(Field::Year, date(MIN_YEAR + 1, 6, 1)), Some(date(MIN_YEAR, 6, 1)));
}

#[test]
fn shift_fits_tells_what_stays_in_the_supported_years() {
    let last_day = at(MAX_YEAR, 12, 31, 12, 0, 0);
    assert!(shift_fits(last_day, 0));
    assert!(shift_fits(last_day, 43199));
    assert!(!shift_fits(last_day, 43200));
    assert!(shift_fits(last_day, -86400));
    let first_day = at(MIN_YEAR, 1, 1, 12, 0, 0);
    assert!(shift_fits(first_day, -43200));
    assert!(!shift_fits(first_day, -43201));
    assert!(shift_fits(first_day, 86400));
    assert!(shift_fits(at(2020, 1, 1, 0, 0, 0), 86400));
    assert!(shift_fits(at(2020, 1, 1, 0, 0, 0), -86400));
}
