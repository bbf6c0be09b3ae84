use datetime_select::text::{digit_str, push_decimal, signed_string, two_digit_string};
use datetime_select::{CivilDateTime, DateTimeSelect, DateType};

fn at(year: i32, month: u32, day: u32, hour: u32, minute: u32, second: u32) -> CivilDateTime {
    CivilDateTime::new(year, month, day, hour, minute, second).unwrap()
}

fn output(date_type: DateType, v: CivilDateTime) -> String {
    let mut select = DateTimeSelect::new();
    select.date_type(date_type);
    select.output(v)
}

#[test]
fn digits_are_their_characters() {
    let all = ["0", "1", "2", "3", "4", "5", "6", "7", "8", "9"];
    for digit in 0..10u32 {
        assert_eq!(digit_str(digit), all[digit as usize]);
    }
}

#[test]
fn two_digit_strings_are_zero_padded() {
    assert_eq!(two_digit_string(0), "00");
    assert_eq!(two_digit_string(5), "05");
    assert_eq!(two_digit_string(10), "10");
    assert_eq!(two_digit_string(59), "59");
    assert_eq!(two_digit_string(99), "99");
    for n in 0..100u32 {
        assert_eq!(two_digit_string(n), format!("{:02}", n));
    }
}

#[test]
fn signed_strings_are_plain_decimal() {
    assert_eq!(signed_string(0), "0");
    assert_eq!(signed_string(7), "7");
    assert_eq!(signed_string(10), "10");
    assert_eq!(signed_string(2024), "2024");
    assert_eq!(signed_string(-1), "-1");
    assert_eq!(signed_string(-262143), "-262143");
    assert_eq!(signed_string(i32::MAX), "2147483647");
    assert_eq!(signed_string(i32::MIN), "-2147483648");
    for n in [-12345, -100, -99, -10, -9, 9, 99, 100, 101, 999, 1000, 9999, 10000, 262142] {
        assert_eq!(signed_string(n), format!("{}", n));
    }
}

#[test]
fn push_decimal_appends() {
    let mut out = String::from("n=");
    push_decimal(&mut out, 0);
    assert_eq!(out, "n=0");
    push_decimal(&mut out, 4096);
    assert_eq!(out, "n=04096");
    push_decimal(&mut out, u32::MAX);
    assert_eq!(out, "n=040964294967295");
}

#[test]
fn a_date_is_handed_back_as_year_month_day() {
    assert_eq!(output(DateType::Date, at(2020, 2, 20, 2, 20, 25)), "2020-02-20");
    assert_eq!(output(DateType::Date, at(2024, 12, 5, 0, 0, 0)), "2024-12-05");
    assert_eq!(output(DateType::Date, at(999, 1, 1, 0, 0, 0)), "0999-01-01");
    assert_eq!(output(DateType::Date, at(5, 10, 31, 0, 0, 0)), "0005-10-31");
    assert_eq!(output(DateType::Date, at(0, 1, 1, 0, 0, 0)), "0000-01-01");
    assert_eq!(output(DateType::Date, at(9999, 12, 31, 0, 0, 0)), "9999-12-31");
}

#[test]
fn a_year_outside_four_digits_is_signed() {
    assert_eq!(output(DateType::Date, at(10000, 1, 1, 0, 0, 0)), "+10000-01-01");
    assert_eq!(output(DateType::Date, at(262142, 12, 31, 0, 0, 0)), "+262142-12-31");
    assert_eq!(output(DateType::Date, at(-1, 3, 4, 0, 0, 0)), "-0001-03-04");
    assert_eq!(output(DateType::Date, at(-45, 3, 4, 0, 0, 0)), "-0045-03-04");
    assert_eq!(output(DateType::Date, at(-456, 3, 4, 0, 0, 0)), "-0456-03-04");
    assert_eq!(output(DateType::Date, at(-4567, 3, 4, 0, 0, 0)), "-4567-03-04");
    assert_eq!(output(DateType::Date, at(-262143, 1, 1, 0, 0, 0)), "-262143-01-01");
    assert_eq!(output(DateType::DateTime, at(10000, 1, 1, 0, 0, 0)), "+10000-01-01T00:00:00Z");
    assert_eq!(output(DateType::DateTime, at(-45, 3, 4, 5, 6, 7)), "-0045-03-04T05:06:07Z");
}

#[test]
fn a_time_is_handed_back_as_hour_minute_second() {
    assert_eq!(output(DateType::Time, at(2020, 2, 20, 2, 20, 25)), "02:20:25");
    assert_eq!(output(DateType::Time, at(2020, 2, 20, 0, 0, 0)), "00:00:00");
    assert_eq!(output(DateType::Time, at(2020, 2, 20, 23, 59, 59)), "23:59:59");
}

#[test]
fn a_date_and_time_is_handed_back_as_a_timestamp_in_utc() {
    assert_eq!(output(DateType::DateTime, at(2024, 3, 5, 14, 30, 0)), "2024-03-05T14:30:00Z");
    assert_eq!(output(DateType::DateTime, at(7, 1, 2, 3, 4, 5)), "0007-01-02T03:04:05Z");
    assert_eq!(output(DateType::DateTime, at(9999, 12, 31, 23, 59, 59)), "9999-12-31T23:59:59Z");
}
