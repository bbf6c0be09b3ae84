use chrono::{Datelike, NaiveDate};
use datetime_select::display::{field_string, join_fields, separator_str, typed_string};
use datetime_select::{CivilDateTime, DateTimeSelect, DateType, Field};

fn at(year: i32, month: u32, day: u32, hour: u32, minute: u32, second: u32) -> CivilDateTime {
    CivilDateTime::new(year, month, day, hour, minute, second).unwrap()
}

fn plain(date_type: DateType) -> DateTimeSelect {
    console::set_colors_enabled(false);
    let mut select = DateTimeSelect::new();
    select.date_type(date_type);
    select
}

#[test]
fn separators_stand_before_their_fields() {
    assert_eq!(separator_str(Field::Year), "");
    assert_eq!(separator_str(Field::Month), "-");
    assert_eq!(separator_str(Field::Day), "-");
    assert_eq!(separator_str(Field::Hour), " ");
    assert_eq!(separator_str(Field::Minute), ":");
    assert_eq!(separator_str(Field::Second), ":");
}

#[test]
fn fields_are_shown_as_numbers() {
    let v = at(987, 6, 5, 4, 3, 2);
    assert_eq!(field_string(v, Field::Year), "987");
    assert_eq!(field_string(v, Field::Month), "06");
    assert_eq!(field_string(v, Field::Day), "05");
    assert_eq!(field_string(v, Field::Hour), "04");
    assert_eq!(field_string(v, Field::Minute), "03");
    assert_eq!(field_string(v, Field::Second), "02");
    assert_eq!(field_string(at(-12, 11, 30, 23, 59, 58), Field::Year), "-12");
    assert_eq!(field_string(at(-12, 11, 30, 23, 59, 58), Field::Second), "58");
}

#[test]
fn fields_are_joined_by_their_separators() {
    let three = vec!["a".to_owned(), "b".to_owned(), "c".to_owned()];
    assert_eq!(join_fields(DateType::Date, &three), "a-b-c");
    assert_eq!(join_fields(DateType::Time, &three), "a:b:c");
    let six: Vec<String> = ["1", "2", "3", "4", "5", "6"].iter().map(|s| s.to_string()).collect();
    assert_eq!(join_fields(DateType::DateTime, &six), "1-2-3 4:5:6");
    let empty = vec![String::new(), String::new(), String::new()];
    assert_eq!(join_fields(DateType::Date, &empty), "--");
}

#[test]
fn terminal_format_without_styling_is_the_bare_line() {
    let v = at(2024, 3, 5, 14, 30, 0);
    for pos in 0..3 {
        assert_eq!(plain(DateType::Date).terminal_format(v, pos), "2024-03-05");
        assert_eq!(plain(DateType::Time).terminal_format(v, pos), "14:30:00");
    }
    for pos in 0..6 {
        assert_eq!(plain(DateType::DateTime).terminal_format(v, pos), "2024-03-05 14:30:00");
    }
    assert_eq!(plain(DateType::Date).terminal_format(at(33, 1, 2, 0, 0, 0), 0), "33-01-02");
}

#[test]
fn status_line_names_the_weekday() {
    let select = plain(DateType::Date);
    assert_eq!(select.status_line(at(2024, 3, 4, 0, 0, 0), 0), "2024-03-04, Mon");
    assert_eq!(select.status_line(at(2024, 3, 5, 0, 0, 0), 0), "2024-03-05, Tue");
    assert_eq!(select.status_line(at(2024, 3, 6, 0, 0, 0), 0), "2024-03-06, Wed");
    assert_eq!(select.status_line(at(1970, 1, 1, 0, 0, 0), 0), "1970-01-01, Thu");
    assert_eq!(select.status_line(at(2024, 3, 8, 0, 0, 0), 0), "2024-03-08, Fri");
    assert_eq!(select.status_line(at(2000, 1, 1, 0, 0, 0), 0), "2000-01-01, Sat");
    assert_eq!(select.status_line(at(2024, 3, 10, 0, 0, 0), 0), "2024-03-10, Sun");
    assert_eq!(select.status_line(at(0, 1, 1, 0, 0, 0), 0), "0-01-01, Sat");
    assert_eq!(select.status_line(at(-1, 12, 31, 0, 0, 0), 0), "-1-12-31, Fri");

    let select = plain(DateType::DateTime);
    assert_eq!(select.status_line(at(2024, 3, 5, 14, 30, 0), 4), "2024-03-05 14:30:00, Tue");
    let select = plain(DateType::Time);
    assert_eq!(select.status_line(at(2024, 3, 5, 14, 30, 0), 1), "14:30:00, Tue");
}

#[test]
fn status_line_leaves_the_weekday_out_when_asked_to() {
    let mut select = plain(DateType::Date);
    select.weekday(false);
    assert_eq!(select.status_line(at(2024, 3, 5, 0, 0, 0), 0), "2024-03-05");
}

#[test]
fn weekdays_repeat_every_seven_days() {
    let names = ["Mon", "Tue", "Wed", "Thu", "Fri", "Sat", "Sun"];
    let select = plain(DateType::Date);
    for (year, month, day) in
        [(-400, 2, 29), (-1, 1, 1), (0, 12, 31), (1600, 2, 29), (1900, 3, 1), (2024, 2, 29), (9999, 12, 31)]
    {
        let known = NaiveDate::from_ymd_opt(year, month, day).unwrap().weekday();
        let line = select.status_line(at(year, month, day, 0, 0, 0), 0);
        let name = names[known.num_days_from_monday() as usize];
        assert!(line.ends_with(&format!(", {}", name)), "{} should end in {}", line, name);
    }
}

#[test]
fn typed_digits_are_shown_in_a_row() {
    assert_eq!(typed_string(&vec![]), "");
    assert_eq!(typed_string(&vec![7]), "7");
    assert_eq!(typed_string(&vec![2, 0, 2]), "202");
    assert_eq!(typed_string(&vec![0, 1, 2, 3, 4, 5, 6, 7, 8, 9]), "0123456789");
}
