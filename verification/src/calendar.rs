//! The proleptic Gregorian calendar on plain integers: which field
//! combinations are dates, how dates are ordered, and how they are counted.

use vstd::prelude::*;

verus! {

/// The earliest year a [`CivilDateTime`] may carry.
pub const MIN_YEAR: i32 = -262_143;

/// The latest year a [`CivilDateTime`] may carry.
pub const MAX_YEAR: i32 = 262_142;

/// Whether `year` has a February 29.
pub open spec fn is_leap_year(year: int) -> bool {
    year % 4 == 0 && (year % 100 != 0 || year % 400 == 0)
}

/// The length of a month in a common year, for `month` in `1..=12`.
pub open spec fn month_end_day(month: int) -> int {
    if month == 2 {
        28
    } else if month == 4 || month == 6 || month == 9 || month == 11 {
        30
    } else {
        31
    }
}

/// The length of `month` in `year`.
pub open spec fn days_in_month(year: int, month: int) -> int {
    if month == 2 && is_leap_year(year) {
        29
    } else {
        month_end_day(month)
    }
}

/// Whether year, month and day name a day of the calendar within the
/// supported years.
pub open spec fn is_calendar_date(year: int, month: int, day: int) -> bool {
    &&& MIN_YEAR <= year <= MAX_YEAR
    &&& 1 <= month <= 12
    &&& 1 <= day <= days_in_month(year, month)
}

/// Whether hour, minute and second name a second of a day.
pub open spec fn is_clock_time(hour: int, minute: int, second: int) -> bool {
    0 <= hour < 24 && 0 <= minute < 60 && 0 <= second < 60
}

/// The number of days from January 1 of year 0 to January 1 of `year`.
pub open spec fn days_before_year(year: int) -> int {
    365 * year + (year + 3) / 4 - (year + 99) / 100 + (year + 399) / 400
}

/// The number of days of `year` that lie before the first of `month`.
pub open spec fn days_before_month(year: int, month: int) -> int {
    let common: int = if month <= 1 {
        0
    } else if month == 2 {
        31
    } else if month == 3 {
        59
    } else if month == 4 {
        90
    } else if month == 5 {
        120
    } else if month == 6 {
        151
    } else if month == 7 {
        181
    } else if month == 8 {
        212
    } else if month == 9 {
        243
    } else if month == 10 {
        273
    } else if month == 11 {
        304
    } else {
        334
    };
    if month > 2 && is_leap_year(year) {
        common + 1
    } else {
        common
    }
}

/// The number of days from January 1 of year 0 to the given day.
pub open spec fn day_number(year: int, month: int, day: int) -> int {
    days_before_year(year) + days_before_month(year, month) + day - 1
}

/// The day of the week of the given day, counted from Monday as 0 to Sunday
/// as 6.
pub open spec fn weekday_index(year: int, month: int, day: int) -> int {
    (day_number(year, month, day) + 5) % 7
}

/// The second number of the first second of [`MIN_YEAR`].
pub open spec fn first_second() -> int {
    days_before_year(MIN_YEAR as int) * 86400
}

/// The second number of the last second of [`MAX_YEAR`].
pub open spec fn last_second() -> int {
    days_before_year(MAX_YEAR + 1) * 86400 - 1
}

/// Whether a second number lies within the supported years.
pub open spec fn is_representable(second_number: int) -> bool {
    first_second() <= second_number <= last_second()
}

/// Whether `year` has a February 29.
pub fn leap_year(year: i32) -> (r: bool)
    ensures
        r == is_leap_year(year as int),
{
    year % 4 == 0 && (year % 100 != 0 || year % 400 == 0)
}

/// The last day of `month` in a common year.
pub fn common_month_end(month: u32) -> (r: u32)
    requires
        1 <= month <= 12,
    ensures
        r == month_end_day(month as int),
{
    if month == 2 {
        28
    } else if month == 4 || month == 6 || month == 9 || month == 11 {
        30
    } else {
        31
    }
}

/// The last day of `month` in `year`.
pub fn last_day_of_month(year: i32, month: u32) -> (r: u32)
    requires
        1 <= month <= 12,
    ensures
        r == days_in_month(year as int, month as int),
{
    if month == 2 && leap_year(year) {
        29
    } else {
        common_month_end(month)
    }
}

/// A date and a time of day without a time zone, to the second.
#[derive(Clone, Copy, Debug, PartialEq, Eq, Structural)]
pub struct CivilDateTime {
    pub year: i32,
    pub month: u32,
    pub day: u32,
    pub hour: u32,
    pub minute: u32,
    pub second: u32,
}

impl CivilDateTime {
    /// Whether the fields name a second of a day of the calendar.
    pub open spec fn spec_is_valid(self) -> bool {
        &&& is_calendar_date(self.year as int, self.month as int, self.day as int)
        &&& is_clock_time(self.hour as int, self.minute as int, self.second as int)
    }

    /// The number of seconds from the start of year 0 to this value.
    pub open spec fn second_number(self) -> int {
        day_number(self.year as int, self.month as int, self.day as int) * 86400
            + self.hour * 3600 + self.minute * 60 + self.second
    }

    /// Whether `self` is strictly earlier than `other`, field by field from the year down.
    pub open spec fn spec_is_before(self, other: Self) -> bool {
        if self.year != other.year {
            self.year < other.year
        } else if self.month != other.month {
            self.month < other.month
        } else if self.day != other.day {
            self.day < other.day
        } else if self.hour != other.hour {
            self.hour < other.hour
        } else if self.minute != other.minute {
            self.minute < other.minute
        } else {
            self.second < other.second
        }
    }

    /// Whether `self` is `other` or earlier.
    pub open spec fn spec_not_after(self, other: Self) -> bool {
        self == other || self.spec_is_before(other)
    }

    /// Whether the fields name a second of a day of the calendar.
    #[verifier::when_used_as_spec(spec_is_valid)]
    pub fn is_valid(self) -> (r: bool)
        ensures
            r == self.spec_is_valid(),
    {
        MIN_YEAR <= self.year && self.year <= MAX_YEAR && 1 <= self.month && self.month <= 12
            && 1 <= self.day && self.day <= last_day_of_month(self.year, self.month)
            && self.hour < 24 && self.minute < 60 && self.second < 60
    }

    /// The value with the given fields, if they name a second of a day of
    /// the calendar.
    pub fn new(year: i32, month: u32, day: u32, hour: u32, minute: u32, second: u32) -> (r:
        Option<CivilDateTime>)
        ensures
            r == (if (CivilDateTime { year, month, day, hour, minute, second }).is_valid() {
                Some(CivilDateTime { year, month, day, hour, minute, second })
            } else {
                None
            }),
    {
        let v = CivilDateTime { year, month, day, hour, minute, second };
        if v.is_valid() {
            Some(v)
        } else {
            None
        }
    }

    /// Whether `self` is strictly earlier than `other`.
    #[verifier::when_used_as_spec(spec_is_before)]
    pub fn is_before(self, other: Self) -> (r: bool)
        ensures
            r == self.spec_is_before(other),
    {
        if self.year != other.year {
            self.year < other.year
        } else if self.month != other.month {
            self.month < other.month
        } else if self.day != other.day {
            self.day < other.day
        } else if self.hour != other.hour {
            self.hour < other.hour
        } else if self.minute != other.minute {
            self.minute < other.minute
        } else {
            self.second < other.second
        }
    }

    /// Whether `self` is `other` or earlier.
    #[verifier::when_used_as_spec(spec_not_after)]
    pub fn not_after(self, other: Self) -> (r: bool)
        ensures
            r == self.spec_not_after(other),
    {
        !other.is_before(self)
    }
}

/// Rounding `year / 4` up grows by one exactly after a multiple of 4.
proof fn lemma_fourth_step(year: int)
    ensures
        (year + 4) / 4 - (year + 3) / 4 == if year % 4 == 0 {
            1int
        } else {
            0int
        },
{
}

/// Rounding `year / 100` up grows by one exactly after a multiple of 100.
proof fn lemma_hundredth_step(year: int)
    ensures
        (year + 100) / 100 - (year + 99) / 100 == if year % 100 == 0 {
            1int
        } else {
            0int
        },
{
}

/// Rounding `year / 400` up grows by one exactly after a multiple of 400.
proof fn lemma_four_hundredth_step(year: int)
    ensures
        (year + 400) / 400 - (year + 399) / 400 == if year % 400 == 0 {
            1int
        } else {
            0int
        },
{
}

/// A multiple of 400 is a multiple of 100, and a multiple of 100 one of 4.
proof fn lemma_century_multiples(year: int)
    ensures
        year % 400 == 0 ==> year % 100 == 0,
        year % 100 == 0 ==> year % 4 == 0,
{
}

/// A year is 365 days long, or 366 if it is a leap year.
pub proof fn lemma_year_length(year: int)
    ensures
        days_before_year(year + 1) - days_before_year(year) == if is_leap_year(year) {
            366int
        } else {
            365int
        },
{
    lemma_fourth_step(year);
    lemma_hundredth_step(year);
    lemma_four_hundredth_step(year);
    lemma_century_multiples(year);
}

/// Later years start on later days, at least 365 days apart per year.
pub proof fn lemma_days_before_year_grows(earlier: int, later: int)
    requires
        earlier <= later,
    ensures
        days_before_year(later) - days_before_year(earlier) >= 365 * (later - earlier),
    decreases later - earlier,
{
    if earlier < later {
        lemma_days_before_year_grows(earlier, later - 1);
        lemma_year_length(later - 1);
    }
}

/// A month starts where the month before it ends.
pub proof fn lemma_month_start(year: int, month: int)
    requires
        1 <= month < 12,
    ensures
        days_before_month(year, month + 1) == days_before_month(year, month) + days_in_month(
            year,
            month,
        ),
{
}

/// A day of the calendar falls within its own year.
pub proof fn lemma_day_within_year(year: int, month: int, day: int)
    requires
        1 <= month <= 12,
        1 <= day <= days_in_month(year, month),
    ensures
        days_before_year(year) <= day_number(year, month, day) < days_before_year(year + 1),
{
    lemma_year_length(year);
}

/// Every valid value lies within the supported seconds.
pub proof fn lemma_valid_is_representable(v: CivilDateTime)
    requires
        v.is_valid(),
    ensures
        is_representable(v.second_number()),
{
    lemma_day_within_year(v.year as int, v.month as int, v.day as int);
    lemma_days_before_year_grows(MIN_YEAR as int, v.year as int);
    lemma_days_before_year_grows(v.year + 1, MAX_YEAR + 1);
}

/// For valid values the field-by-field order is the order of the second
/// numbers, so two valid values with one second number are equal.
pub proof fn lemma_order_is_chronological(a: CivilDateTime, b: CivilDateTime)
    requires
        a.is_valid(),
        b.is_valid(),
    ensures
        a.is_before(b) <==> a.second_number() < b.second_number(),
        a == b <==> a.second_number() == b.second_number(),
{
    lemma_day_within_year(a.year as int, a.month as int, a.day as int);
    lemma_day_within_year(b.year as int, b.month as int, b.day as int);
    if a.year < b.year {
        lemma_days_before_year_grows(a.year + 1, b.year as int);
    } else if b.year < a.year {
        lemma_days_before_year_grows(b.year + 1, a.year as int);
    }
}

} // verus!
