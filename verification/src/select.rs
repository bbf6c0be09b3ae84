//! What a selection is set up with: which fields are picked, the range the
//! value is held in, and what is shown.

use crate::adjust::Field;
use crate::bridge::{parse_rfc3339_local, rfc3339_local};
use crate::calendar::{CivilDateTime, MAX_YEAR, MIN_YEAR};
use crate::range::{clamp, clamped};
use vstd::prelude::*;

verus! {

/// The possible kinds of selection.
#[derive(Clone, Copy, Debug, PartialEq, Eq, Structural)]
pub enum DateType {
    Date,
    Time,
    DateTime,
}

impl DateType {
    /// The fields that are picked, in the order in which they are shown.
    pub open spec fn fields(self) -> Seq<Field> {
        match self {
            DateType::Date => seq![Field::Year, Field::Month, Field::Day],
            DateType::Time => seq![Field::Hour, Field::Minute, Field::Second],
            DateType::DateTime => seq![
                Field::Year,
                Field::Month,
                Field::Day,
                Field::Hour,
                Field::Minute,
                Field::Second,
            ],
        }
    }

    /// The position of the last field.
    pub open spec fn last_index(self) -> int {
        self.fields().len() - 1
    }

    /// The position of the last field.
    pub fn last_position(self) -> (r: usize)
        ensures
            r == self.last_index(),
    {
        match self {
            DateType::Date => 2,
            DateType::Time => 2,
            DateType::DateTime => 5,
        }
    }

    /// The field at a position.
    pub fn field_at(self, pos: usize) -> (r: Field)
        requires
            pos <= self.last_index(),
        ensures
            r == self.fields()[pos as int],
    {
        match self {
            DateType::Date => if pos == 0 {
                Field::Year
            } else if pos == 1 {
                Field::Month
            } else {
                Field::Day
            },
            DateType::Time => if pos == 0 {
                Field::Hour
            } else if pos == 1 {
                Field::Minute
            } else {
                Field::Second
            },
            DateType::DateTime => if pos == 0 {
                Field::Year
            } else if pos == 1 {
                Field::Month
            } else if pos == 2 {
                Field::Day
            } else if pos == 3 {
                Field::Hour
            } else if pos == 4 {
                Field::Minute
            } else {
                Field::Second
            },
        }
    }
}

/// Why a setting was turned down.
#[derive(Clone, Copy, Debug, PartialEq, Eq, Structural)]
pub enum ConfigError {
    /// The text is not an RFC 3339 timestamp.
    NotRfc3339,
    /// The maximum would lie before the minimum.
    MaxBelowMin,
}

impl ConfigError {
    /// What went wrong, in words.
    pub fn message(self) -> (r: &'static str)
        ensures
            r@ == (match self {
                ConfigError::NotRfc3339 => "date format must match rfc3339"@,
                ConfigError::MaxBelowMin => "maximum must be larger than minimum"@,
            }),
    {
        match self {
            ConfigError::NotRfc3339 => "date format must match rfc3339",
            ConfigError::MaxBelowMin => "maximum must be larger than minimum",
        }
    }
}

/// The settings of a date-time selection.
///
/// The prompt is optional and not shown by default. The weekday that is
/// displayed can be turned off. The starting value, the minimum and the
/// maximum are given as RFC 3339 timestamps.
pub struct DateTimeSelect {
    pub prompt: Option<String>,
    pub default: Option<CivilDateTime>,
    pub weekday: bool,
    pub date_type: DateType,
    pub min: CivilDateTime,
    pub max: CivilDateTime,
    pub clear: bool,
    pub show_match: bool,
}

/// The settings of a selection as plain values.
pub struct Settings {
    pub prompt: Option<Seq<char>>,
    pub default: Option<CivilDateTime>,
    pub weekday: bool,
    pub date_type: DateType,
    pub min: CivilDateTime,
    pub max: CivilDateTime,
    pub clear: bool,
    pub show_match: bool,
}

impl Settings {
    /// Whether the bounds are valid, in order, and away from the first and
    /// the last supported year, and the starting value, if any, is valid.
    pub open spec fn wf(self) -> bool {
        &&& self.min.is_valid()
        &&& self.max.is_valid()
        &&& self.min.not_after(self.max)
        &&& MIN_YEAR < self.min.year
        &&& self.max.year < MAX_YEAR
        &&& (self.default matches Some(v) ==> v.is_valid())
    }
}

impl View for DateTimeSelect {
    type V = Settings;

    open spec fn view(&self) -> Settings {
        Settings {
            prompt: match self.prompt {
                Some(text) => Some(text@),
                None => None,
            },
            default: self.default,
            weekday: self.weekday,
            date_type: self.date_type,
            min: self.min,
            max: self.max,
            clear: self.clear,
            show_match: self.show_match,
        }
    }
}

impl DateTimeSelect {
    /// Settings for picking a date and time between the start of year 0 and
    /// the end of year 9999, starting today, with the weekday shown.
    pub fn new() -> (r: DateTimeSelect)
        ensures
            r@ == (Settings {
                prompt: None,
                default: None,
                weekday: true,
                date_type: DateType::DateTime,
                min: CivilDateTime { year: 0, month: 1, day: 1, hour: 0, minute: 0, second: 0 },
                max: CivilDateTime {
                    year: 9999,
                    month: 12,
                    day: 31,
                    hour: 23,
                    minute: 59,
                    second: 59,
                },
                clear: true,
                show_match: false,
            }),
            r@.wf(),
    {
        DateTimeSelect {
            prompt: None,
            default: None,
            weekday: true,
            date_type: DateType::DateTime,
            min: CivilDateTime { year: 0, month: 1, day: 1, hour: 0, minute: 0, second: 0 },
            max: CivilDateTime { year: 9999, month: 12, day: 31, hour: 23, minute: 59, second: 59 },
            clear: true,
            show_match: false,
        }
    }

    /// Whether the settings are well-formed, as a selection needs them.
    pub fn is_well_formed(&self) -> (r: bool)
        ensures
            r == self@.wf(),
    {
        let default_valid = match self.default {
            Some(v) => v.is_valid(),
            None => true,
        };
        self.min.is_valid() && self.max.is_valid() && self.min.not_after(self.max) && MIN_YEAR
            < self.min.year && self.max.year < MAX_YEAR && default_valid
    }

    /// Sets the prompt.
    pub fn with_prompt(&mut self, prompt: &str) -> (r: &mut Self)
        ensures
            (*r)@ == (Settings { prompt: Some(prompt@), ..old(self)@ }),
            *final(self) == *final(r),
    {
        self.prompt = Some(prompt.to_owned());
        self
    }

    /// Sets whether to show the weekday.
    pub fn weekday(&mut self, val: bool) -> (r: &mut Self)
        ensures
            (*r)@ == (Settings { weekday: val, ..old(self)@ }),
            *final(self) == *final(r),
    {
        self.weekday = val;
        self
    }

    /// Brings `val` into the range from the minimum to the maximum.
    pub fn check_date(&self, val: CivilDateTime) -> (r: CivilDateTime)
        ensures
            r == clamped(val, self.min, self.max),
    {
        clamp(val, self.min, self.max)
    }

    /// Sets the value to start with, given as an RFC 3339 timestamp. It is
    /// brought into range when the selection starts.
    pub fn default(&mut self, datetime: &str) -> (r: &mut Self)
        requires
            rfc3339_local(datetime@) is Some,
        ensures
            (*r)@ == (Settings { default: rfc3339_local(datetime@), ..old(self)@ }),
            old(self)@.wf() ==> (*r)@.wf(),
            *final(self) == *final(r),
    {
        let parsed = parse_rfc3339_local(datetime);
        self.default = Some(parsed.unwrap());
        self
    }

    /// Sets the value to start with, if `datetime` is an RFC 3339
    /// timestamp, and says so if it is not.
    pub fn try_default(&mut self, datetime: &str) -> (r: Result<(), ConfigError>)
        ensures
            match rfc3339_local(datetime@) {
                Some(v) => r == Ok::<(), ConfigError>(()) && final(self)@ == (Settings {
                    default: Some(v),
                    ..old(self)@
                }),
                None => r == Err::<(), ConfigError>(ConfigError::NotRfc3339) && *final(self)
                    == *old(self),
            },
            old(self)@.wf() ==> final(self)@.wf(),
    {
        match parse_rfc3339_local(datetime) {
            Some(_) => {
                self.default(datetime);
                Ok(())
            },
            None => Err(ConfigError::NotRfc3339),
        }
    }

    /// Sets which fields are picked.
    pub fn date_type(&mut self, val: DateType) -> (r: &mut Self)
        ensures
            (*r)@ == (Settings { date_type: val, ..old(self)@ }),
            *final(self) == *final(r),
    {
        self.date_type = val;
        self
    }

    /// Sets the minimum, given as an RFC 3339 timestamp that does not lie
    /// after the maximum.
    pub fn min(&mut self, val: &str) -> (r: &mut Self)
        requires
            rfc3339_local(val@) matches Some(v) && v.not_after(old(self).max),
        ensures
            (*r)@ == (Settings { min: rfc3339_local(val@).unwrap(), ..old(self)@ }),
            old(self)@.wf() ==> (*r)@.wf(),
            *final(self) == *final(r),
    {
        let parsed = parse_rfc3339_local(val);
        self.min = parsed.unwrap();
        self
    }

    /// Sets the minimum, if `val` is an RFC 3339 timestamp that does not
    /// lie after the maximum, and says so if it is not.
    pub fn try_min(&mut self, val: &str) -> (r: Result<(), ConfigError>)
        ensures
            match rfc3339_local(val@) {
                Some(v) => if v.not_after(old(self).max) {
                    r == Ok::<(), ConfigError>(()) && final(self)@ == (Settings {
                        min: v,
                        ..old(self)@
                    })
                } else {
                    r == Err::<(), ConfigError>(ConfigError::MaxBelowMin) && *final(self) == *old(
                        self,
                    )
                },
                None => r == Err::<(), ConfigError>(ConfigError::NotRfc3339) && *final(self)
                    == *old(self),
            },
            old(self)@.wf() ==> final(self)@.wf(),
    {
        match parse_rfc3339_local(val) {
            Some(v) => {
                if v.not_after(self.max) {
                    self.min(val);
                    Ok(())
                } else {
                    Err(ConfigError::MaxBelowMin)
                }
            },
            None => Err(ConfigError::NotRfc3339),
        }
    }

    /// Sets the maximum, given as an RFC 3339 timestamp that does not lie
    /// before the minimum.
    pub fn max(&mut self, val: &str) -> (r: &mut Self)
        requires
            rfc3339_local(val@) matches Some(v) && old(self).min.not_after(v),
        ensures
            (*r)@ == (Settings { max: rfc3339_local(val@).unwrap(), ..old(self)@ }),
            old(self)@.wf() ==> (*r)@.wf(),
            *final(self) == *final(r),
    {
        let parsed = parse_rfc3339_local(val);
        self.max = parsed.unwrap();
        self
    }

    /// Sets the maximum, if `val` is an RFC 3339 timestamp that does not
    /// lie before the minimum, and says so if it is not.
    pub fn try_max(&mut self, val: &str) -> (r: Result<(), ConfigError>)
        ensures
            match rfc3339_local(val@) {
                Some(v) => if old(self).min.not_after(v) {
                    r == Ok::<(), ConfigError>(()) && final(self)@ == (Settings {
                        max: v,
                        ..old(self)@
                    })
                } else {
                    r == Err::<(), ConfigError>(ConfigError::MaxBelowMin) && *final(self) == *old(
                        self,
                    )
                },
                None => r == Err::<(), ConfigError>(ConfigError::NotRfc3339) && *final(self)
                    == *old(self),
            },
            old(self)@.wf() ==> final(self)@.wf(),
    {
        match parse_rfc3339_local(val) {
            Some(v) => {
                if self.min.not_after(v) {
                    self.max(val);
                    Ok(())
                } else {
                    Err(ConfigError::MaxBelowMin)
                }
            },
            None => Err(ConfigError::NotRfc3339),
        }
    }

    /// Sets whether what was shown is cleared from the terminal at the end.
    pub fn clear(&mut self, val: bool) -> (r: &mut Self)
        ensures
            (*r)@ == (Settings { clear: val, ..old(self)@ }),
            *final(self) == *final(r),
    {
        self.clear = val;
        self
    }

    /// Sets whether the digits typed so far are shown.
    pub fn show_match(&mut self, val: bool) -> (r: &mut Self)
        ensures
            (*r)@ == (Settings { show_match: val, ..old(self)@ }),
            *final(self) == *final(r),
    {
        self.show_match = val;
        self
    }
}

} // verus!
