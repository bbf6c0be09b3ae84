//! The state of a selection in progress and what each key does to it.

use crate::adjust::{
    lemma_inner_years_can_step, lemma_step_is_valid, step_down, step_up, stepped_down,
    stepped_up, Field,
};
use crate::bridge::{
    format_with, to_rfc3339_utc, today_utc, with_day, with_hour, with_minute, with_month,
    with_second, with_year,
};
use crate::calendar::CivilDateTime;
use crate::display::{is_terminal_format, typed_string, typed_text, weekday_suffix};
use crate::range::{clamped, lemma_clamp_in_range};
use crate::select::{DateTimeSelect, DateType, Settings};
use crate::text::{date_text, time_text, timestamp_text};
use vstd::prelude::*;

verus! {

/// A key as it comes from the terminal.
#[derive(Clone, Copy, Debug, PartialEq, Eq, Structural)]
pub enum Key {
    Enter,
    ArrowLeft,
    ArrowRight,
    ArrowUp,
    ArrowDown,
    Backspace,
    Char(char),
    /// Any other key.
    Other,
}

/// What a key asks for.
#[derive(Clone, Copy, Debug, PartialEq, Eq, Structural)]
pub enum Command {
    /// End the selection with the value as it is.
    Confirm,
    /// Move the cursor to the next field.
    MoveNext,
    /// Move the cursor to the field before.
    MovePrevious,
    /// Step the field under the cursor up by one.
    StepUp,
    /// Step the field under the cursor down by one.
    StepDown,
    /// Type a digit into the field under the cursor.
    Digit(u32),
    /// Drop the digits typed so far.
    Discard,
    /// Take back the digit typed last.
    Erase,
    /// Do nothing.
    Ignore,
}

/// The value of a decimal digit character.
pub open spec fn digit_of(c: char) -> Option<u32> {
    if c == '0' {
        Some(0u32)
    } else if c == '1' {
        Some(1u32)
    } else if c == '2' {
        Some(2u32)
    } else if c == '3' {
        Some(3u32)
    } else if c == '4' {
        Some(4u32)
    } else if c == '5' {
        Some(5u32)
    } else if c == '6' {
        Some(6u32)
    } else if c == '7' {
        Some(7u32)
    } else if c == '8' {
        Some(8u32)
    } else if c == '9' {
        Some(9u32)
    } else {
        None
    }
}

/// What a key asks for: Enter confirms; the arrows, or `h`, `j`, `k` and
/// `l` in their place, move the cursor and step the field; a digit is
/// typed in; any other character drops what was typed; Backspace takes one
/// digit back.
pub open spec fn command_of(key: Key) -> Command {
    match key {
        Key::Enter => Command::Confirm,
        Key::ArrowRight => Command::MoveNext,
        Key::ArrowLeft => Command::MovePrevious,
        Key::ArrowUp => Command::StepUp,
        Key::ArrowDown => Command::StepDown,
        Key::Backspace => Command::Erase,
        Key::Other => Command::Ignore,
        Key::Char(c) => if c == 'l' {
            Command::MoveNext
        } else if c == 'h' {
            Command::MovePrevious
        } else if c == 'j' {
            Command::StepUp
        } else if c == 'k' {
            Command::StepDown
        } else {
            match digit_of(c) {
                Some(d) => Command::Digit(d),
                None => Command::Discard,
            }
        },
    }
}

/// The value of a decimal digit character.
pub fn to_digit(c: char) -> (r: Option<u32>)
    ensures
        r == digit_of(c),
        r matches Some(d) ==> d < 10,
{
    if c == '0' {
        Some(0)
    } else if c == '1' {
        Some(1)
    } else if c == '2' {
        Some(2)
    } else if c == '3' {
        Some(3)
    } else if c == '4' {
        Some(4)
    } else if c == '5' {
        Some(5)
    } else if c == '6' {
        Some(6)
    } else if c == '7' {
        Some(7)
    } else if c == '8' {
        Some(8)
    } else if c == '9' {
        Some(9)
    } else {
        None
    }
}

/// What a key asks for.
pub fn command_for(key: Key) -> (r: Command)
    ensures
        r == command_of(key),
        r matches Command::Digit(d) ==> d < 10,
{
    match key {
        Key::Enter => Command::Confirm,
        Key::ArrowRight => Command::MoveNext,
        Key::ArrowLeft => Command::MovePrevious,
        Key::ArrowUp => Command::StepUp,
        Key::ArrowDown => Command::StepDown,
        Key::Backspace => Command::Erase,
        Key::Other => Command::Ignore,
        Key::Char(c) => if c == 'l' {
            Command::MoveNext
        } else if c == 'h' {
            Command::MovePrevious
        } else if c == 'j' {
            Command::StepUp
        } else if c == 'k' {
            Command::StepDown
        } else {
            match to_digit(c) {
                Some(d) => Command::Digit(d),
                None => Command::Discard,
            }
        },
    }
}

/// `v` with `field` set to `number`, or `v` itself where that is no valid
/// value.
pub open spec fn with_field(v: CivilDateTime, field: Field, number: int) -> CivilDateTime {
    let edited = match field {
        Field::Year => CivilDateTime { year: number as i32, ..v },
        Field::Month => CivilDateTime { month: number as u32, ..v },
        Field::Day => CivilDateTime { day: number as u32, ..v },
        Field::Hour => CivilDateTime { hour: number as u32, ..v },
        Field::Minute => CivilDateTime { minute: number as u32, ..v },
        Field::Second => CivilDateTime { second: number as u32, ..v },
    };
    if edited.is_valid() {
        edited
    } else {
        v
    }
}

/// Sets `field` of `v` to `number`, or leaves `v` as it is where that
/// would be no valid value.
pub fn set_field(v: CivilDateTime, field: Field, number: u32) -> (r: CivilDateTime)
    requires
        v.is_valid(),
        number <= 9999,
    ensures
        r == with_field(v, field, number as int),
        r.is_valid(),
{
    let edited = match field {
        Field::Year => with_year(v, number as i32),
        Field::Month => with_month(v, number),
        Field::Day => with_day(v, number),
        Field::Hour => with_hour(v, number),
        Field::Minute => with_minute(v, number),
        Field::Second => with_second(v, number),
    };
    match edited {
        Some(w) => w,
        None => v,
    }
}

/// The number that four digits spell.
pub open spec fn four_digit_number(digits: Seq<u32>) -> int {
    digits[0] * 1000 + digits[1] * 100 + digits[2] * 10 + digits[3]
}

/// The number that two digits spell.
pub open spec fn two_digit_number(digits: Seq<u32>) -> int {
    digits[0] * 10 + digits[1]
}

/// A selection in progress.
pub struct Session {
    /// The value as picked so far.
    pub value: CivilDateTime,
    /// The position of the field under the cursor.
    pub pos: usize,
    /// The digits typed into that field so far.
    pub digits: Vec<u32>,
}

/// A selection in progress as plain values.
pub struct SessionState {
    pub value: CivilDateTime,
    pub pos: int,
    pub digits: Seq<u32>,
}

impl View for Session {
    type V = SessionState;

    open spec fn view(&self) -> SessionState {
        SessionState { value: self.value, pos: self.pos as int, digits: self.digits@ }
    }
}

impl Session {
    /// Whether the selection fits the settings.
    pub fn fits(&self, select: &DateTimeSelect) -> (r: bool)
        ensures
            r == self@.wf(select@),
    {
        let limit: usize = if self.pos == 0 && select.date_type != DateType::Time {
            3
        } else {
            1
        };
        if !(self.value.is_valid() && select.min.not_after(self.value) && self.value.not_after(
            select.max,
        ) && self.pos <= select.date_type.last_position() && self.digits.len() <= limit) {
            return false;
        }
        let mut i: usize = 0;
        while i < self.digits.len()
            invariant
                i <= self.digits.len(),
                forall|k: int| 0 <= k < i ==> self.digits[k] < 10,
            decreases self.digits.len() - i,
        {
            if self.digits[i] >= 10 {
                return false;
            }
            i += 1;
        }
        true
    }
}

/// How many digits may wait in a field for more to come: three in a year,
/// one elsewhere.
pub open spec fn pending_limit(date_type: DateType, pos: int) -> int {
    if pos == 0 && date_type != DateType::Time {
        3
    } else {
        1
    }
}

impl SessionState {
    /// Whether the state fits the settings: the value is valid and in
    /// range, the cursor is on a field, and the digits typed are digits
    /// that still wait for more.
    pub open spec fn wf(self, settings: Settings) -> bool {
        &&& self.value.is_valid()
        &&& settings.min.not_after(self.value)
        &&& self.value.not_after(settings.max)
        &&& 0 <= self.pos <= settings.date_type.last_index()
        &&& self.digits.len() <= pending_limit(settings.date_type, self.pos)
        &&& forall|i: int| 0 <= i < self.digits.len() ==> self.digits[i] < 10
    }

    /// The field under the cursor.
    pub open spec fn field(self, settings: Settings) -> Field {
        settings.date_type.fields()[self.pos]
    }

    /// The state with another value, brought into range, and no digits
    /// typed.
    pub open spec fn settled(self, settings: Settings, value: CivilDateTime) -> SessionState {
        SessionState {
            value: clamped(value, settings.min, settings.max),
            digits: seq![],
            ..self
        }
    }

    /// The state after a digit was typed. Four digits in a year and two
    /// digits in any other field are entered into the value; fewer wait for
    /// more.
    pub open spec fn typed(self, settings: Settings, digit: u32) -> SessionState {
        let digits = self.digits.push(digit);
        if self.pos == 0 && digits.len() == 4 {
            self.settled(settings, with_field(self.value, Field::Year, four_digit_number(digits)))
        } else if digits.len() == 2 && (self.pos > 0 || settings.date_type == DateType::Time) {
            self.settled(
                settings,
                with_field(self.value, self.field(settings), two_digit_number(digits)),
            )
        } else {
            SessionState {
                value: clamped(self.value, settings.min, settings.max),
                digits,
                ..self
            }
        }
    }

    /// The state after a command. The value is brought into range after
    /// every command but the confirming one.
    pub open spec fn after(self, settings: Settings, command: Command) -> SessionState {
        match command {
            Command::Confirm => self,
            Command::MoveNext => SessionState {
                pos: if self.pos == settings.date_type.last_index() {
                    0
                } else {
                    self.pos + 1
                },
                ..self.settled(settings, self.value)
            },
            Command::MovePrevious => SessionState {
                pos: if self.pos == 0 {
                    settings.date_type.last_index()
                } else {
                    self.pos - 1
                },
                ..self.settled(settings, self.value)
            },
            Command::StepUp => self.settled(settings, stepped_up(self.field(settings), self.value)),
            Command::StepDown => self.settled(
                settings,
                stepped_down(self.field(settings), self.value),
            ),
            Command::Digit(digit) => self.typed(settings, digit),
            Command::Discard => self.settled(settings, self.value),
            Command::Erase => SessionState {
                value: clamped(self.value, settings.min, settings.max),
                digits: if self.digits.len() > 0 {
                    self.digits.drop_last()
                } else {
                    self.digits
                },
                ..self
            },
            Command::Ignore => SessionState {
                value: clamped(self.value, settings.min, settings.max),
                ..self
            },
        }
    }
}

/// What a row of keys leads to: the text handed back at the first Enter, or
/// nothing if there is none.
pub open spec fn outcome(settings: Settings, state: SessionState, keys: Seq<Key>) -> Option<
    Seq<char>,
>
    decreases keys.len(),
{
    if keys.len() == 0 {
        None
    } else if command_of(keys[0]) is Confirm {
        Some(output_text(settings.date_type, state.value))
    } else {
        outcome(settings, state.after(settings, command_of(keys[0])), keys.drop_first())
    }
}

/// The state that a row of keys leads to: the one in which Enter was
/// pressed, or the one after the last key.
pub open spec fn state_after(settings: Settings, state: SessionState, keys: Seq<Key>)
    -> SessionState
    decreases keys.len(),
{
    if keys.len() == 0 || command_of(keys[0]) is Confirm {
        state
    } else {
        state_after(settings, state.after(settings, command_of(keys[0])), keys.drop_first())
    }
}

/// Moving on from the last field leads to the first one, and moving back
/// from the first field leads to the last one.
pub proof fn lemma_navigation_wraps(settings: Settings, state: SessionState)
    ensures
        state.pos == settings.date_type.last_index() ==> state.after(
            settings,
            Command::MoveNext,
        ).pos == 0,
        state.pos == 0 ==> state.after(settings, Command::MovePrevious).pos
            == settings.date_type.last_index(),
{
}

/// Moving the cursor keeps the value and drops the digits typed, and moving
/// on and back again leads to the same field.
pub proof fn lemma_navigation_returns(settings: Settings, state: SessionState)
    requires
        settings.wf(),
        state.wf(settings),
    ensures
        state.after(settings, Command::MoveNext).after(settings, Command::MovePrevious).pos
            == state.pos,
        state.after(settings, Command::MoveNext).value == state.value,
        state.after(settings, Command::MoveNext).digits.len() == 0,
        state.after(settings, Command::MovePrevious).value == state.value,
        state.after(settings, Command::MovePrevious).digits.len() == 0,
{
    lemma_clamp_in_range(state.value, settings.min, settings.max);
}

/// Four digits typed into the year, with nothing typed before, enter the
/// year they spell: the value takes that year if it has the same day, is
/// brought into range, and no digit is left waiting.
pub proof fn lemma_four_digits_enter_a_year(
    settings: Settings,
    state: SessionState,
    d0: u32,
    d1: u32,
    d2: u32,
    d3: u32,
)
    requires
        settings.wf(),
        state.wf(settings),
        settings.date_type != DateType::Time,
        state.pos == 0,
        state.digits.len() == 0,
        d0 < 10 && d1 < 10 && d2 < 10 && d3 < 10,
    ensures
        state.after(settings, Command::Digit(d0)).after(settings, Command::Digit(d1)).after(
            settings,
            Command::Digit(d2),
        ).after(settings, Command::Digit(d3)) == state.settled(
            settings,
            with_field(state.value, Field::Year, d0 * 1000 + d1 * 100 + d2 * 10 + d3),
        ),
{
    lemma_clamp_in_range(state.value, settings.min, settings.max);
    let one = state.after(settings, Command::Digit(d0));
    let two = one.after(settings, Command::Digit(d1));
    let three = two.after(settings, Command::Digit(d2));
    let four = three.after(settings, Command::Digit(d3));
    assert(one.digits =~= seq![d0]);
    assert(two.digits =~= seq![d0, d1]);
    assert(three.digits =~= seq![d0, d1, d2]);
    assert(three.digits.push(d3) =~= seq![d0, d1, d2, d3]);
    assert(four.digits =~= Seq::<u32>::empty());
}

/// Two digits typed into any field but the year, with nothing typed
/// before, enter the number they spell: the value takes it where that
/// gives a valid value and stays as it is where it does not, and no digit
/// is left waiting.
pub proof fn lemma_two_digits_enter_a_field(
    settings: Settings,
    state: SessionState,
    d0: u32,
    d1: u32,
)
    requires
        settings.wf(),
        state.wf(settings),
        state.pos > 0 || settings.date_type == DateType::Time,
        state.digits.len() == 0,
        d0 < 10 && d1 < 10,
    ensures
        state.after(settings, Command::Digit(d0)).after(settings, Command::Digit(d1))
            == state.settled(
            settings,
            with_field(state.value, state.field(settings), d0 * 10 + d1),
        ),
        with_field(state.value, state.field(settings), d0 * 10 + d1) == state.value
            ==> state.after(settings, Command::Digit(d0)).after(
            settings,
            Command::Digit(d1),
        ).value == state.value,
{
    lemma_clamp_in_range(state.value, settings.min, settings.max);
    let one = state.after(settings, Command::Digit(d0));
    let two = one.after(settings, Command::Digit(d1));
    assert(one.digits =~= seq![d0]);
    assert(one.digits.push(d1) =~= seq![d0, d1]);
    assert(two.digits =~= Seq::<u32>::empty());
}

/// Every command leads from a state that fits the settings to one that
/// does.
pub proof fn lemma_after_fits(settings: Settings, state: SessionState, command: Command)
    requires
        settings.wf(),
        state.wf(settings),
        command matches Command::Digit(d) ==> d < 10,
    ensures
        state.after(settings, command).wf(settings),
{
    let field = state.field(settings);
    lemma_inner_years_can_step(field, state.value);
    lemma_step_is_valid(field, state.value);
    lemma_clamp_in_range(state.value, settings.min, settings.max);
    lemma_clamp_in_range(stepped_up(field, state.value), settings.min, settings.max);
    lemma_clamp_in_range(stepped_down(field, state.value), settings.min, settings.max);
    if let Command::Digit(digit) = command {
        let digits = state.digits.push(digit);
        lemma_clamp_in_range(
            with_field(state.value, Field::Year, four_digit_number(digits)),
            settings.min,
            settings.max,
        );
        lemma_clamp_in_range(
            with_field(state.value, field, two_digit_number(digits)),
            settings.min,
            settings.max,
        );
    }
}

/// The text in which a chosen value is handed back: a date, a time of day,
/// or a timestamp in UTC.
pub open spec fn output_text(date_type: DateType, v: CivilDateTime) -> Seq<char> {
    match date_type {
        DateType::Date => date_text(v),
        DateType::Time => time_text(v),
        DateType::DateTime => timestamp_text(v),
    }
}

/// The state in which a selection starts from `first`.
pub open spec fn starting_state(settings: Settings, first: CivilDateTime) -> SessionState {
    SessionState {
        value: clamped(first, settings.min, settings.max),
        pos: 0,
        digits: seq![],
    }
}

/// What is shown of a selection in progress.
pub struct Frame {
    /// The value with the field under the cursor set off.
    pub line: String,
    /// The digits typed so far, where they are to be shown.
    pub typed: Option<String>,
}

impl DateTimeSelect {
    /// The text in which `val` is handed back.
    pub fn output(&self, val: CivilDateTime) -> (r: String)
        requires
            val.is_valid(),
        ensures
            r@ == output_text(self.date_type, val),
    {
        match self.date_type {
            DateType::Date => format_with(val, "%Y-%m-%d"),
            DateType::Time => format_with(val, "%H:%M:%S"),
            DateType::DateTime => to_rfc3339_utc(val),
        }
    }

    /// Starts a selection from the starting value that was set, or from
    /// `today` if none was.
    pub fn start_from(&self, today: CivilDateTime) -> (r: Session)
        requires
            self@.wf(),
            today.is_valid(),
        ensures
            r@ == starting_state(
                self@,
                match self.default {
                    Some(first) => first,
                    None => today,
                },
            ),
            r@.wf(self@),
    {
        let first = match self.default {
            Some(first) => first,
            None => today,
        };
        proof {
            lemma_clamp_in_range(first, self.min, self.max);
        }
        Session { value: self.check_date(first), pos: 0, digits: Vec::new() }
    }

    /// Starts a selection from the starting value that was set, or from
    /// today at midnight in UTC if none was.
    pub fn start(&self) -> (r: Session)
        requires
            self@.wf(),
        ensures
            r@.wf(self@),
            match self.default {
                Some(first) => r@ == starting_state(self@, first),
                None => exists|today: CivilDateTime|
                    today.is_valid() && today.hour == 0 && today.minute == 0 && today.second == 0
                        && r@ == #[trigger] starting_state(self@, today),
            },
    {
        match self.default {
            Some(first) => self.start_from(first),
            None => {
                let today = today_utc();
                self.start_from(today)
            },
        }
    }

    /// What is to be shown of a selection.
    pub fn frame(&self, session: &Session) -> (r: Frame)
        requires
            session.value.is_valid(),
            forall|i: int| 0 <= i < session.digits.len() ==> session.digits[i] < 10,
        ensures
            exists|fields: Seq<char>| #[trigger]
                is_terminal_format(fields, self.date_type, session.value, session.pos as int)
                    && r.line@ == fields + weekday_suffix(self.weekday, session.value),
            match r.typed {
                Some(text) => self.show_match && text@ == typed_text(session.digits@),
                None => !self.show_match,
            },
    {
        let line = self.status_line(session.value, session.pos);
        let typed = if self.show_match {
            Some(typed_string(&session.digits))
        } else {
            None
        };
        Frame { line, typed }
    }

    /// Carries out a command on a selection.
    pub fn apply(&self, session: &mut Session, command: Command)
        requires
            self@.wf(),
            old(session)@.wf(self@),
            command matches Command::Digit(d) ==> d < 10,
        ensures
            final(session)@ == old(session)@.after(self@, command),
            final(session)@.wf(self@),
    {
        let last = self.date_type.last_position();
        let ghost before = session@;
        proof {
            lemma_inner_years_can_step(before.field(self@), session.value);
            lemma_clamp_in_range(session.value, self.min, self.max);
        }
        match command {
            Command::Confirm => {
                return ;
            },
            Command::MoveNext => {
                session.pos = if session.pos == last {
                    0
                } else {
                    session.pos + 1
                };
                session.digits.clear();
            },
            Command::MovePrevious => {
                session.pos = if session.pos == 0 {
                    last
                } else {
                    session.pos - 1
                };
                session.digits.clear();
            },
            Command::StepUp => {
                session.value = step_up(self.date_type.field_at(session.pos), session.value);
                session.digits.clear();
            },
            Command::StepDown => {
                session.value = step_down(self.date_type.field_at(session.pos), session.value);
                session.digits.clear();
            },
            Command::Digit(digit) => {
                session.digits.push(digit);
                if session.pos == 0 && session.digits.len() == 4 {
                    let number: u32 = session.digits[0] * 1000 + session.digits[1] * 100
                        + session.digits[2] * 10 + session.digits[3];
                    session.value = set_field(session.value, Field::Year, number);
                    session.digits.clear();
                } else if session.digits.len() == 2 && (session.pos > 0 || self.date_type
                    == DateType::Time) {
                    let number: u32 = session.digits[0] * 10 + session.digits[1];
                    let field = self.date_type.field_at(session.pos);
                    session.value = set_field(session.value, field, number);
                    session.digits.clear();
                }
            },
            Command::Discard => {
                session.digits.clear();
            },
            Command::Erase => {
                session.digits.pop();
            },
            Command::Ignore => {},
        }
        proof {
            lemma_clamp_in_range(session.value, self.min, self.max);
        }
        session.value = self.check_date(session.value);
        assert(session@.digits =~= before.after(self@, command).digits);
    }

    /// Handles a row of keys, up to the first Enter, and hands back the
    /// text if Enter was among them.
    pub fn run_keys(&self, session: &mut Session, keys: &Vec<Key>) -> (r: Option<String>)
        requires
            self@.wf(),
            old(session)@.wf(self@),
        ensures
            final(session)@ == state_after(self@, old(session)@, keys@),
            final(session)@.wf(self@),
            match r {
                Some(text) => outcome(self@, old(session)@, keys@) == Some(text@),
                None => outcome(self@, old(session)@, keys@) is None,
            },
    {
        let ghost first = session@;
        let mut i: usize = 0;
        assert(keys@.skip(0) =~= keys@);
        while i < keys.len()
            invariant
                i <= keys.len(),
                first == old(session)@,
                self@.wf(),
                session@.wf(self@),
                outcome(self@, first, keys@) == outcome(self@, session@, keys@.skip(i as int)),
                state_after(self@, first, keys@) == state_after(
                    self@,
                    session@,
                    keys@.skip(i as int),
                ),
            decreases keys.len() - i,
        {
            let ghost rest = keys@.skip(i as int);
            assert(rest[0] == keys[i as int]);
            assert(rest.drop_first() =~= keys@.skip(i + 1));
            let done = self.handle_key(session, keys[i]);
            if done.is_some() {
                return done;
            }
            i += 1;
        }
        assert(keys@.skip(i as int).len() == 0);
        None
    }

    /// Handles a key: on Enter the selection ends and the value is handed
    /// back as text; any other key changes the selection and hands back
    /// nothing.
    pub fn handle_key(&self, session: &mut Session, key: Key) -> (r: Option<String>)
        requires
            self@.wf(),
            old(session)@.wf(self@),
        ensures
            final(session)@ == old(session)@.after(self@, command_of(key)),
            final(session)@.wf(self@),
            match r {
                Some(text) => command_of(key) is Confirm && text@ == output_text(
                    self.date_type,
                    old(session).value,
                ),
                None => !(command_of(key) is Confirm),
            },
    {
        let command = command_for(key);
        match command {
            Command::Confirm => Some(self.output(session.value)),
            _ => {
                self.apply(session, command);
                None
            },
        }
    }
}

} // verus!
