//! The line that shows a value while it is being picked: its fields as
//! text, the field under the cursor set off from the others, joined by the
//! usual separators.

use crate::adjust::Field;
use crate::bridge::{emphasized, muted, weekday_name};
use crate::calendar::{weekday_index, CivilDateTime};
use crate::select::{DateTimeSelect, DateType};
use crate::text::{
    digit_char, digit_str, shows_with, signed_string, signed_text, two_digit_string, two_digits,
    weekday_text,
};
use vstd::prelude::*;
use vstd::string::StringExecFns;

verus! {

/// A field of `v` as it is shown: the year as it is, the others as two
/// digits.
pub open spec fn field_text(v: CivilDateTime, field: Field) -> Seq<char> {
    match field {
        Field::Year => signed_text(v.year as int),
        Field::Month => two_digits(v.month as int),
        Field::Day => two_digits(v.day as int),
        Field::Hour => two_digits(v.hour as int),
        Field::Minute => two_digits(v.minute as int),
        Field::Second => two_digits(v.second as int),
    }
}

/// What stands between a field and the one shown before it.
pub open spec fn separator_before(field: Field) -> Seq<char> {
    match field {
        Field::Year => seq![],
        Field::Month => seq!['-'],
        Field::Day => seq!['-'],
        Field::Hour => seq![' '],
        Field::Minute => seq![':'],
        Field::Second => seq![':'],
    }
}

/// The texts `parts`, one for each of `fields`, in a line: every text but
/// the first follows the separator of its field.
pub open spec fn joined(fields: Seq<Field>, parts: Seq<Seq<char>>) -> Seq<char>
    decreases fields.len(),
{
    if fields.len() == 0 {
        seq![]
    } else if fields.len() == 1 {
        parts.last()
    } else {
        joined(fields.drop_last(), parts.drop_last()) + separator_before(fields.last())
            + parts.last()
    }
}

/// The contents of some strings.
pub open spec fn texts(parts: Seq<String>) -> Seq<Seq<char>> {
    Seq::new(parts.len(), |i: int| parts[i]@)
}

/// The terminal attribute of the field at `index` when the cursor is at
/// `pos`: bold under the cursor, dim elsewhere.
pub open spec fn attribute_at(index: int, pos: int) -> char {
    if index == pos {
        '1'
    } else {
        '2'
    }
}

/// Whether `parts` are the fields of `v` that `date_type` picks, each shown
/// with its attribute.
pub open spec fn are_styled_fields(
    parts: Seq<Seq<char>>,
    date_type: DateType,
    v: CivilDateTime,
    pos: int,
) -> bool {
    &&& parts.len() == date_type.fields().len()
    &&& forall|i: int|
        0 <= i < parts.len() ==> shows_with(
            #[trigger] parts[i],
            attribute_at(i, pos),
            field_text(v, date_type.fields()[i]),
        )
}

/// Whether `out` is a line that shows `v` with the cursor at `pos`.
pub open spec fn is_terminal_format(
    out: Seq<char>,
    date_type: DateType,
    v: CivilDateTime,
    pos: int,
) -> bool {
    exists|parts: Seq<Seq<char>>| #[trigger]
        are_styled_fields(parts, date_type, v, pos) && out == joined(date_type.fields(), parts)
}

/// What follows the fields on the line: a comma and the name of the
/// weekday, if it is to be shown.
pub open spec fn weekday_suffix(shown: bool, v: CivilDateTime) -> Seq<char> {
    if shown {
        seq![',', ' '] + weekday_text(weekday_index(v.year as int, v.month as int, v.day as int))
    } else {
        seq![]
    }
}

/// The digits typed so far as text.
pub open spec fn typed_text(digits: Seq<u32>) -> Seq<char> {
    Seq::new(digits.len(), |i: int| digit_char(digits[i] as int))
}

/// The separator that stands before a field.
pub fn separator_str(field: Field) -> (r: &'static str)
    ensures
        r@ == separator_before(field),
{
    proof {
        reveal_strlit("");
        reveal_strlit("-");
        reveal_strlit(" ");
        reveal_strlit(":");
    }
    let r = match field {
        Field::Year => "",
        Field::Month => "-",
        Field::Day => "-",
        Field::Hour => " ",
        Field::Minute => ":",
        Field::Second => ":",
    };
    assert(r@ =~= separator_before(field));
    r
}

/// A field of `v` as text.
pub fn field_string(v: CivilDateTime, field: Field) -> (r: String)
    requires
        v.is_valid(),
    ensures
        r@ == field_text(v, field),
{
    match field {
        Field::Year => signed_string(v.year),
        Field::Month => two_digit_string(v.month),
        Field::Day => two_digit_string(v.day),
        Field::Hour => two_digit_string(v.hour),
        Field::Minute => two_digit_string(v.minute),
        Field::Second => two_digit_string(v.second),
    }
}

/// Joins the texts of the fields that `date_type` picks into a line.
pub fn join_fields(date_type: DateType, parts: &Vec<String>) -> (r: String)
    requires
        parts.len() == date_type.fields().len(),
    ensures
        r@ == joined(date_type.fields(), texts(parts@)),
{
    let ghost fields = date_type.fields();
    let ghost all = texts(parts@);
    let mut out = String::new();
    let mut i: usize = 0;
    while i < parts.len()
        invariant
            i <= parts.len(),
            parts.len() == fields.len(),
            fields == date_type.fields(),
            all == texts(parts@),
            out@ == joined(fields.take(i as int), all.take(i as int)),
        decreases parts.len() - i,
    {
        let field = date_type.field_at(i);
        if i > 0 {
            out.append(separator_str(field));
        }
        out.append(parts[i].as_str());
        proof {
            let seen = fields.take(i + 1);
            let shown = all.take(i + 1);
            assert(seen.drop_last() =~= fields.take(i as int));
            assert(shown.drop_last() =~= all.take(i as int));
            assert(seen.last() == fields[i as int]);
            assert(shown.last() == parts[i as int]@);
            assert(out@ =~= joined(seen, shown));
        }
        i += 1;
    }
    assert(fields.take(i as int) =~= fields);
    assert(all.take(i as int) =~= all);
    out
}

impl DateTimeSelect {
    /// The fields of `val` in a line, the one at `pos` in bold and the
    /// others dim.
    pub fn terminal_format(&self, val: CivilDateTime, pos: usize) -> (r: String)
        requires
            val.is_valid(),
        ensures
            is_terminal_format(r@, self.date_type, val, pos as int),
    {
        let count: usize = self.date_type.last_position() + 1;
        let mut parts: Vec<String> = Vec::new();
        let mut i: usize = 0;
        while i < count
            invariant
                i <= count,
                count == self.date_type.fields().len(),
                val.is_valid(),
                parts.len() == i,
                forall|k: int|
                    0 <= k < i ==> shows_with(
                        #[trigger] parts[k]@,
                        attribute_at(k, pos as int),
                        field_text(val, self.date_type.fields()[k]),
                    ),
            decreases count - i,
        {
            let plain = field_string(val, self.date_type.field_at(i));
            let styled = if i == pos {
                emphasized(plain.as_str())
            } else {
                muted(plain.as_str())
            };
            parts.push(styled);
            i += 1;
        }
        let r = join_fields(self.date_type, &parts);
        assert(are_styled_fields(texts(parts@), self.date_type, val, pos as int));
        r
    }

    /// The line that shows `val` with the cursor at `pos`: the fields,
    /// followed by the weekday if it is to be shown.
    pub fn status_line(&self, val: CivilDateTime, pos: usize) -> (r: String)
        requires
            val.is_valid(),
        ensures
            exists|fields: Seq<char>| #[trigger]
                is_terminal_format(fields, self.date_type, val, pos as int) && r@ == fields
                    + weekday_suffix(self.weekday, val),
    {
        let mut line = self.terminal_format(val, pos);
        let ghost fields = line@;
        if self.weekday {
            proof {
                reveal_strlit(", ");
            }
            line.append(", ");
            let name = weekday_name(val);
            line.append(name.as_str());
        }
        assert(line@ =~= fields + weekday_suffix(self.weekday, val));
        line
    }
}

/// The digits typed so far as text.
pub fn typed_string(digits: &Vec<u32>) -> (r: String)
    requires
        forall|i: int| 0 <= i < digits.len() ==> digits[i] < 10,
    ensures
        r@ == typed_text(digits@),
{
    let mut out = String::new();
    let mut i: usize = 0;
    while i < digits.len()
        invariant
            i <= digits.len(),
            forall|k: int| 0 <= k < digits.len() ==> digits[k] < 10,
            out@ == typed_text(digits@.take(i as int)),
        decreases digits.len() - i,
    {
        out.append(digit_str(digits[i]));
        assert(out@ =~= typed_text(digits@.take(i + 1)));
        i += 1;
    }
    assert(digits@.take(i as int) =~= digits@);
    out
}

} // verus!
