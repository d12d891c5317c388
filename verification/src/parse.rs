use vstd::prelude::*;
use vstd::string::*;
use vstd::arithmetic::div_mod::{
    lemma_div_denominator, lemma_div_is_ordered, lemma_div_multiples_vanish_fancy,
    lemma_div_pos_is_pos, lemma_fundamental_div_mod, lemma_mod_multiples_vanish, lemma_small_mod,
};
use crate::datetime::DateTime;

verus! {

/// Why a timestamp string was rejected.
#[derive(Clone, Copy, PartialEq, Eq, Structural, Debug)]
pub enum ParseError {
    /// The string does not have the shape `YYYY-MM-DD HH:MM:SS`.
    BadFormat,
    /// The shape is right but a field is out of calendar range.
    FieldOutOfRange,
}

/// A decimal digit character.
pub open spec fn is_digit_char(c: char) -> bool {
    c == '0' || c == '1' || c == '2' || c == '3' || c == '4' || c == '5' || c == '6' || c == '7'
        || c == '8' || c == '9'
}

/// The value of a decimal digit character.
pub open spec fn digit_val(c: char) -> int {
    if c == '0' {
        0
    } else if c == '1' {
        1
    } else if c == '2' {
        2
    } else if c == '3' {
        3
    } else if c == '4' {
        4
    } else if c == '5' {
        5
    } else if c == '6' {
        6
    } else if c == '7' {
        7
    } else if c == '8' {
        8
    } else {
        9
    }
}

/// The character for a decimal digit value.
pub open spec fn digit_char(d: int) -> char {
    if d == 0 {
        '0'
    } else if d == 1 {
        '1'
    } else if d == 2 {
        '2'
    } else if d == 3 {
        '3'
    } else if d == 4 {
        '4'
    } else if d == 5 {
        '5'
    } else if d == 6 {
        '6'
    } else if d == 7 {
        '7'
    } else if d == 8 {
        '8'
    } else {
        '9'
    }
}

/// The string has the shape `YYYY-MM-DD HH:MM:SS`: nineteen characters,
/// digits and separators in the expected places.
pub open spec fn has_timestamp_shape(s: Seq<char>) -> bool {
    s.len() == 19 && s[4] == '-' && s[7] == '-' && s[10] == ' ' && s[13] == ':' && s[16] == ':'
        && is_digit_char(s[0]) && is_digit_char(s[1]) && is_digit_char(s[2]) && is_digit_char(s[3])
        && is_digit_char(s[5]) && is_digit_char(s[6]) && is_digit_char(s[8]) && is_digit_char(s[9])
        && is_digit_char(s[11]) && is_digit_char(s[12]) && is_digit_char(s[14]) && is_digit_char(
        s[15],
    ) && is_digit_char(s[17]) && is_digit_char(s[18])
}

/// The field values read from a string of timestamp shape.
pub open spec fn spec_parsed(s: Seq<char>) -> DateTime {
    DateTime {
        year: (1000 * digit_val(s[0]) + 100 * digit_val(s[1]) + 10 * digit_val(s[2]) + digit_val(
            s[3],
        )) as u32,
        month: (10 * digit_val(s[5]) + digit_val(s[6])) as u32,
        day: (10 * digit_val(s[8]) + digit_val(s[9])) as u32,
        hour: (10 * digit_val(s[11]) + digit_val(s[12])) as u32,
        minute: (10 * digit_val(s[14]) + digit_val(s[15])) as u32,
        second: (10 * digit_val(s[17]) + digit_val(s[18])) as u32,
    }
}

/// The nineteen characters `YYYY-MM-DD HH:MM:SS` of a date-time.
pub open spec fn spec_format(dt: DateTime) -> Seq<char> {
    seq![
        digit_char(dt.year as int / 1000),
        digit_char((dt.year as int / 100) % 10),
        digit_char((dt.year as int / 10) % 10),
        digit_char(dt.year as int % 10),
        '-',
        digit_char(dt.month as int / 10),
        digit_char(dt.month as int % 10),
        '-',
        digit_char(dt.day as int / 10),
        digit_char(dt.day as int % 10),
        ' ',
        digit_char(dt.hour as int / 10),
        digit_char(dt.hour as int % 10),
        ':',
        digit_char(dt.minute as int / 10),
        digit_char(dt.minute as int % 10),
        ':',
        digit_char(dt.second as int / 10),
        digit_char(dt.second as int % 10),
    ]
}

impl ParseError {
    /// A human-readable description of the rejection.
    pub fn message(&self) -> (r: String)
        ensures
            *self == ParseError::BadFormat ==> r@ == "input does not match YYYY-MM-DD HH:MM:SS"@,
            *self == ParseError::FieldOutOfRange ==> r@ == "a date or time field is out of range"@,
    {
        match self {
            ParseError::BadFormat => "input does not match YYYY-MM-DD HH:MM:SS".to_owned(),
            ParseError::FieldOutOfRange => "a date or time field is out of range".to_owned(),
        }
    }
}

/// The value of a digit character, or `None` for any other character.
fn digit_of(c: char) -> (r: Option<u32>)
    ensures
        r is Some <==> is_digit_char(c),
        r is Some ==> r->0 == digit_val(c),
{
    if c == '0' {
        Some(0)
    } else if c == '1' {
        Some(1)
    } else if c == '2' {
        Some(2)
    } else if c == '3' {
        Some(3)
    } else if c == '4' {
        Some(4)
    } else if c == '5' {
        Some(5)
    } else if c == '6' {
        Some(6)
    } else if c == '7' {
        Some(7)
    } else if c == '8' {
        Some(8)
    } else if c == '9' {
        Some(9)
    } else {
        None
    }
}

/// Parse a `YYYY-MM-DD HH:MM:SS` timestamp. The string must have
/// exactly that shape and name a real calendar date with an in-range
/// time of day; anything else is rejected.
pub fn parse_date_time(input: &str) -> (r: Result<DateTime, ParseError>)
    ensures
        match r {
            Ok(dt) => has_timestamp_shape(input@) && dt == spec_parsed(input@) && dt.wf(),
            Err(ParseError::BadFormat) => !has_timestamp_shape(input@),
            Err(ParseError::FieldOutOfRange) => has_timestamp_shape(input@) && !spec_parsed(
                input@,
            ).wf(),
        },
{
    if input.unicode_len() != 19 {
        return Err(ParseError::BadFormat);
    }
    if input.get_char(4) != '-' || input.get_char(7) != '-' || input.get_char(10) != ' '
        || input.get_char(13) != ':' || input.get_char(16) != ':' {
        return Err(ParseError::BadFormat);
    }
    let d0 = digit_of(input.get_char(0));
    let d1 = digit_of(input.get_char(1));
    let d2 = digit_of(input.get_char(2));
    let d3 = digit_of(input.get_char(3));
    let d4 = digit_of(input.get_char(5));
    let d5 = digit_of(input.get_char(6));
    let d6 = digit_of(input.get_char(8));
    let d7 = digit_of(input.get_char(9));
    let d8 = digit_of(input.get_char(11));
    let d9 = digit_of(input.get_char(12));
    let d10 = digit_of(input.get_char(14));
    let d11 = digit_of(input.get_char(15));
    let d12 = digit_of(input.get_char(17));
    let d13 = digit_of(input.get_char(18));
    match (d0, d1, d2, d3, d4, d5, d6, d7, d8, d9, d10, d11, d12, d13) {
        (
            Some(y0),
            Some(y1),
            Some(y2),
            Some(y3),
            Some(mo0),
            Some(mo1),
            Some(da0),
            Some(da1),
            Some(h0),
            Some(h1),
            Some(mi0),
            Some(mi1),
            Some(s0),
            Some(s1),
        ) => {
            let dt = DateTime {
                year: 1000 * y0 + 100 * y1 + 10 * y2 + y3,
                month: 10 * mo0 + mo1,
                day: 10 * da0 + da1,
                hour: 10 * h0 + h1,
                minute: 10 * mi0 + mi1,
                second: 10 * s0 + s1,
            };
            if 1 <= dt.month && dt.month <= 12 && 1 <= dt.day && dt.day
                <= crate::datetime::days_in_month(dt.year, dt.month) && dt.hour <= 23 && dt.minute
                <= 59 && dt.second <= 59 {
                Ok(dt)
            } else {
                Err(ParseError::FieldOutOfRange)
            }
        },
        _ => Err(ParseError::BadFormat),
    }
}

/// The one-character string for a decimal digit value.
fn digit_str(d: u32) -> (r: &'static str)
    requires
        d <= 9,
    ensures
        r@.len() == 1,
        r@[0] == digit_char(d as int),
{
    if d == 0 {
        proof {
            reveal_strlit("0");
        }
        "0"
    } else if d == 1 {
        proof {
            reveal_strlit("1");
        }
        "1"
    } else if d == 2 {
        proof {
            reveal_strlit("2");
        }
        "2"
    } else if d == 3 {
        proof {
            reveal_strlit("3");
        }
        "3"
    } else if d == 4 {
        proof {
            reveal_strlit("4");
        }
        "4"
    } else if d == 5 {
        proof {
            reveal_strlit("5");
        }
        "5"
    } else if d == 6 {
        proof {
            reveal_strlit("6");
        }
        "6"
    } else if d == 7 {
        proof {
            reveal_strlit("7");
        }
        "7"
    } else if d == 8 {
        proof {
            reveal_strlit("8");
        }
        "8"
    } else {
        proof {
            reveal_strlit("9");
        }
        "9"
    }
}

/// Render a date-time as `YYYY-MM-DD HH:MM:SS`, each field zero-padded
/// to its fixed width.
pub fn format_date_time(dt: &DateTime) -> (r: String)
    requires
        dt.wf(),
    ensures
        r@ == spec_format(*dt),
{
    proof {
        reveal_strlit("-");
        reveal_strlit(" ");
        reveal_strlit(":");
    }
    let mut s = String::new();
    s.append(digit_str(dt.year / 1000));
    s.append(digit_str((dt.year / 100) % 10));
    s.append(digit_str((dt.year / 10) % 10));
    s.append(digit_str(dt.year % 10));
    s.append("-");
    s.append(digit_str(dt.month / 10));
    s.append(digit_str(dt.month % 10));
    s.append("-");
    s.append(digit_str(dt.day / 10));
    s.append(digit_str(dt.day % 10));
    s.append(" ");
    s.append(digit_str(dt.hour / 10));
    s.append(digit_str(dt.hour % 10));
    s.append(":");
    s.append(digit_str(dt.minute / 10));
    s.append(digit_str(dt.minute % 10));
    s.append(":");
    s.append(digit_str(dt.second / 10));
    s.append(digit_str(dt.second % 10));
    proof {
        assert(s@ =~= spec_format(*dt));
    }
    s
}

proof fn lemma_digit_char_of_val(c: char)
    requires
        is_digit_char(c),
    ensures
        0 <= digit_val(c) <= 9,
        digit_char(digit_val(c)) == c,
{
}

proof fn lemma_digit_val_of_char(d: int)
    requires
        0 <= d <= 9,
    ensures
        is_digit_char(digit_char(d)),
        digit_val(digit_char(d)) == d,
{
}

proof fn lemma_two_digit_split(a: int, b: int)
    requires
        0 <= a <= 9,
        0 <= b <= 9,
    ensures
        (10 * a + b) / 10 == a,
        (10 * a + b) % 10 == b,
{
}

proof fn lemma_four_digit_split(a: int, b: int, c: int, d: int)
    requires
        0 <= a <= 9,
        0 <= b <= 9,
        0 <= c <= 9,
        0 <= d <= 9,
    ensures
        (1000 * a + 100 * b + 10 * c + d) / 1000 == a,
        ((1000 * a + 100 * b + 10 * c + d) / 100) % 10 == b,
        ((1000 * a + 100 * b + 10 * c + d) / 10) % 10 == c,
        (1000 * a + 100 * b + 10 * c + d) % 10 == d,
{
    let v = 1000 * a + 100 * b + 10 * c + d;
    lemma_div_multiples_vanish_fancy(a, 100 * b + 10 * c + d, 1000);
    lemma_div_multiples_vanish_fancy(10 * a + b, 10 * c + d, 100);
    lemma_div_multiples_vanish_fancy(100 * a + 10 * b + c, d, 10);
    assert(v == 1000 * a + (100 * b + 10 * c + d));
    assert(v == 100 * (10 * a + b) + (10 * c + d));
    assert(v == 10 * (100 * a + 10 * b + c) + d);
    lemma_mod_multiples_vanish(a, b, 10);
    lemma_mod_multiples_vanish(10 * a + b, c, 10);
    lemma_mod_multiples_vanish(100 * a + 10 * b + c, d, 10);
    lemma_small_mod(b as nat, 10);
    lemma_small_mod(c as nat, 10);
    lemma_small_mod(d as nat, 10);
    assert((100 * a + 10 * b + c) == 10 * (10 * a + b) + c);
}

proof fn lemma_two_digit_join(v: int)
    requires
        0 <= v <= 99,
    ensures
        10 * (v / 10) + v % 10 == v,
        0 <= v / 10 <= 9,
        0 <= v % 10 <= 9,
{
}

proof fn lemma_four_digit_join(v: int)
    requires
        0 <= v <= 9999,
    ensures
        1000 * (v / 1000) + 100 * ((v / 100) % 10) + 10 * ((v / 10) % 10) + v % 10 == v,
        0 <= v / 1000 <= 9,
        0 <= (v / 100) % 10 <= 9,
        0 <= (v / 10) % 10 <= 9,
{
    lemma_fundamental_div_mod(v, 10);
    lemma_fundamental_div_mod(v / 10, 10);
    lemma_fundamental_div_mod(v / 100, 10);
    lemma_div_denominator(v, 10, 10);
    lemma_div_denominator(v, 100, 10);
    assert(100 * 10 == 1000);
    lemma_div_is_ordered(v, 9999, 1000);
    lemma_div_pos_is_pos(v, 1000);
    assert(9999int / 1000 == 9);
}

/// Parsing a timestamp string and rendering the parsed value gives the
/// original string back, character for character.
pub proof fn lemma_parse_format_round_trip(s: Seq<char>)
    requires
        has_timestamp_shape(s),
        spec_parsed(s).wf(),
    ensures
        spec_format(spec_parsed(s)) =~= s,
{
    let p = spec_parsed(s);
    lemma_digit_char_of_val(s[0]);
    lemma_digit_char_of_val(s[1]);
    lemma_digit_char_of_val(s[2]);
    lemma_digit_char_of_val(s[3]);
    lemma_digit_char_of_val(s[5]);
    lemma_digit_char_of_val(s[6]);
    lemma_digit_char_of_val(s[8]);
    lemma_digit_char_of_val(s[9]);
    lemma_digit_char_of_val(s[11]);
    lemma_digit_char_of_val(s[12]);
    lemma_digit_char_of_val(s[14]);
    lemma_digit_char_of_val(s[15]);
    lemma_digit_char_of_val(s[17]);
    lemma_digit_char_of_val(s[18]);
    lemma_four_digit_split(digit_val(s[0]), digit_val(s[1]), digit_val(s[2]), digit_val(s[3]));
    lemma_two_digit_split(digit_val(s[5]), digit_val(s[6]));
    lemma_two_digit_split(digit_val(s[8]), digit_val(s[9]));
    lemma_two_digit_split(digit_val(s[11]), digit_val(s[12]));
    lemma_two_digit_split(digit_val(s[14]), digit_val(s[15]));
    lemma_two_digit_split(digit_val(s[17]), digit_val(s[18]));
    assert(spec_format(p).len() == s.len());
}

proof fn lemma_format_two_digit(v: int)
    requires
        0 <= v <= 99,
    ensures
        is_digit_char(digit_char(v / 10)),
        is_digit_char(digit_char(v % 10)),
        10 * digit_val(digit_char(v / 10)) + digit_val(digit_char(v % 10)) == v,
{
    lemma_two_digit_join(v);
    lemma_digit_val_of_char(v / 10);
    lemma_digit_val_of_char(v % 10);
}

proof fn lemma_format_four_digit(v: int)
    requires
        0 <= v <= 9999,
    ensures
        is_digit_char(digit_char(v / 1000)),
        is_digit_char(digit_char((v / 100) % 10)),
        is_digit_char(digit_char((v / 10) % 10)),
        is_digit_char(digit_char(v % 10)),
        1000 * digit_val(digit_char(v / 1000)) + 100 * digit_val(digit_char((v / 100) % 10)) + 10
            * digit_val(digit_char((v / 10) % 10)) + digit_val(digit_char(v % 10)) == v,
{
    lemma_four_digit_join(v);
    lemma_digit_val_of_char(v / 1000);
    lemma_digit_val_of_char((v / 100) % 10);
    lemma_digit_val_of_char((v / 10) % 10);
    lemma_digit_val_of_char(v % 10);
    lemma_small_mod((v % 10) as nat, 10);
}

/// Rendering a well-formed date-time gives a string of timestamp shape
/// that parses back to the same value.
pub proof fn lemma_format_parse_round_trip(dt: DateTime)
    requires
        dt.wf(),
    ensures
        has_timestamp_shape(spec_format(dt)),
        spec_parsed(spec_format(dt)) == dt,
{
    let y = dt.year as int;
    let mo = dt.month as int;
    let da = dt.day as int;
    let h = dt.hour as int;
    let mi = dt.minute as int;
    let se = dt.second as int;
    let f = spec_format(dt);
    lemma_format_four_digit(y);
    lemma_format_two_digit(mo);
    lemma_format_two_digit(da);
    lemma_format_two_digit(h);
    lemma_format_two_digit(mi);
    lemma_format_two_digit(se);
    assert(has_timestamp_shape(f));
    assert(1000 * digit_val(f[0]) + 100 * digit_val(f[1]) + 10 * digit_val(f[2]) + digit_val(f[3])
        == y);
    assert(10 * digit_val(f[5]) + digit_val(f[6]) == mo);
    assert(10 * digit_val(f[8]) + digit_val(f[9]) == da);
    assert(10 * digit_val(f[11]) + digit_val(f[12]) == h);
    assert(10 * digit_val(f[14]) + digit_val(f[15]) == mi);
    assert(10 * digit_val(f[17]) + digit_val(f[18]) == se);
}

} // verus!
