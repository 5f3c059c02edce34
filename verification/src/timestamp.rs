//! Civil UTC date-times and their RFC 3339 text form, second precision:
//! `YYYY-MM-DDThh:mm:ssZ`.
//!
//! The process obtains the current moment from its clock and hands it in as
//! plain calendar fields; formatting, parsing and validity are checked
//! computation here.

use vstd::prelude::*;
use vstd::string::StrSliceExecFns;
use vstd::arithmetic::div_mod::lemma_fundamental_div_mod;
use crate::config::char_digit;
use crate::config::is_digit_char;
use crate::payload::push_char;

verus! {

/// A moment of civil time, UTC, second precision.
#[derive(Clone, Copy, PartialEq, Eq, Structural, Debug)]
pub struct CivilDateTime {
    pub year: u16,
    pub month: u8,
    pub day: u8,
    pub hour: u8,
    pub minute: u8,
    pub second: u8,
}

pub open spec fn is_leap_year(y: int) -> bool {
    y % 4 == 0 && (y % 100 != 0 || y % 400 == 0)
}

pub open spec fn days_in_month(y: int, m: int) -> int {
    if m == 2 {
        if is_leap_year(y) {
            29
        } else {
            28
        }
    } else if m == 4 || m == 6 || m == 9 || m == 11 {
        30
    } else {
        31
    }
}

impl CivilDateTime {
    /// A real calendar moment with a four-digit year.
    pub open spec fn wf(self) -> bool {
        1 <= self.year <= 9999 && 1 <= self.month <= 12 && 1 <= self.day <= days_in_month(
            self.year as int,
            self.month as int,
        ) && self.hour <= 23 && self.minute <= 59 && self.second <= 59
    }

    /// Runtime check of [`Self::wf`].
    pub fn is_wf(&self) -> (r: bool)
        ensures
            r == self.wf(),
    {
        1 <= self.year && self.year <= 9999 && 1 <= self.month && self.month <= 12
            && 1 <= self.day && self.day <= days_in_month_exec(self.year, self.month)
            && self.hour <= 23 && self.minute <= 59 && self.second <= 59
    }
}

/// The two decimal digits of `n`, high digit first.
pub open spec fn two_digits(n: int) -> Seq<char> {
    seq![digit_char_of(n / 10), digit_char_of(n % 10)]
}

/// The four decimal digits of `n`, high pair first.
pub open spec fn four_digits(n: int) -> Seq<char> {
    two_digits(n / 100) + two_digits(n % 100)
}

pub open spec fn digit_char_of(d: int) -> char {
    if d == 0 {
        '0'
    } else if d == 1 {
        '1'
    } else if d == 2 {
        '2'
    } else if d == 3 {
        '3'
    } else if d == 4 {
        '4'
    } else if d == 5 {
        '5'
    } else if d == 6 {
        '6'
    } else if d == 7 {
        '7'
    } else if d == 8 {
        '8'
    } else {
        '9'
    }
}

/// The RFC 3339 form of a moment: date, `T`, time, `Z`.
pub open spec fn format_timestamp_spec(dt: CivilDateTime) -> Seq<char> {
    four_digits(dt.year as int) + seq!['-'] + two_digits(dt.month as int) + seq!['-']
        + two_digits(dt.day as int) + seq!['T'] + two_digits(dt.hour as int) + seq![':']
        + two_digits(dt.minute as int) + seq![':'] + two_digits(dt.second as int) + seq!['Z']
}

fn digit_char_exec(d: u8) -> (c: char)
    requires
        d <= 9,
    ensures
        c == digit_char_of(d as int),
{
    match d {
        0 => '0',
        1 => '1',
        2 => '2',
        3 => '3',
        4 => '4',
        5 => '5',
        6 => '6',
        7 => '7',
        8 => '8',
        _ => '9',
    }
}

fn push_two_digits(out: &mut String, n: u8)
    requires
        n <= 99,
    ensures
        final(out)@ == old(out)@ + two_digits(n as int),
{
    let ghost before = out@;
    push_char(out, digit_char_exec(n / 10));
    push_char(out, digit_char_exec(n % 10));
    proof {
        assert(before.push(digit_char_of(n as int / 10)).push(digit_char_of(n as int % 10))
            =~= before + two_digits(n as int));
    }
}

/// Write a moment in its RFC 3339 form.
pub fn format_timestamp(dt: &CivilDateTime) -> (r: String)
    requires
        dt.wf(),
    ensures
        r@ == format_timestamp_spec(*dt),
{
    let mut r = String::new();
    push_two_digits(&mut r, (dt.year / 100) as u8);
    push_two_digits(&mut r, (dt.year % 100) as u8);
    push_char(&mut r, '-');
    push_two_digits(&mut r, dt.month);
    push_char(&mut r, '-');
    push_two_digits(&mut r, dt.day);
    push_char(&mut r, 'T');
    push_two_digits(&mut r, dt.hour);
    push_char(&mut r, ':');
    push_two_digits(&mut r, dt.minute);
    push_char(&mut r, ':');
    push_two_digits(&mut r, dt.second);
    push_char(&mut r, 'Z');
    proof {
        assert(r@ =~= format_timestamp_spec(*dt));
    }
    r
}

/// The value of two digit characters read as a number.
pub open spec fn val2(a: char, b: char) -> int {
    char_digit(a) * 10 + char_digit(b)
}

/// What parsing an RFC 3339 timestamp accepts: exactly the 20-character
/// form written by the formatter, with every field in calendar range.
pub open spec fn parse_timestamp_spec(s: Seq<char>) -> Option<CivilDateTime> {
    if s.len() != 20 {
        None
    } else if !(is_digit_char(s[0]) && is_digit_char(s[1]) && is_digit_char(s[2])
        && is_digit_char(s[3]) && s[4] == '-' && is_digit_char(s[5]) && is_digit_char(s[6])
        && s[7] == '-' && is_digit_char(s[8]) && is_digit_char(s[9]) && s[10] == 'T'
        && is_digit_char(s[11]) && is_digit_char(s[12]) && s[13] == ':' && is_digit_char(s[14])
        && is_digit_char(s[15]) && s[16] == ':' && is_digit_char(s[17]) && is_digit_char(s[18])
        && s[19] == 'Z') {
        None
    } else {
        let dt = CivilDateTime {
            year: (val2(s[0], s[1]) * 100 + val2(s[2], s[3])) as u16,
            month: val2(s[5], s[6]) as u8,
            day: val2(s[8], s[9]) as u8,
            hour: val2(s[11], s[12]) as u8,
            minute: val2(s[14], s[15]) as u8,
            second: val2(s[17], s[18]) as u8,
        };
        if dt.wf() {
            Some(dt)
        } else {
            None
        }
    }
}

fn days_in_month_exec(y: u16, m: u8) -> (d: u8)
    ensures
        d as int == days_in_month(y as int, m as int),
{
    if m == 2 {
        if y % 4 == 0 && (y % 100 != 0 || y % 400 == 0) {
            29
        } else {
            28
        }
    } else if m == 4 || m == 6 || m == 9 || m == 11 {
        30
    } else {
        31
    }
}

fn digit_val(c: char) -> (d: u8)
    ensures
        d == char_digit(c),
{
    match c {
        '0' => 0,
        '1' => 1,
        '2' => 2,
        '3' => 3,
        '4' => 4,
        '5' => 5,
        '6' => 6,
        '7' => 7,
        '8' => 8,
        '9' => 9,
        _ => 10,
    }
}

/// Read a moment from its RFC 3339 form; `None` for anything that is not a
/// valid timestamp of that exact shape.
pub fn parse_timestamp(s: &str) -> (r: Option<CivilDateTime>)
    ensures
        r == parse_timestamp_spec(s@),
{
    let n = s.unicode_len();
    if n != 20 {
        return None;
    }
    let d0 = digit_val(s.get_char(0));
    let d1 = digit_val(s.get_char(1));
    let d2 = digit_val(s.get_char(2));
    let d3 = digit_val(s.get_char(3));
    let d5 = digit_val(s.get_char(5));
    let d6 = digit_val(s.get_char(6));
    let d8 = digit_val(s.get_char(8));
    let d9 = digit_val(s.get_char(9));
    let d11 = digit_val(s.get_char(11));
    let d12 = digit_val(s.get_char(12));
    let d14 = digit_val(s.get_char(14));
    let d15 = digit_val(s.get_char(15));
    let d17 = digit_val(s.get_char(17));
    let d18 = digit_val(s.get_char(18));
    let shape = d0 <= 9 && d1 <= 9 && d2 <= 9 && d3 <= 9 && s.get_char(4) == '-' && d5 <= 9
        && d6 <= 9 && s.get_char(7) == '-' && d8 <= 9 && d9 <= 9 && s.get_char(10) == 'T'
        && d11 <= 9 && d12 <= 9 && s.get_char(13) == ':' && d14 <= 9 && d15 <= 9 && s.get_char(16)
        == ':' && d17 <= 9 && d18 <= 9 && s.get_char(19) == 'Z';
    if !shape {
        return None;
    }
    let year: u16 = ((d0 as u16) * 10 + (d1 as u16)) * 100 + ((d2 as u16) * 10 + (d3 as u16));
    let month: u8 = d5 * 10 + d6;
    let day: u8 = d8 * 10 + d9;
    let hour: u8 = d11 * 10 + d12;
    let minute: u8 = d14 * 10 + d15;
    let second: u8 = d17 * 10 + d18;
    let dt = CivilDateTime { year, month, day, hour, minute, second };
    let ok = year >= 1 && month >= 1 && month <= 12 && day >= 1 && day <= days_in_month_exec(
        year,
        month,
    ) && hour <= 23 && minute <= 59 && second <= 59;
    if ok {
        Some(dt)
    } else {
        None
    }
}

proof fn lemma_digit_char_val(d: int)
    requires
        0 <= d <= 9,
    ensures
        char_digit(digit_char_of(d)) == d,
{
}

proof fn lemma_two_digit_val(n: int)
    requires
        0 <= n <= 99,
    ensures
        val2(digit_char_of(n / 10), digit_char_of(n % 10)) == n,
{
    lemma_digit_char_val(n / 10);
    lemma_digit_char_val(n % 10);
    lemma_fundamental_div_mod(n, 10);
}

/// Formatting and parsing are inverse: every real calendar moment written
/// in its RFC 3339 form reads back as exactly the same moment.
#[verifier::rlimit(100)]
pub proof fn lemma_timestamp_round_trip(dt: CivilDateTime)
    requires
        dt.wf(),
    ensures
        parse_timestamp_spec(format_timestamp_spec(dt)) == Some(dt),
{
    let s = format_timestamp_spec(dt);
    let y = dt.year as int;
    let hi = y / 100;
    let lo = y % 100;
    lemma_fundamental_div_mod(y, 100);
    assert(0 <= hi <= 99 && 0 <= lo <= 99);
    assert(s =~= seq![
        digit_char_of(hi / 10),
        digit_char_of(hi % 10),
        digit_char_of(lo / 10),
        digit_char_of(lo % 10),
        '-',
        digit_char_of(dt.month as int / 10),
        digit_char_of(dt.month as int % 10),
        '-',
        digit_char_of(dt.day as int / 10),
        digit_char_of(dt.day as int % 10),
        'T',
        digit_char_of(dt.hour as int / 10),
        digit_char_of(dt.hour as int % 10),
        ':',
        digit_char_of(dt.minute as int / 10),
        digit_char_of(dt.minute as int % 10),
        ':',
        digit_char_of(dt.second as int / 10),
        digit_char_of(dt.second as int % 10),
        'Z',
    ]);
    lemma_two_digit_val(hi);
    lemma_two_digit_val(lo);
    lemma_two_digit_val(dt.month as int);
    lemma_two_digit_val(dt.day as int);
    lemma_two_digit_val(dt.hour as int);
    lemma_two_digit_val(dt.minute as int);
    lemma_two_digit_val(dt.second as int);
    assert(val2(s[0], s[1]) * 100 + val2(s[2], s[3]) == y);
}

} // verus!
