//! Calendar dates of the proleptic Gregorian calendar, years 0 to 9999,
//! and their ten-character form: four digits of the year, a hyphen, two
//! digits of the month, a hyphen, two digits of the day.

use vstd::prelude::*;
use vstd::string::*;
use crate::text::{
    digit_char, digit_of, digit_str, digit_value, is_digit, lemma_digit_char_of_value,
    lemma_digit_value_of_char,
};

verus! {

/// Whether year `y` has a 29th of February.
pub open spec fn is_leap_year(y: int) -> bool {
    y % 4 == 0 && (y % 100 != 0 || y % 400 == 0)
}

/// The number of days of month `m` in year `y`.
pub open spec fn days_in_month(y: int, m: int) -> int {
    if m == 2 {
        if is_leap_year(y) {
            29
        } else {
            28
        }
    } else if m == 4 || m == 6 || m == 9 || m == 11 {
        30
    } else {
        31
    }
}

/// Whether year, month and day name a day of the calendar.
pub open spec fn valid_ymd(y: int, m: int, d: int) -> bool {
    0 <= y <= 9999 && 1 <= m <= 12 && 1 <= d <= days_in_month(y, m)
}

/// A calendar date.
#[derive(Debug, Clone, Copy, PartialEq, Eq, Structural)]
pub struct Date {
    pub year: u16,
    pub month: u8,
    pub day: u8,
}

/// The ten-character form of a date.
pub open spec fn date_text(d: Date) -> Seq<char> {
    seq![
        digit_char(d.year as int / 1000),
        digit_char(d.year as int / 100 % 10),
        digit_char(d.year as int / 10 % 10),
        digit_char(d.year as int % 10),
        '-',
        digit_char(d.month as int / 10),
        digit_char(d.month as int % 10),
        '-',
        digit_char(d.day as int / 10),
        digit_char(d.day as int % 10),
    ]
}

/// The year that the first four characters of `s` write.
pub open spec fn text_year(s: Seq<char>) -> int {
    digit_value(s[0]) * 1000 + digit_value(s[1]) * 100 + digit_value(s[2]) * 10 + digit_value(
        s[3],
    )
}

/// The month that characters 5 and 6 of `s` write.
pub open spec fn text_month(s: Seq<char>) -> int {
    digit_value(s[5]) * 10 + digit_value(s[6])
}

/// The day that characters 8 and 9 of `s` write.
pub open spec fn text_day(s: Seq<char>) -> int {
    digit_value(s[8]) * 10 + digit_value(s[9])
}

/// Whether `s` has the shape of a date: ten characters, digits but for
/// the two hyphens.
pub open spec fn has_date_shape(s: Seq<char>) -> bool {
    &&& s.len() == 10
    &&& is_digit(s[0])
    &&& is_digit(s[1])
    &&& is_digit(s[2])
    &&& is_digit(s[3])
    &&& s[4] == '-'
    &&& is_digit(s[5])
    &&& is_digit(s[6])
    &&& s[7] == '-'
    &&& is_digit(s[8])
    &&& is_digit(s[9])
}

/// Whether `s` is the ten-character form of a calendar date.
pub open spec fn is_date_text(s: Seq<char>) -> bool {
    has_date_shape(s) && valid_ymd(text_year(s), text_month(s), text_day(s))
}

/// The date that `s` writes, where `is_date_text(s)`.
pub open spec fn text_date(s: Seq<char>) -> Date {
    Date { year: text_year(s) as u16, month: text_month(s) as u8, day: text_day(s) as u8 }
}

/// What reading `s` as a date gives: the date, or nothing where `s` is
/// not the form of one.
pub open spec fn parsed_date(s: Seq<char>) -> Option<Date> {
    if is_date_text(s) {
        Some(text_date(s))
    } else {
        None
    }
}

/// The number of days of month `m` in year `y`.
pub fn month_length(y: u16, m: u8) -> (n: u8)
    ensures
        n as int == days_in_month(y as int, m as int),
{
    if m == 2 {
        if y % 4 == 0 && (y % 100 != 0 || y % 400 == 0) {
            29
        } else {
            28
        }
    } else if m == 4 || m == 6 || m == 9 || m == 11 {
        30
    } else {
        31
    }
}

impl Date {
    /// Whether the three fields name a day of the calendar.
    pub open spec fn wf(&self) -> bool {
        valid_ymd(self.year as int, self.month as int, self.day as int)
    }

    /// Whether the three fields name a day of the calendar.
    pub fn is_valid(&self) -> (b: bool)
        ensures
            b == self.wf(),
    {
        self.year <= 9999 && 1 <= self.month && self.month <= 12 && 1 <= self.day && self.day
            <= month_length(self.year, self.month)
    }

    /// The date of the given year, month and day, where there is one.
    pub fn from_ymd(year: u16, month: u8, day: u8) -> (r: Option<Date>)
        ensures
            r == (if valid_ymd(year as int, month as int, day as int) {
                Some(Date { year, month, day })
            } else {
                None::<Date>
            }),
    {
        if year <= 9999 && 1 <= month && month <= 12 && 1 <= day && day <= month_length(
            year,
            month,
        ) {
            Some(Date { year, month, day })
        } else {
            None
        }
    }

    /// Reads the ten-character form of a date. Any other text, and any
    /// text that names no day of the calendar, gives nothing.
    pub fn parse(s: &str) -> (r: Option<Date>)
        ensures
            r == parsed_date(s@),
            r is Some ==> r->0.wf() && date_text(r->0) == s@,
    {
        if s.unicode_len() != 10 {
            return None;
        }
        if s.get_char(4) != '-' || s.get_char(7) != '-' {
            return None;
        }
        let y0: u8 = match digit_of(s.get_char(0)) {
            Some(d) => d,
            None => { return None; },
        };
        let y1: u8 = match digit_of(s.get_char(1)) {
            Some(d) => d,
            None => { return None; },
        };
        let y2: u8 = match digit_of(s.get_char(2)) {
            Some(d) => d,
            None => { return None; },
        };
        let y3: u8 = match digit_of(s.get_char(3)) {
            Some(d) => d,
            None => { return None; },
        };
        let m0: u8 = match digit_of(s.get_char(5)) {
            Some(d) => d,
            None => { return None; },
        };
        let m1: u8 = match digit_of(s.get_char(6)) {
            Some(d) => d,
            None => { return None; },
        };
        let d0: u8 = match digit_of(s.get_char(8)) {
            Some(d) => d,
            None => { return None; },
        };
        let d1: u8 = match digit_of(s.get_char(9)) {
            Some(d) => d,
            None => { return None; },
        };
        let year: u16 = (y0 as u16) * 1000 + (y1 as u16) * 100 + (y2 as u16) * 10 + (y3 as u16);
        let month: u8 = m0 * 10 + m1;
        let day: u8 = d0 * 10 + d1;
        let r = Date::from_ymd(year, month, day);
        proof {
            if r is Some {
                law_text_of_parsed(s@);
            }
        }
        r
    }

    /// Writes the date in its ten-character form.
    pub fn render(&self) -> (s: String)
        requires
            self.wf(),
        ensures
            s@ == date_text(*self),
    {
        let mut s = String::new();
        s.append(digit_str((self.year / 1000) as u8));
        s.append(digit_str((self.year / 100 % 10) as u8));
        s.append(digit_str((self.year / 10 % 10) as u8));
        s.append(digit_str((self.year % 10) as u8));
        s.append("-");
        s.append(digit_str(self.month / 10));
        s.append(digit_str(self.month % 10));
        s.append("-");
        s.append(digit_str(self.day / 10));
        s.append(digit_str(self.day % 10));
        proof {
            reveal_strlit("-");
            assert(s@ =~= date_text(*self));
        }
        s
    }
}

/// Four decimal digits are the digits of the number they write.
proof fn lemma_number_of_four_digits(a: int, b: int, c: int, d: int)
    requires
        0 <= a <= 9,
        0 <= b <= 9,
        0 <= c <= 9,
        0 <= d <= 9,
    ensures
        0 <= a * 1000 + b * 100 + c * 10 + d <= 9999,
        (a * 1000 + b * 100 + c * 10 + d) / 1000 == a,
        (a * 1000 + b * 100 + c * 10 + d) / 100 % 10 == b,
        (a * 1000 + b * 100 + c * 10 + d) / 10 % 10 == c,
        (a * 1000 + b * 100 + c * 10 + d) % 10 == d,
{
    let y = a * 1000 + b * 100 + c * 10 + d;
    assert(y / 10 == a * 100 + b * 10 + c);
    assert(y / 100 == a * 10 + b);
}

/// Two decimal digits are the digits of the number they write.
proof fn lemma_number_of_two_digits(a: int, b: int)
    requires
        0 <= a <= 9,
        0 <= b <= 9,
    ensures
        0 <= a * 10 + b <= 99,
        (a * 10 + b) / 10 == a,
        (a * 10 + b) % 10 == b,
{
}

/// Reading a date's text and writing the date again gives the text back:
/// for every text that is the form of a calendar date, the form of the
/// date it reads as is that same text.
pub proof fn law_text_of_parsed(s: Seq<char>)
    requires
        is_date_text(s),
    ensures
        text_date(s).wf(),
        date_text(text_date(s)) == s,
{
    lemma_digit_char_of_value(s[0]);
    lemma_digit_char_of_value(s[1]);
    lemma_digit_char_of_value(s[2]);
    lemma_digit_char_of_value(s[3]);
    lemma_digit_char_of_value(s[5]);
    lemma_digit_char_of_value(s[6]);
    lemma_digit_char_of_value(s[8]);
    lemma_digit_char_of_value(s[9]);
    lemma_number_of_four_digits(
        digit_value(s[0]),
        digit_value(s[1]),
        digit_value(s[2]),
        digit_value(s[3]),
    );
    lemma_number_of_two_digits(digit_value(s[5]), digit_value(s[6]));
    lemma_number_of_two_digits(digit_value(s[8]), digit_value(s[9]));
    let d = text_date(s);
    assert(d.year as int == text_year(s));
    assert(d.month as int == text_month(s));
    assert(d.day as int == text_day(s));
    let t = date_text(d);
    assert(t.len() == 10);
    assert(t[0] == s[0]);
    assert(t[1] == s[1]);
    assert(t[2] == s[2]);
    assert(t[3] == s[3]);
    assert(t[4] == s[4]);
    assert(t[5] == s[5]);
    assert(t[6] == s[6]);
    assert(t[7] == s[7]);
    assert(t[8] == s[8]);
    assert(t[9] == s[9]);
    assert(t =~= s);
}

/// A number below ten thousand is the sum of its four decimal digits,
/// each weighted by its place.
proof fn lemma_four_digits(y: int)
    requires
        0 <= y <= 9999,
    ensures
        0 <= y / 1000 <= 9,
        0 <= y / 100 % 10 <= 9,
        0 <= y / 10 % 10 <= 9,
        0 <= y % 10 <= 9,
        (y / 1000) * 1000 + (y / 100 % 10) * 100 + (y / 10 % 10) * 10 + y % 10 == y,
{
    let a = y / 10;
    let b = y / 100;
    let c = y / 1000;
    assert(y == a * 10 + y % 10);
    assert(b == a / 10 && c == b / 10) by (nonlinear_arith)
        requires
            0 <= y,
            a == y / 10,
            b == y / 100,
            c == y / 1000,
    ;
    assert(a == b * 10 + a % 10);
    assert(b == c * 10 + b % 10);
    assert(c < 10);
}

/// A number below one hundred is the sum of its two decimal digits.
proof fn lemma_two_digits(n: int)
    requires
        0 <= n <= 99,
    ensures
        0 <= n / 10 <= 9,
        0 <= n % 10 <= 9,
        (n / 10) * 10 + n % 10 == n,
{
}

/// Writing a date and reading the text again gives the date back: the
/// form of every calendar date reads as that date.
pub proof fn law_parsed_of_text(d: Date)
    requires
        d.wf(),
    ensures
        parsed_date(date_text(d)) == Some(d),
{
    let s = date_text(d);
    let y = d.year as int;
    let m = d.month as int;
    let n = d.day as int;
    lemma_four_digits(y);
    lemma_two_digits(m);
    lemma_two_digits(n);
    lemma_digit_value_of_char(y / 1000);
    lemma_digit_value_of_char(y / 100 % 10);
    lemma_digit_value_of_char(y / 10 % 10);
    lemma_digit_value_of_char(y % 10);
    lemma_digit_value_of_char(m / 10);
    lemma_digit_value_of_char(m % 10);
    lemma_digit_value_of_char(n / 10);
    lemma_digit_value_of_char(n % 10);
    assert(s[0] == digit_char(y / 1000));
    assert(s[1] == digit_char(y / 100 % 10));
    assert(s[2] == digit_char(y / 10 % 10));
    assert(s[3] == digit_char(y % 10));
    assert(s[5] == digit_char(m / 10));
    assert(s[6] == digit_char(m % 10));
    assert(s[8] == digit_char(n / 10));
    assert(s[9] == digit_char(n % 10));
    assert(has_date_shape(s));
    assert(text_year(s) == y);
    assert(text_month(s) == m);
    assert(text_day(s) == n);
}

/// Two calendar dates with the same text are the same date.
pub proof fn law_text_injective(a: Date, b: Date)
    requires
        a.wf(),
        b.wf(),
        date_text(a) == date_text(b),
    ensures
        a == b,
{
    law_parsed_of_text(a);
    law_parsed_of_text(b);
}

} // verus!
