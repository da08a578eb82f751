//! Calendar days, written as year, month and day.

use crate::error::FormatError;
use crate::numbers::{
    all_digits, char_of_digit, decimal, digit_char, digit_value, digits_value, is_digit, push_decimal,
};
use crate::text::string_of;
use chrono::Datelike;
use vstd::prelude::*;

verus! {

/// A day of the proleptic Gregorian calendar.
#[derive(Debug, PartialEq, Eq, Clone, Copy)]
pub struct Date {
    year: i32,
    month: u32,
    day: u32,
}

/// A year, a month and a day as numbers.
pub struct DateView {
    pub year: int,
    pub month: int,
    pub day: int,
}

impl View for Date {
    type V = DateView;

    closed spec fn view(&self) -> DateView {
        DateView { year: self.year as int, month: self.month as int, day: self.day as int }
    }
}

/// Every fourth year is a leap year, but for the centuries that 400 does not
/// divide.
pub open spec fn is_leap_year(year: int) -> bool {
    year % 4 == 0 && (year % 100 != 0 || year % 400 == 0)
}

/// The number of days of a month.
pub open spec fn days_in_month(year: int, month: int) -> int {
    if month == 2 {
        if is_leap_year(year) {
            29
        } else {
            28
        }
    } else if month == 4 || month == 6 || month == 9 || month == 11 {
        30
    } else {
        31
    }
}

impl DateView {
    /// The day exists in the calendar.
    pub open spec fn is_valid(self) -> bool {
        1 <= self.month <= 12 && 1 <= self.day <= days_in_month(self.year, self.month)
    }
}

/// Four digits, a hyphen, two digits, a hyphen, two digits.
pub open spec fn is_plain_date(s: Seq<char>) -> bool {
    &&& s.len() == 10
    &&& all_digits(s.subrange(0, 4))
    &&& s[4] == '-'
    &&& all_digits(s.subrange(5, 7))
    &&& s[7] == '-'
    &&& all_digits(s.subrange(8, 10))
}

/// The numbers that a plain date text holds.
pub open spec fn plain_date_numbers(s: Seq<char>) -> DateView {
    DateView {
        year: digits_value(s.subrange(0, 4)) as int,
        month: digits_value(s.subrange(5, 7)) as int,
        day: digits_value(s.subrange(8, 10)) as int,
    }
}

/// Year, month and day of the day that a plain date text denotes, where the
/// calendar has that day.
pub open spec fn plain_date(s: Seq<char>) -> Option<(i32, u32, u32)> {
    let v = plain_date_numbers(s);
    if v.is_valid() {
        Some((v.year as i32, v.month as u32, v.day as u32))
    } else {
        None
    }
}

/// What the pattern `%Y-%m-%d` makes of a text that is no plain date text:
/// the pattern also takes signs, shorter numbers and white space before a
/// number.
pub uninterp spec fn date_by_pattern(s: Seq<char>) -> Option<(i32, u32, u32)>;

/// The day that `s` denotes. A plain date text denotes the day that its
/// numbers give, where that day exists.
pub open spec fn parse_date(s: Seq<char>) -> Option<DateView> {
    let numbers = if is_plain_date(s) {
        plain_date(s)
    } else {
        date_by_pattern(s)
    };
    match numbers {
        Some((y, m, d)) => Some(DateView { year: y as int, month: m as int, day: d as int }),
        None => None,
    }
}

/// A number below 100 in two digits.
pub open spec fn two_digits(n: nat) -> Seq<char> {
    seq![digit_char(n / 10), digit_char(n % 10)]
}

/// A number below 10000 in four digits.
pub open spec fn four_digits(n: nat) -> Seq<char> {
    seq![digit_char(n / 1000), digit_char(n / 100 % 10), digit_char(n / 10 % 10), digit_char(n % 10)]
}

/// A year in at least four digits, after a minus sign where it is negative.
pub open spec fn year_text(year: int) -> Seq<char> {
    let n = (if year < 0 {
        -year
    } else {
        year
    }) as nat;
    let digits = if n <= 9999 {
        four_digits(n)
    } else {
        decimal(n)
    };
    if year < 0 {
        seq!['-'] + digits
    } else {
        digits
    }
}

/// The text of a day: the year, the month in two digits and the day in two
/// digits, with hyphens between them.
pub open spec fn format_date(v: DateView) -> Seq<char> {
    year_text(v.year) + seq!['-'] + two_digits(v.month as nat) + seq!['-'] + two_digits(
        v.day as nat,
    )
}

/// A digit is the digit of its value.
pub proof fn lemma_digit(c: char)
    requires
        is_digit(c),
    ensures
        digit_value(c) < 10,
        digit_char(digit_value(c)) == c,
{
}

/// The digits of a number below 10000 that is given by its digits.
proof fn lemma_positions(a: nat, b: nat, c: nat, d: nat)
    requires
        a < 10,
        b < 10,
        c < 10,
        d < 10,
    ensures
        ({
            let v = ((a * 10 + b) * 10 + c) * 10 + d;
            &&& v <= 9999
            &&& v / 1000 == a
            &&& v / 100 % 10 == b
            &&& v / 10 % 10 == c
            &&& v % 10 == d
        }),
{
}

/// The value of a run of digits, by its last digit and the rest.
proof fn lemma_digits_value_step(s: Seq<char>)
    requires
        s.len() > 0,
    ensures
        digits_value(s) == digits_value(s.drop_last()) * 10 + digit_value(s.last()),
{
}

/// Two digits are the two-digit text of their value.
pub proof fn lemma_two_digits(s: Seq<char>)
    requires
        s.len() == 2,
        all_digits(s),
    ensures
        digits_value(s) < 100,
        two_digits(digits_value(s)) == s,
{
    let a = digit_value(s[0]);
    let b = digit_value(s[1]);
    assert(is_digit(s[0]) && is_digit(s[1]));
    lemma_digit(s[0]);
    lemma_digit(s[1]);
    let s1 = s.drop_last();
    lemma_digits_value_step(s);
    lemma_digits_value_step(s1);
    assert(digits_value(s1.drop_last()) == 0);
    assert(digits_value(s) == a * 10 + b);
    lemma_positions(0, 0, a, b);
}

/// Four digits are the four-digit text of their value.
pub proof fn lemma_four_digits(s: Seq<char>)
    requires
        s.len() == 4,
        all_digits(s),
    ensures
        digits_value(s) <= 9999,
        four_digits(digits_value(s)) == s,
{
    let a = digit_value(s[0]);
    let b = digit_value(s[1]);
    let c = digit_value(s[2]);
    let d = digit_value(s[3]);
    assert(is_digit(s[0]) && is_digit(s[1]) && is_digit(s[2]) && is_digit(s[3]));
    lemma_digit(s[0]);
    lemma_digit(s[1]);
    lemma_digit(s[2]);
    lemma_digit(s[3]);
    let s3 = s.drop_last();
    let s2 = s3.drop_last();
    let s1 = s2.drop_last();
    lemma_digits_value_step(s);
    lemma_digits_value_step(s3);
    lemma_digits_value_step(s2);
    lemma_digits_value_step(s1);
    assert(digits_value(s1.drop_last()) == 0);
    assert(digits_value(s) == ((a * 10 + b) * 10 + c) * 10 + d);
    lemma_positions(a, b, c, d);
}

/// Writing a day that was read from a plain date text gives that text.
pub proof fn lemma_date_round_trip(s: Seq<char>)
    requires
        is_plain_date(s),
        parse_date(s) is Some,
    ensures
        format_date(parse_date(s).unwrap()) == s,
{
    lemma_four_digits(s.subrange(0, 4));
    lemma_two_digits(s.subrange(5, 7));
    lemma_two_digits(s.subrange(8, 10));
    assert(s.subrange(0, 4) + seq!['-'] + s.subrange(5, 7) + seq!['-'] + s.subrange(8, 10) == s);
}

/// `chrono::NaiveDate::parse_from_str` with the pattern `%Y-%m-%d`. Of four
/// digits, a hyphen, two digits, a hyphen and two digits it makes the day
/// with those numbers, and fails where the calendar has no such day. Whatever
/// it accepts is a day of the calendar.
#[verifier::external_body]
fn read_by_pattern(s: &str) -> (r: Option<(i32, u32, u32)>)
    ensures
        r == if is_plain_date(s@) {
            plain_date(s@)
        } else {
            date_by_pattern(s@)
        },
        r matches Some((y, m, d)) ==> (DateView {
            year: y as int,
            month: m as int,
            day: d as int,
        }).is_valid(),
{
    match chrono::NaiveDate::parse_from_str(s, "%Y-%m-%d") {
        Ok(d) => Some((d.year(), d.month(), d.day())),
        Err(_) => None,
    }
}

/// `chrono::Local::now`, as a day in local time. The result is a day of the
/// calendar; which one depends on the clock.
#[verifier::external_body]
fn read_clock() -> (r: (i32, u32, u32))
    ensures
        (DateView { year: r.0 as int, month: r.1 as int, day: r.2 as int }).is_valid(),
{
    let d = chrono::Local::now().date_naive();
    (d.year(), d.month(), d.day())
}

/// Appends `n` in two digits.
fn push_two_digits(out: &mut Vec<char>, n: u32)
    requires
        n < 100,
    ensures
        final(out)@ == old(out)@ + two_digits(n as nat),
{
    out.push(char_of_digit((n / 10) as u64));
    out.push(char_of_digit((n % 10) as u64));
    assert(out@ == old(out)@ + two_digits(n as nat));
}

impl Date {
    #[verifier::type_invariant]
    closed spec fn exists_in_calendar(self) -> bool {
        self@.is_valid()
    }

    /// The current day in local time.
    pub fn now() -> (r: Date)
        ensures
            r@.is_valid(),
    {
        let (year, month, day) = read_clock();
        Date { year, month, day }
    }

    /// Reads a day written as year, month and day with hyphens between them.
    pub fn from_str(s: &str) -> (r: Result<Date, FormatError>)
        ensures
            match r {
                Ok(d) => parse_date(s@) == Some(d@) && d@.is_valid(),
                Err(e) => parse_date(s@) is None && e == FormatError::BadDate,
            },
    {
        match read_by_pattern(s) {
            Some((year, month, day)) => Ok(Date { year, month, day }),
            None => Err(FormatError::BadDate),
        }
    }

    /// Reads a day from its characters.
    pub fn from_chars(s: &Vec<char>) -> (r: Option<Date>)
        ensures
            match r {
                Some(d) => parse_date(s@) == Some(d@) && d@.is_valid(),
                None => parse_date(s@) is None,
            },
    {
        match Date::from_str(string_of(s).as_str()) {
            Ok(d) => Some(d),
            Err(_) => None,
        }
    }

    /// The characters of the day.
    pub fn to_chars(&self) -> (r: Vec<char>)
        ensures
            r@ == format_date(self@),
    {
        proof {
            use_type_invariant(self);
        }
        let mut r: Vec<char> = Vec::new();
        let n: u64 = if self.year < 0 {
            r.push('-');
            (-(self.year as i64)) as u64
        } else {
            self.year as u64
        };
        if n <= 9999 {
            r.push(char_of_digit(n / 1000));
            r.push(char_of_digit(n / 100 % 10));
            r.push(char_of_digit(n / 10 % 10));
            r.push(char_of_digit(n % 10));
        } else {
            push_decimal(&mut r, n);
        }
        assert(r@ == year_text(self@.year));
        r.push('-');
        push_two_digits(&mut r, self.month);
        r.push('-');
        push_two_digits(&mut r, self.day);
        r
    }

    /// The text of the day.
    pub fn to_string(&self) -> (r: String)
        ensures
            r@ == format_date(self@),
    {
        string_of(&self.to_chars())
    }
}

impl Default for Date {
    /// The current day in local time.
    fn default() -> (r: Date)
        ensures
            r@.is_valid(),
    {
        Date::now()
    }
}

} // verus!
