//! How often a task comes back, written after `rec:` or `rec:+`.

use crate::error::FormatError;
use crate::numbers::{
    decimal, is_plain_number, lemma_plain_number_round_trip, number, parse_number, push_decimal,
};
use crate::text::{chars_of, slice_of, string_of};
use vstd::prelude::*;

verus! {

/// The most days that a recurrence can span: what fits in `i64::MAX`
/// milliseconds.
pub const MAX_DAYS: u64 = 106_751_991_167;

/// The most weeks that a recurrence can span.
pub const MAX_WEEKS: u64 = 15_250_284_452;

/// The most years that a recurrence can span, a year counting 52 weeks.
pub const MAX_YEARS: u64 = 293_274_701;

/// The unit in which a recurrence was written.
#[derive(Debug, PartialEq, Eq, Clone, Copy, Structural)]
pub enum RecurrenceUnit {
    Days,
    Weeks,
    Years,
}

/// A span of time after which a task comes back. A span written in years is
/// kept in weeks, 52 to the year.
#[derive(Debug, PartialEq, Eq, Clone, Copy)]
pub struct TaskRecurrence {
    unit: RecurrenceUnit,
    span: u64,
}

/// A recurrence: its unit, and its span in days where the unit is days, in
/// weeks otherwise.
pub struct RecurrenceView {
    pub unit: RecurrenceUnit,
    pub span: nat,
}

impl View for TaskRecurrence {
    type V = RecurrenceView;

    closed spec fn view(&self) -> RecurrenceView {
        RecurrenceView { unit: self.unit, span: self.span as nat }
    }
}

/// The unit that a letter stands for.
pub open spec fn unit_of(c: char) -> Option<RecurrenceUnit> {
    if c == 'd' {
        Some(RecurrenceUnit::Days)
    } else if c == 'w' {
        Some(RecurrenceUnit::Weeks)
    } else if c == 'y' {
        Some(RecurrenceUnit::Years)
    } else {
        None
    }
}

/// The letter that stands for a unit.
pub open spec fn unit_char(u: RecurrenceUnit) -> char {
    match u {
        RecurrenceUnit::Days => 'd',
        RecurrenceUnit::Weeks => 'w',
        RecurrenceUnit::Years => 'y',
    }
}

/// The greatest count that may be written with a unit.
pub open spec fn max_count(u: RecurrenceUnit) -> nat {
    match u {
        RecurrenceUnit::Days => MAX_DAYS as nat,
        RecurrenceUnit::Weeks => MAX_WEEKS as nat,
        RecurrenceUnit::Years => MAX_YEARS as nat,
    }
}

/// The span that is kept for `count` units.
pub open spec fn span_of(u: RecurrenceUnit, count: nat) -> nat {
    match u {
        RecurrenceUnit::Years => count * 52,
        _ => count,
    }
}

/// The count that is written for a span.
pub open spec fn count_of(u: RecurrenceUnit, span: nat) -> nat {
    match u {
        RecurrenceUnit::Years => span / 52,
        _ => span,
    }
}

/// The recurrence that `s` denotes: a count, then one of `d`, `w`, `y`.
pub open spec fn parse_recurrence(s: Seq<char>) -> Result<RecurrenceView, FormatError> {
    if s.len() == 0 {
        Err(FormatError::MissingUnit)
    } else {
        match unit_of(s.last()) {
            None => Err(FormatError::MissingUnit),
            Some(u) => match number(s.drop_last()) {
                None => Err(FormatError::BadNumber),
                Some(n) => if n <= max_count(u) {
                    Ok(RecurrenceView { unit: u, span: span_of(u, n as nat) })
                } else {
                    Err(FormatError::TooLong)
                },
            },
        }
    }
}

/// The text of a recurrence.
pub open spec fn format_recurrence(v: RecurrenceView) -> Seq<char> {
    decimal(count_of(v.unit, v.span)).push(unit_char(v.unit))
}

/// A recurrence text in the form that is written: a count without sign or
/// leading zero, then the unit.
pub open spec fn is_plain_recurrence(s: Seq<char>) -> bool {
    s.len() > 0 && is_plain_number(s.drop_last())
}

/// Writing a recurrence that was read from a plain text gives that text.
/// This holds of years too: a count of years is kept as 52 times as many
/// weeks, and written as the 52nd part of those.
pub proof fn lemma_recurrence_round_trip(s: Seq<char>)
    requires
        is_plain_recurrence(s),
        parse_recurrence(s) is Ok,
    ensures
        format_recurrence(parse_recurrence(s).unwrap()) == s,
{
    let d = s.drop_last();
    lemma_plain_number_round_trip(d);
    assert(d[0] != '+');
    assert(d.push(s.last()) == s);
}

impl TaskRecurrence {
    /// A span of `days`.
    pub fn with_days(days: u64) -> (r: TaskRecurrence)
        ensures
            r@ == (RecurrenceView { unit: RecurrenceUnit::Days, span: days as nat }),
    {
        TaskRecurrence { unit: RecurrenceUnit::Days, span: days }
    }

    /// A span of `weeks`.
    pub fn with_weeks(weeks: u64) -> (r: TaskRecurrence)
        ensures
            r@ == (RecurrenceView { unit: RecurrenceUnit::Weeks, span: weeks as nat }),
    {
        TaskRecurrence { unit: RecurrenceUnit::Weeks, span: weeks }
    }

    /// A span of `years`, kept as 52 weeks to the year.
    pub fn with_years(years: u64) -> (r: TaskRecurrence)
        requires
            years * 52 <= u64::MAX,
        ensures
            r@ == (RecurrenceView { unit: RecurrenceUnit::Years, span: (years * 52) as nat }),
    {
        TaskRecurrence { unit: RecurrenceUnit::Years, span: years * 52 }
    }

    /// Reads a recurrence from its characters.
    pub fn from_chars(s: &Vec<char>) -> (r: Result<TaskRecurrence, FormatError>)
        ensures
            match r {
                Ok(v) => parse_recurrence(s@) == Ok::<RecurrenceView, FormatError>(v@),
                Err(e) => parse_recurrence(s@) == Err::<RecurrenceView, FormatError>(e),
            },
    {
        if s.len() == 0 {
            return Err(FormatError::MissingUnit);
        }
        let c = s[s.len() - 1];
        if c != 'd' && c != 'w' && c != 'y' {
            return Err(FormatError::MissingUnit);
        }
        let n = match parse_number(&slice_of(s, 0, s.len() - 1)) {
            Some(n) => n,
            None => {
                return Err(FormatError::BadNumber);
            },
        };
        if c == 'd' {
            if n <= MAX_DAYS {
                Ok(TaskRecurrence::with_days(n))
            } else {
                Err(FormatError::TooLong)
            }
        } else if c == 'w' {
            if n <= MAX_WEEKS {
                Ok(TaskRecurrence::with_weeks(n))
            } else {
                Err(FormatError::TooLong)
            }
        } else {
            if n <= MAX_YEARS {
                Ok(TaskRecurrence::with_years(n))
            } else {
                Err(FormatError::TooLong)
            }
        }
    }

    /// Reads a count followed by `d`, `w` or `y`.
    pub fn from_str(s: &str) -> (r: Result<TaskRecurrence, FormatError>)
        ensures
            match r {
                Ok(v) => parse_recurrence(s@) == Ok::<RecurrenceView, FormatError>(v@),
                Err(e) => parse_recurrence(s@) == Err::<RecurrenceView, FormatError>(e),
            },
    {
        TaskRecurrence::from_chars(&chars_of(s))
    }

    /// The characters of the recurrence.
    pub fn to_chars(&self) -> (r: Vec<char>)
        ensures
            r@ == format_recurrence(self@),
    {
        let mut r: Vec<char> = Vec::new();
        match self.unit {
            RecurrenceUnit::Days => {
                push_decimal(&mut r, self.span);
                r.push('d');
            },
            RecurrenceUnit::Weeks => {
                push_decimal(&mut r, self.span);
                r.push('w');
            },
            RecurrenceUnit::Years => {
                push_decimal(&mut r, self.span / 52);
                r.push('y');
            },
        }
        r
    }

    /// The text of the recurrence.
    pub fn to_string(&self) -> (r: String)
        ensures
            r@ == format_recurrence(self@),
    {
        string_of(&self.to_chars())
    }
}

} // verus!
