//! How long a task is expected to take, written after `est:`.

use crate::error::FormatError;
use crate::numbers::{
    decimal, is_plain_number, lemma_plain_number_round_trip, number, parse_number, push_decimal,
};
use crate::text::{append_chars, chars_of, slice_of, starts_with, string_of};
use vstd::prelude::*;

verus! {

/// An estimate in whole minutes.
#[derive(Debug, PartialEq, Eq, Clone, Copy)]
pub struct TaskEstimate {
    minutes: u64,
}

impl View for TaskEstimate {
    type V = nat;

    closed spec fn view(&self) -> nat {
        self.minutes as nat
    }
}

/// Whether `s` ends with `unit`.
pub fn ends_with(s: &Vec<char>, unit: &Vec<char>) -> (b: bool)
    ensures
        b == unit@.is_suffix_of(s@),
{
    if unit.len() > s.len() {
        return false;
    }
    let from: usize = s.len() - unit.len();
    let tail = slice_of(s, from, s.len());
    let b = starts_with(&tail, unit);
    proof {
        assert(tail@.subrange(0, unit@.len() as int) == tail@);
    }
    b
}

/// The number that stands before `unit` in `val`.
pub open spec fn quantity(val: Seq<char>, unit: Seq<char>) -> Result<u64, FormatError> {
    if !unit.is_suffix_of(val) {
        Err(FormatError::MissingUnit)
    } else {
        match number(val.take(val.len() - unit.len())) {
            Some(n) => Ok(n),
            None => Err(FormatError::BadNumber),
        }
    }
}

/// Reads the number that stands before `unit` in `val`.
pub fn get_u64_or_err(val: &str, unit: &str) -> (r: Result<u64, FormatError>)
    ensures
        r == quantity(val@, unit@),
{
    quantity_of(&chars_of(val), &chars_of(unit))
}

/// Reads the number that stands before `unit` in `val`.
pub fn quantity_of(val: &Vec<char>, unit: &Vec<char>) -> (r: Result<u64, FormatError>)
    ensures
        r == quantity(val@, unit@),
{
    if !ends_with(val, unit) {
        Err(FormatError::MissingUnit)
    } else {
        match parse_number(&slice_of(val, 0, val.len() - unit.len())) {
            Some(n) => Ok(n),
            None => Err(FormatError::BadNumber),
        }
    }
}

/// The estimate that `s` denotes: whole minutes, then `min`.
pub open spec fn parse_estimate(s: Seq<char>) -> Result<nat, FormatError> {
    match quantity(s, "min"@) {
        Ok(n) => Ok(n as nat),
        Err(e) => Err(e),
    }
}

/// The text of an estimate of `minutes`.
pub open spec fn format_estimate(minutes: nat) -> Seq<char> {
    decimal(minutes) + "min"@
}

/// An estimate text in the form that is written: no sign, no leading zero.
pub open spec fn is_plain_estimate(s: Seq<char>) -> bool {
    "min"@.is_suffix_of(s) && is_plain_number(s.take(s.len() - "min"@.len()))
}

/// Writing an estimate that was read from a plain text gives that text.
pub proof fn lemma_estimate_round_trip(s: Seq<char>)
    requires
        is_plain_estimate(s),
        parse_estimate(s) is Ok,
    ensures
        format_estimate(parse_estimate(s).unwrap()) == s,
{
    let d = s.take(s.len() - "min"@.len());
    lemma_plain_number_round_trip(d);
    assert(d[0] != '+');
    assert(d + "min"@ == s);
}

impl TaskEstimate {
    /// An estimate of `minutes`.
    pub fn new(minutes: u64) -> (r: TaskEstimate)
        ensures
            r@ == minutes,
    {
        TaskEstimate { minutes }
    }

    /// Reads an estimate from its characters.
    pub fn from_chars(s: &Vec<char>) -> (r: Result<TaskEstimate, FormatError>)
        ensures
            match r {
                Ok(v) => parse_estimate(s@) == Ok::<nat, FormatError>(v@),
                Err(e) => parse_estimate(s@) == Err::<nat, FormatError>(e),
            },
    {
        match quantity_of(s, &chars_of("min")) {
            Ok(n) => Ok(TaskEstimate::new(n)),
            Err(e) => Err(e),
        }
    }

    /// Reads whole minutes followed by `min`.
    pub fn from_str(s: &str) -> (r: Result<TaskEstimate, FormatError>)
        ensures
            match r {
                Ok(v) => parse_estimate(s@) == Ok::<nat, FormatError>(v@),
                Err(e) => parse_estimate(s@) == Err::<nat, FormatError>(e),
            },
    {
        TaskEstimate::from_chars(&chars_of(s))
    }

    /// The characters of the estimate.
    pub fn to_chars(&self) -> (r: Vec<char>)
        ensures
            r@ == format_estimate(self@),
    {
        let mut r: Vec<char> = Vec::new();
        push_decimal(&mut r, self.minutes);
        append_chars(&mut r, &chars_of("min"));
        r
    }

    /// The text of the estimate.
    pub fn to_string(&self) -> (r: String)
        ensures
            r@ == format_estimate(self@),
    {
        string_of(&self.to_chars())
    }
}

} // verus!
