//! The priority mark of a task.

use crate::error::FormatError;
use crate::text::{chars_of, same_chars, string_of};
use vstd::prelude::*;

verus! {

/// How urgent a task is.
#[derive(Debug, PartialEq, Eq, Clone, Copy, Structural)]
pub enum Priority {
    A,
    B,
    C,
}

/// The priority that `s` denotes.
pub open spec fn parse_priority(s: Seq<char>) -> Option<Priority> {
    if s == "(A)"@ {
        Some(Priority::A)
    } else if s == "(B)"@ {
        Some(Priority::B)
    } else if s == "(C)"@ {
        Some(Priority::C)
    } else {
        None
    }
}

/// The text of a priority.
pub open spec fn format_priority(p: Priority) -> Seq<char> {
    match p {
        Priority::A => "(A)"@,
        Priority::B => "(B)"@,
        Priority::C => "(C)"@,
    }
}

/// Writing a priority that was read gives the text that was read.
pub proof fn lemma_priority_round_trip(s: Seq<char>)
    requires
        parse_priority(s) is Some,
    ensures
        format_priority(parse_priority(s).unwrap()) == s,
{
}

/// Reading the text of a priority gives that priority.
pub proof fn lemma_priority_parse_format(p: Priority)
    ensures
        parse_priority(format_priority(p)) == Some(p),
{
    reveal_strlit("(A)");
    reveal_strlit("(B)");
    reveal_strlit("(C)");
    assert("(A)"@[1] == 'A');
    assert("(B)"@[1] == 'B');
    assert("(C)"@[1] == 'C');
}

impl Priority {
    /// Reads a priority from its characters.
    pub fn from_chars(s: &Vec<char>) -> (r: Option<Priority>)
        ensures
            r == parse_priority(s@),
    {
        if same_chars(s, &chars_of("(A)")) {
            Some(Priority::A)
        } else if same_chars(s, &chars_of("(B)")) {
            Some(Priority::B)
        } else if same_chars(s, &chars_of("(C)")) {
            Some(Priority::C)
        } else {
            None
        }
    }

    /// Reads `(A)`, `(B)` or `(C)`; anything else is an error.
    pub fn from_str(s: &str) -> (r: Result<Priority, FormatError>)
        ensures
            r == match parse_priority(s@) {
                Some(p) => Ok::<Priority, FormatError>(p),
                None => Err(FormatError::BadPriority),
            },
    {
        match Priority::from_chars(&chars_of(s)) {
            Some(p) => Ok(p),
            None => Err(FormatError::BadPriority),
        }
    }

    /// The characters of the priority.
    pub fn to_chars(&self) -> (r: Vec<char>)
        ensures
            r@ == format_priority(*self),
    {
        match self {
            Priority::A => chars_of("(A)"),
            Priority::B => chars_of("(B)"),
            Priority::C => chars_of("(C)"),
        }
    }

    /// The text of the priority.
    pub fn to_string(&self) -> (r: String)
        ensures
            r@ == format_priority(*self),
    {
        string_of(&self.to_chars())
    }
}

} // verus!
