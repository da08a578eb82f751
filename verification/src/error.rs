//! Why a text was not understood.

use vstd::prelude::*;

verus! {

/// A violation of one of the grammars.
#[derive(Debug, PartialEq, Eq, Clone, Copy, Structural)]
pub enum FormatError {
    /// Nothing but white space where a task or a tag list was expected.
    EmptyInput,
    /// Not one of `(A)`, `(B)`, `(C)`.
    BadPriority,
    /// Not a calendar day written as year, month and day.
    BadDate,
    /// Not an identifier in hyphenated form.
    BadGuid,
    /// Not a task state.
    BadState,
    /// The unit that a quantity ends with is missing.
    MissingUnit,
    /// The digits of a quantity are missing or denote too large a number.
    BadNumber,
    /// A recurrence that spans more than can be counted in milliseconds.
    TooLong,
    /// A word that has the shape of no tag.
    NoTagFound,
    /// A task line without a description.
    MissingDescription,
    /// A second completion mark before the description.
    DuplicateCompletion,
    /// A third date before the description.
    TooManyDates,
    /// A note of fewer than three lines.
    NoteTooShort,
    /// A heading that is not a run of `#`, a space and a title.
    BadHeading,
    /// A metadata line that lacks its mark or one of its three fields.
    BadMetadata,
}

/// A state that can be made but that no text denotes: what is written of it
/// cannot be read again.
#[derive(Debug, PartialEq, Eq, Clone, Copy, Structural)]
pub enum InvariantViolation {
    /// A task whose description holds no word.
    EmptyDescription,
    /// A note without a line of content.
    NoteWithoutContent,
}

} // verus!
