//! Tags: the typed words that follow a task's description or a note's
//! metadata.

pub mod collection;
pub mod estimate;
pub mod guid;
pub mod recurrence;
pub mod state;

use crate::dates::{
    format_date, is_plain_date, lemma_date_round_trip, parse_date, Date, DateView,
};
use crate::error::FormatError;
use crate::tags::estimate::{
    format_estimate, is_plain_estimate, lemma_estimate_round_trip, parse_estimate, TaskEstimate,
};
use crate::tags::guid::{
    format_guid, is_plain_hyphenated, lemma_guid_round_trip, parse_guid, Guid,
};
use crate::tags::recurrence::{
    format_recurrence, is_plain_recurrence, lemma_recurrence_round_trip, parse_recurrence,
    RecurrenceView, TaskRecurrence,
};
use crate::tags::state::{
    format_state, lemma_state_round_trip, parse_state, TaskState, TaskStateView,
};
use crate::text::{append_chars, chars_of, lowercase, slice_of, starts_with, string_of};
use vstd::prelude::*;

verus! {

/// A typed word. Which kind a word is shows in how it begins.
#[derive(Debug, PartialEq, Eq, Clone)]
pub enum Tag {
    /// `s:` and a state.
    Status(TaskState),
    /// `est:` and an estimate.
    Estimate(TaskEstimate),
    /// `rec:+` and a recurrence.
    StrictRecurrence(TaskRecurrence),
    /// `rec:` and a recurrence.
    LooseRecurrence(TaskRecurrence),
    /// `t:` and a day.
    Threshold(Date),
    /// `n:` and the identifier of a note.
    Note(Guid),
    /// `p:` and a name.
    Person(String),
    /// `!` and a name.
    OneOff(String),
    /// `@` and a name.
    Context(String),
    /// `+` and a name.
    Project(String),
    /// A key, a colon and a value, both in lower case.
    Custom(String, String),
}

/// A tag with its texts as sequences of characters.
#[verifier::ext_equal]
pub enum TagView {
    Status(TaskStateView),
    Estimate(nat),
    StrictRecurrence(RecurrenceView),
    LooseRecurrence(RecurrenceView),
    Threshold(DateView),
    Note(Seq<u8>),
    Person(Seq<char>),
    OneOff(Seq<char>),
    Context(Seq<char>),
    Project(Seq<char>),
    Custom(Seq<char>, Seq<char>),
}

impl View for Tag {
    type V = TagView;

    open spec fn view(&self) -> TagView {
        match self {
            Tag::Status(v) => TagView::Status(v@),
            Tag::Estimate(v) => TagView::Estimate(v@),
            Tag::StrictRecurrence(v) => TagView::StrictRecurrence(v@),
            Tag::LooseRecurrence(v) => TagView::LooseRecurrence(v@),
            Tag::Threshold(v) => TagView::Threshold(v@),
            Tag::Note(v) => TagView::Note(v@),
            Tag::Person(v) => TagView::Person(v@),
            Tag::OneOff(v) => TagView::OneOff(v@),
            Tag::Context(v) => TagView::Context(v@),
            Tag::Project(v) => TagView::Project(v@),
            Tag::Custom(k, v) => TagView::Custom(k@, v@),
        }
    }
}

/// What follows `prefix` in `s`.
pub open spec fn after(s: Seq<char>, prefix: Seq<char>) -> Seq<char> {
    s.skip(prefix.len() as int)
}

/// The place of the first colon of `s`, or the length of `s` where it has
/// none.
pub open spec fn first_colon(s: Seq<char>) -> int
    decreases s.len(),
{
    if s.len() == 0 || s[0] == ':' {
        0
    } else {
        1 + first_colon(s.drop_first())
    }
}

/// The tag that `s` denotes. The beginnings are tried in this order: `s:`,
/// `est:`, `rec:+`, `rec:`, `t:`, `n:`, `p:`, `!`, `@`, `+`; the first that
/// fits decides the kind, and what follows it must then be of that kind. A
/// text of more than one character that begins in none of these ways and
/// holds a colon is a key and a value, which are put in lower case.
pub open spec fn parse_tag(s: Seq<char>) -> Result<TagView, FormatError> {
    if "s:"@.is_prefix_of(s) {
        match parse_state(after(s, "s:"@)) {
            Some(v) => Ok(TagView::Status(v)),
            None => Err(FormatError::BadState),
        }
    } else if "est:"@.is_prefix_of(s) {
        match parse_estimate(after(s, "est:"@)) {
            Ok(v) => Ok(TagView::Estimate(v)),
            Err(e) => Err(e),
        }
    } else if "rec:+"@.is_prefix_of(s) {
        match parse_recurrence(after(s, "rec:+"@)) {
            Ok(v) => Ok(TagView::StrictRecurrence(v)),
            Err(e) => Err(e),
        }
    } else if "rec:"@.is_prefix_of(s) {
        match parse_recurrence(after(s, "rec:"@)) {
            Ok(v) => Ok(TagView::LooseRecurrence(v)),
            Err(e) => Err(e),
        }
    } else if "t:"@.is_prefix_of(s) {
        match parse_date(after(s, "t:"@)) {
            Some(v) => Ok(TagView::Threshold(v)),
            None => Err(FormatError::BadDate),
        }
    } else if "n:"@.is_prefix_of(s) {
        match parse_guid(after(s, "n:"@)) {
            Some(v) => Ok(TagView::Note(v)),
            None => Err(FormatError::BadGuid),
        }
    } else if "p:"@.is_prefix_of(s) {
        Ok(TagView::Person(after(s, "p:"@)))
    } else if "!"@.is_prefix_of(s) {
        Ok(TagView::OneOff(after(s, "!"@)))
    } else if "@"@.is_prefix_of(s) {
        Ok(TagView::Context(after(s, "@"@)))
    } else if "+"@.is_prefix_of(s) {
        Ok(TagView::Project(after(s, "+"@)))
    } else if s.len() > 1 && first_colon(s) < s.len() {
        Ok(
            TagView::Custom(
                lowercase(s.take(first_colon(s))),
                lowercase(s.skip(first_colon(s) + 1)),
            ),
        )
    } else {
        Err(FormatError::NoTagFound)
    }
}

/// The text of a tag.
pub open spec fn format_tag(v: TagView) -> Seq<char> {
    match v {
        TagView::Status(v) => "s:"@ + format_state(v),
        TagView::Estimate(v) => "est:"@ + format_estimate(v),
        TagView::StrictRecurrence(v) => "rec:+"@ + format_recurrence(v),
        TagView::LooseRecurrence(v) => "rec:"@ + format_recurrence(v),
        TagView::Threshold(v) => "t:"@ + format_date(v),
        TagView::Note(v) => "n:"@ + format_guid(v),
        TagView::Person(v) => "p:"@ + v,
        TagView::OneOff(v) => "!"@ + v,
        TagView::Context(v) => "@"@ + v,
        TagView::Project(v) => "+"@ + v,
        TagView::Custom(k, v) => k + ":"@ + v,
    }
}

/// A tag text in the form that is written: what follows the beginning is in
/// the written form of its kind, and a key and a value are in lower case.
pub open spec fn is_plain_tag(s: Seq<char>) -> bool {
    if "s:"@.is_prefix_of(s) {
        true
    } else if "est:"@.is_prefix_of(s) {
        is_plain_estimate(after(s, "est:"@))
    } else if "rec:+"@.is_prefix_of(s) {
        is_plain_recurrence(after(s, "rec:+"@))
    } else if "rec:"@.is_prefix_of(s) {
        is_plain_recurrence(after(s, "rec:"@))
    } else if "t:"@.is_prefix_of(s) {
        is_plain_date(after(s, "t:"@))
    } else if "n:"@.is_prefix_of(s) {
        is_plain_hyphenated(after(s, "n:"@))
    } else if "p:"@.is_prefix_of(s) || "!"@.is_prefix_of(s) || "@"@.is_prefix_of(s) || "+"@.is_prefix_of(
        s,
    ) {
        true
    } else {
        &&& lowercase(s.take(first_colon(s))) == s.take(first_colon(s))
        &&& lowercase(s.skip(first_colon(s) + 1)) == s.skip(first_colon(s) + 1)
    }
}

/// A text that begins with `prefix` is `prefix` and what follows it.
pub proof fn lemma_prefix_parts(s: Seq<char>, prefix: Seq<char>)
    requires
        prefix.is_prefix_of(s),
    ensures
        prefix + after(s, prefix) == s,
{
    assert(s.subrange(0, prefix.len() as int) == prefix);
    assert(prefix + after(s, prefix) =~= s);
}

/// The first colon of a text stands within it, or the text has none.
pub proof fn lemma_first_colon(s: Seq<char>)
    ensures
        0 <= first_colon(s) <= s.len(),
        first_colon(s) < s.len() ==> s[first_colon(s)] == ':',
        forall|i: int| 0 <= i < first_colon(s) ==> s[i] != ':',
    decreases s.len(),
{
    if s.len() == 0 || s[0] == ':' {
    } else {
        let t = s.drop_first();
        lemma_first_colon(t);
        assert forall|i: int| 0 <= i < first_colon(s) implies s[i] != ':' by {
            if i > 0 {
                assert(s[i] == t[i - 1]);
            }
        }
    }
}

/// Writing a tag that was read from a plain tag text gives that text.
pub proof fn lemma_tag_round_trip(s: Seq<char>)
    requires
        is_plain_tag(s),
        parse_tag(s) is Ok,
    ensures
        format_tag(parse_tag(s).unwrap()) == s,
{
    if "s:"@.is_prefix_of(s) {
        lemma_prefix_parts(s, "s:"@);
        lemma_state_round_trip(after(s, "s:"@));
    } else if "est:"@.is_prefix_of(s) {
        lemma_prefix_parts(s, "est:"@);
        lemma_estimate_round_trip(after(s, "est:"@));
    } else if "rec:+"@.is_prefix_of(s) {
        lemma_prefix_parts(s, "rec:+"@);
        lemma_recurrence_round_trip(after(s, "rec:+"@));
    } else if "rec:"@.is_prefix_of(s) {
        lemma_prefix_parts(s, "rec:"@);
        lemma_recurrence_round_trip(after(s, "rec:"@));
    } else if "t:"@.is_prefix_of(s) {
        lemma_prefix_parts(s, "t:"@);
        lemma_date_round_trip(after(s, "t:"@));
    } else if "n:"@.is_prefix_of(s) {
        lemma_prefix_parts(s, "n:"@);
        lemma_guid_round_trip(after(s, "n:"@));
    } else if "p:"@.is_prefix_of(s) {
        lemma_prefix_parts(s, "p:"@);
    } else if "!"@.is_prefix_of(s) {
        lemma_prefix_parts(s, "!"@);
    } else if "@"@.is_prefix_of(s) {
        lemma_prefix_parts(s, "@"@);
    } else if "+"@.is_prefix_of(s) {
        lemma_prefix_parts(s, "+"@);
    } else {
        lemma_first_colon(s);
        reveal_strlit(":");
        let i = first_colon(s);
        assert(":"@ =~= seq![':']);
        assert(s.take(i) + seq![':'] + s.skip(i + 1) =~= s);
    }
}

/// What follows `prefix` in `s`, where `s` begins with it.
pub fn strip_prefix(s: &Vec<char>, prefix: &str) -> (r: Option<Vec<char>>)
    ensures
        r is Some == prefix@.is_prefix_of(s@),
        r matches Some(t) ==> t@ == after(s@, prefix@),
{
    let p = chars_of(prefix);
    if starts_with(s, &p) {
        Some(slice_of(s, p.len(), s.len()))
    } else {
        None
    }
}

/// The place of the first colon of `s`.
pub fn find_colon(s: &Vec<char>) -> (i: usize)
    ensures
        i == first_colon(s@),
        i <= s.len(),
{
    let mut i: usize = 0;
    assert(s@.skip(0) == s@);
    while i < s.len() && s[i] != ':'
        invariant
            i <= s.len(),
            first_colon(s@) == i + first_colon(s@.skip(i as int)),
        decreases s.len() - i,
    {
        assert(s@.skip(i as int).drop_first() == s@.skip(i + 1));
        i += 1;
    }
    i
}

/// The lower-case form of `s` as a string.
fn lower_string(s: &Vec<char>) -> (r: String)
    ensures
        r@ == lowercase(s@),
{
    string_of(s).as_str().to_lowercase()
}

impl Tag {
    /// Reads a tag from its characters.
    pub fn from_chars(s: &Vec<char>) -> (r: Result<Tag, FormatError>)
        ensures
            match r {
                Ok(t) => parse_tag(s@) == Ok::<TagView, FormatError>(t@),
                Err(e) => parse_tag(s@) == Err::<TagView, FormatError>(e),
            },
    {
        if let Some(rest) = strip_prefix(s, "s:") {
            match TaskState::from_chars(&rest) {
                Some(v) => Ok(Tag::Status(v)),
                None => Err(FormatError::BadState),
            }
        } else if let Some(rest) = strip_prefix(s, "est:") {
            match TaskEstimate::from_chars(&rest) {
                Ok(v) => Ok(Tag::Estimate(v)),
                Err(e) => Err(e),
            }
        } else if let Some(rest) = strip_prefix(s, "rec:+") {
            match TaskRecurrence::from_chars(&rest) {
                Ok(v) => Ok(Tag::StrictRecurrence(v)),
                Err(e) => Err(e),
            }
        } else if let Some(rest) = strip_prefix(s, "rec:") {
            match TaskRecurrence::from_chars(&rest) {
                Ok(v) => Ok(Tag::LooseRecurrence(v)),
                Err(e) => Err(e),
            }
        } else if let Some(rest) = strip_prefix(s, "t:") {
            match Date::from_chars(&rest) {
                Some(v) => Ok(Tag::Threshold(v)),
                None => Err(FormatError::BadDate),
            }
        } else if let Some(rest) = strip_prefix(s, "n:") {
            match Guid::from_chars(&rest) {
                Some(v) => Ok(Tag::Note(v)),
                None => Err(FormatError::BadGuid),
            }
        } else if let Some(rest) = strip_prefix(s, "p:") {
            Ok(Tag::Person(string_of(&rest)))
        } else if let Some(rest) = strip_prefix(s, "!") {
            Ok(Tag::OneOff(string_of(&rest)))
        } else if let Some(rest) = strip_prefix(s, "@") {
            Ok(Tag::Context(string_of(&rest)))
        } else if let Some(rest) = strip_prefix(s, "+") {
            Ok(Tag::Project(string_of(&rest)))
        } else {
            let i = find_colon(s);
            if s.len() > 1 && i < s.len() {
                let key = lower_string(&slice_of(s, 0, i));
                let value = lower_string(&slice_of(s, i + 1, s.len()));
                Ok(Tag::Custom(key, value))
            } else {
                Err(FormatError::NoTagFound)
            }
        }
    }

    /// Reads a tag; a text of no kind, or with a flaw in what follows its
    /// beginning, is an error.
    pub fn from_str(s: &str) -> (r: Result<Tag, FormatError>)
        ensures
            match r {
                Ok(t) => parse_tag(s@) == Ok::<TagView, FormatError>(t@),
                Err(e) => parse_tag(s@) == Err::<TagView, FormatError>(e),
            },
    {
        Tag::from_chars(&chars_of(s))
    }

    /// The characters of the tag.
    pub fn to_chars(&self) -> (r: Vec<char>)
        ensures
            r@ == format_tag(self@),
    {
        match self {
            Tag::Status(v) => prefixed("s:", &v.to_chars()),
            Tag::Estimate(v) => prefixed("est:", &v.to_chars()),
            Tag::StrictRecurrence(v) => prefixed("rec:+", &v.to_chars()),
            Tag::LooseRecurrence(v) => prefixed("rec:", &v.to_chars()),
            Tag::Threshold(v) => prefixed("t:", &v.to_chars()),
            Tag::Note(v) => prefixed("n:", &v.to_chars()),
            Tag::Person(v) => prefixed("p:", &chars_of(v.as_str())),
            Tag::OneOff(v) => prefixed("!", &chars_of(v.as_str())),
            Tag::Context(v) => prefixed("@", &chars_of(v.as_str())),
            Tag::Project(v) => prefixed("+", &chars_of(v.as_str())),
            Tag::Custom(k, v) => {
                let mut r = chars_of(k.as_str());
                append_chars(&mut r, &chars_of(":"));
                append_chars(&mut r, &chars_of(v.as_str()));
                r
            },
        }
    }

    /// The text of the tag.
    pub fn to_string(&self) -> (r: String)
        ensures
            r@ == format_tag(self@),
    {
        string_of(&self.to_chars())
    }
}

/// `prefix` and then `rest`.
fn prefixed(prefix: &str, rest: &Vec<char>) -> (r: Vec<char>)
    ensures
        r@ == prefix@ + rest@,
{
    let mut r = chars_of(prefix);
    append_chars(&mut r, rest);
    r
}

} // verus!
