//! The workflow state of a task, written after `s:`.

use crate::error::FormatError;
use crate::text::{append_chars, chars_of, same_chars, slice_of, starts_with, string_of};
use vstd::prelude::*;

verus! {

/// Where a task stands in its workflow. The waiting states carry a comment.
#[derive(Debug, PartialEq, Eq, Clone)]
pub enum TaskState {
    Todo,
    Next,
    Hold(String),
    Wait(String),
    Done,
    Cancelled(String),
}

/// A task state with its comment as a text.
#[verifier::ext_equal]
pub enum TaskStateView {
    Todo,
    Next,
    Hold(Seq<char>),
    Wait(Seq<char>),
    Done,
    Cancelled(Seq<char>),
}

impl View for TaskState {
    type V = TaskStateView;

    open spec fn view(&self) -> TaskStateView {
        match self {
            TaskState::Todo => TaskStateView::Todo,
            TaskState::Next => TaskStateView::Next,
            TaskState::Hold(c) => TaskStateView::Hold(c@),
            TaskState::Wait(c) => TaskStateView::Wait(c@),
            TaskState::Done => TaskStateView::Done,
            TaskState::Cancelled(c) => TaskStateView::Cancelled(c@),
        }
    }
}

/// `s` is `name`, a comment and a closing bracket.
pub open spec fn is_call(s: Seq<char>, name: Seq<char>) -> bool {
    name.is_prefix_of(s) && s.len() > name.len() && s.last() == ')'
}

/// What stands between `name` and the closing bracket.
pub open spec fn call_comment(s: Seq<char>, name: Seq<char>) -> Seq<char> {
    s.subrange(name.len() as int, s.len() - 1)
}

/// The state that `s` denotes: `todo`, `next`, `done`, or one of `hold(..)`,
/// `wait(..)`, `cancelled(..)`, whose comment is all that stands between the
/// first opening and the last closing bracket.
pub open spec fn parse_state(s: Seq<char>) -> Option<TaskStateView> {
    if is_call(s, "hold("@) {
        Some(TaskStateView::Hold(call_comment(s, "hold("@)))
    } else if is_call(s, "wait("@) {
        Some(TaskStateView::Wait(call_comment(s, "wait("@)))
    } else if is_call(s, "cancelled("@) {
        Some(TaskStateView::Cancelled(call_comment(s, "cancelled("@)))
    } else if s == "todo"@ {
        Some(TaskStateView::Todo)
    } else if s == "next"@ {
        Some(TaskStateView::Next)
    } else if s == "done"@ {
        Some(TaskStateView::Done)
    } else {
        None
    }
}

/// The text of a state.
pub open spec fn format_state(v: TaskStateView) -> Seq<char> {
    match v {
        TaskStateView::Todo => "todo"@,
        TaskStateView::Next => "next"@,
        TaskStateView::Hold(c) => "hold("@ + c + ")"@,
        TaskStateView::Wait(c) => "wait("@ + c + ")"@,
        TaskStateView::Done => "done"@,
        TaskStateView::Cancelled(c) => "cancelled("@ + c + ")"@,
    }
}

/// A call is its name, its comment and a closing bracket.
pub proof fn lemma_call_parts(s: Seq<char>, name: Seq<char>)
    requires
        is_call(s, name),
    ensures
        name + call_comment(s, name) + ")"@ == s,
{
    reveal_strlit(")");
    assert(s.subrange(0, name.len() as int) == name);
    assert(")"@ == seq![')']);
    assert(name + call_comment(s, name) + seq![')'] == s);
}

/// Writing a state that was read gives the text that was read.
pub proof fn lemma_state_round_trip(s: Seq<char>)
    requires
        parse_state(s) is Some,
    ensures
        format_state(parse_state(s).unwrap()) == s,
{
    if is_call(s, "hold("@) {
        lemma_call_parts(s, "hold("@);
    } else if is_call(s, "wait("@) {
        lemma_call_parts(s, "wait("@);
    } else if is_call(s, "cancelled("@) {
        lemma_call_parts(s, "cancelled("@);
    }
}

/// The comment of `s` where it is a call of `name`.
fn comment_of(s: &Vec<char>, name: &str) -> (r: Option<String>)
    ensures
        r is Some == is_call(s@, name@),
        r matches Some(c) ==> c@ == call_comment(s@, name@),
{
    let n = chars_of(name);
    if starts_with(s, &n) && s.len() > n.len() && s[s.len() - 1] == ')' {
        Some(string_of(&slice_of(s, n.len(), s.len() - 1)))
    } else {
        None
    }
}

impl TaskState {
    /// Reads a state from its characters.
    pub fn from_chars(s: &Vec<char>) -> (r: Option<TaskState>)
        ensures
            match r {
                Some(v) => parse_state(s@) == Some(v@),
                None => parse_state(s@) is None,
            },
    {
        if let Some(c) = comment_of(s, "hold(") {
            Some(TaskState::Hold(c))
        } else if let Some(c) = comment_of(s, "wait(") {
            Some(TaskState::Wait(c))
        } else if let Some(c) = comment_of(s, "cancelled(") {
            Some(TaskState::Cancelled(c))
        } else if same_chars(s, &chars_of("todo")) {
            Some(TaskState::Todo)
        } else if same_chars(s, &chars_of("next")) {
            Some(TaskState::Next)
        } else if same_chars(s, &chars_of("done")) {
            Some(TaskState::Done)
        } else {
            None
        }
    }

    /// Reads a state; a text that denotes none is an error.
    pub fn from_str(s: &str) -> (r: Result<TaskState, FormatError>)
        ensures
            match r {
                Ok(v) => parse_state(s@) == Some(v@),
                Err(e) => parse_state(s@) is None && e == FormatError::BadState,
            },
    {
        match TaskState::from_chars(&chars_of(s)) {
            Some(v) => Ok(v),
            None => Err(FormatError::BadState),
        }
    }

    /// The characters of the state.
    pub fn to_chars(&self) -> (r: Vec<char>)
        ensures
            r@ == format_state(self@),
    {
        let (name, comment) = match self {
            TaskState::Todo => { return chars_of("todo"); },
            TaskState::Next => { return chars_of("next"); },
            TaskState::Done => { return chars_of("done"); },
            TaskState::Hold(c) => ("hold(", c),
            TaskState::Wait(c) => ("wait(", c),
            TaskState::Cancelled(c) => ("cancelled(", c),
        };
        let mut r = chars_of(name);
        append_chars(&mut r, &chars_of(comment.as_str()));
        append_chars(&mut r, &chars_of(")"));
        r
    }

    /// The text of the state.
    pub fn to_string(&self) -> (r: String)
        ensures
            r@ == format_state(self@),
    {
        string_of(&self.to_chars())
    }
}

impl Default for TaskState {
    fn default() -> (r: TaskState)
        ensures
            r == TaskState::Todo,
    {
        TaskState::Todo
    }
}

} // verus!
