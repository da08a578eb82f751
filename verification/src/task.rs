//! A task: one line that holds an optional prefix, a description and an
//! optional list of tags.

use crate::dates::{format_date, is_plain_date, lemma_date_round_trip, parse_date, Date, DateView};
use crate::error::FormatError;
use crate::priority::{format_priority, lemma_priority_round_trip, parse_priority, Priority};
use crate::tags::collection::{
    all_plain_tags, format_tags, lemma_parse_all_round_trip, parse_all, parse_words, TagCollection,
};
use crate::tags::{parse_tag, Tag, TagView};
use crate::text::{
    chars_of, join, join_words, lemma_join_flatten, lemma_join_is_not_empty,
    lemma_words_hold_no_space, same_chars, slice_of, split_words, string_of, texts, words,
};
use vstd::prelude::*;

verus! {

/// A thing to do.
#[derive(Debug, PartialEq, Eq, Clone)]
pub struct Task {
    is_completed: bool,
    priority_level: Option<Priority>,
    completion_date: Option<Date>,
    creation_date: Option<Date>,
    description: String,
    tags: Option<TagCollection>,
}

/// What a task holds.
#[verifier::ext_equal]
pub struct TaskView {
    pub completed: bool,
    pub priority: Option<Priority>,
    pub completion_date: Option<DateView>,
    pub creation_date: Option<DateView>,
    pub description: Seq<char>,
    pub tags: Option<Seq<TagView>>,
}

/// The view of a date that may be missing.
pub open spec fn date_view(d: Option<Date>) -> Option<DateView> {
    match d {
        Some(d) => Some(d@),
        None => None,
    }
}

/// The view of a list of tags that may be missing.
pub open spec fn tags_view(t: Option<TagCollection>) -> Option<Seq<TagView>> {
    match t {
        Some(t) => Some(t@),
        None => None,
    }
}

impl View for Task {
    type V = TaskView;

    closed spec fn view(&self) -> TaskView {
        TaskView {
            completed: self.is_completed,
            priority: self.priority_level,
            completion_date: date_view(self.completion_date),
            creation_date: date_view(self.creation_date),
            description: self.description@,
            tags: tags_view(self.tags),
        }
    }
}

impl TaskView {
    /// What holds of every task that was read: it has a description; it has
    /// a day of completion only together with a day of creation; and where
    /// it has tags, it has one at least.
    pub open spec fn is_valid(self) -> bool {
        &&& self.description.len() > 0
        &&& self.completion_date is Some ==> self.creation_date is Some
        &&& self.tags matches Some(ts) ==> ts.len() > 0
    }
}

/// A word that may stand before the description: the completion mark `x`, a
/// priority or a date.
pub open spec fn is_prefix_word(w: Seq<char>) -> bool {
    w == "x"@ || parse_priority(w) is Some || parse_date(w) is Some
}

/// A word that denotes a tag.
pub open spec fn is_tag_word(w: Seq<char>) -> bool {
    parse_tag(w) is Ok
}

/// The number of words that make the prefix: the leading words that may
/// stand before the description.
pub open spec fn prefix_count(ws: Seq<Seq<char>>) -> nat
    decreases ws.len(),
{
    if ws.len() > 0 && is_prefix_word(ws[0]) {
        1 + prefix_count(ws.drop_first())
    } else {
        0
    }
}

/// Where the description that begins at `from` ends: at the first word from
/// there on that denotes a tag, or after the last word.
pub open spec fn description_end(ws: Seq<Seq<char>>, from: int) -> int
    decreases ws.len() - from,
{
    if from < 0 || from >= ws.len() {
        ws.len() as int
    } else if is_tag_word(ws[from]) {
        from
    } else {
        description_end(ws, from + 1)
    }
}

/// What the prefix of a task says.
pub struct PrefixView {
    pub completed: bool,
    pub priority: Option<Priority>,
    pub completion_date: Option<DateView>,
    pub creation_date: Option<DateView>,
}

/// What an empty prefix says.
pub open spec fn empty_prefix() -> PrefixView {
    PrefixView { completed: false, priority: None, completion_date: None, creation_date: None }
}

/// What the prefix says after one more word. The mark `x` completes the
/// task, once. A priority replaces the one before. The first date is the
/// day of creation; a second date makes the first the day of completion and
/// is itself the day of creation; there is no third.
pub open spec fn prefix_step(st: PrefixView, w: Seq<char>) -> Result<PrefixView, FormatError> {
    if w == "x"@ && !st.completed {
        Ok(PrefixView { completed: true, ..st })
    } else if parse_priority(w) is Some {
        Ok(PrefixView { priority: parse_priority(w), ..st })
    } else if parse_date(w) is Some && st.completion_date is None {
        if st.creation_date is Some {
            Ok(PrefixView { completion_date: st.creation_date, creation_date: parse_date(w), ..st })
        } else {
            Ok(PrefixView { creation_date: parse_date(w), ..st })
        }
    } else if w == "x"@ {
        Err(FormatError::DuplicateCompletion)
    } else {
        Err(FormatError::TooManyDates)
    }
}

/// What the words of a prefix say, taken in order, or the error of the first
/// word that does not fit.
pub open spec fn read_prefix(ws: Seq<Seq<char>>) -> Result<PrefixView, FormatError>
    decreases ws.len(),
{
    if ws.len() == 0 {
        Ok(empty_prefix())
    } else {
        match read_prefix(ws.drop_last()) {
            Err(e) => Err(e),
            Ok(st) => prefix_step(st, ws.last()),
        }
    }
}

/// The task that `s` denotes. Its words are taken in order: the leading
/// words that may stand in a prefix are the prefix; the words from there up
/// to the first that denotes a tag are the description, of which there must
/// be one at least; that word and all that follow are the tags.
pub open spec fn parse_task(s: Seq<char>) -> Result<TaskView, FormatError> {
    let ws = words(s);
    let p = prefix_count(ws) as int;
    let e = description_end(ws, p);
    if ws.len() == 0 {
        Err(FormatError::EmptyInput)
    } else if e == p {
        Err(FormatError::MissingDescription)
    } else {
        match read_prefix(ws.take(p)) {
            Err(err) => Err(err),
            Ok(pre) => {
                let tags = if e == ws.len() {
                    Ok(None)
                } else {
                    match parse_all(ws.skip(e)) {
                        Ok(ts) => Ok(Some(ts)),
                        Err(err) => Err(err),
                    }
                };
                match tags {
                    Err(err) => Err(err),
                    Ok(tags) => Ok(
                        TaskView {
                            completed: pre.completed,
                            priority: pre.priority,
                            completion_date: pre.completion_date,
                            creation_date: pre.creation_date,
                            description: join(ws.subrange(p, e)),
                            tags,
                        },
                    ),
                }
            },
        }
    }
}

/// One text, or none.
pub open spec fn optional(present: bool, w: Seq<char>) -> Seq<Seq<char>> {
    if present {
        seq![w]
    } else {
        Seq::empty()
    }
}

/// The texts of the date, if there is one.
pub open spec fn date_part(d: Option<DateView>) -> Seq<Seq<char>> {
    match d {
        Some(d) => seq![format_date(d)],
        None => Seq::empty(),
    }
}

/// The parts of the text of a prefix: the completion mark, the priority, the
/// day of completion and the day of creation, each where it is there.
pub open spec fn prefix_parts(
    completed: bool,
    priority: Option<Priority>,
    completion_date: Option<DateView>,
    creation_date: Option<DateView>,
) -> Seq<Seq<char>> {
    optional(completed, "x"@) + (match priority {
        Some(p) => seq![format_priority(p)],
        None => Seq::empty(),
    }) + date_part(completion_date) + date_part(creation_date)
}

/// The parts of the text of a task: the prefix, the description and the
/// tags.
pub open spec fn task_parts(v: TaskView) -> Seq<Seq<char>> {
    prefix_parts(v.completed, v.priority, v.completion_date, v.creation_date) + seq![
        v.description,
    ] + (match v.tags {
        Some(ts) => seq![format_tags(ts)],
        None => Seq::empty(),
    })
}

/// The text of a task: its parts with single spaces between them.
pub open spec fn format_task(v: TaskView) -> Seq<char> {
    join(task_parts(v))
}

/// Whether `s` may stand before the description.
pub fn _is_prefix(s: &str) -> (b: bool)
    ensures
        b == is_prefix_word(s@),
{
    prefix_word(&chars_of(s))
}

/// Whether `s` denotes a tag.
pub fn _is_suffix(s: &str) -> (b: bool)
    ensures
        b == is_tag_word(s@),
{
    Tag::from_chars(&chars_of(s)).is_ok()
}

/// Whether `w` may stand before the description.
fn prefix_word(w: &Vec<char>) -> (b: bool)
    ensures
        b == is_prefix_word(w@),
{
    same_chars(w, &chars_of("x")) || Priority::from_chars(w).is_some() || Date::from_chars(
        w,
    ).is_some()
}

/// Reads the first `count` words as a prefix.
pub fn process_prefix(ws: &Vec<Vec<char>>, count: usize) -> (r: Result<Task, FormatError>)
    requires
        count <= ws.len(),
    ensures
        match r {
            Ok(t) => read_prefix(texts(ws@).take(count as int)) == Ok::<PrefixView, FormatError>(
                PrefixView {
                    completed: t@.completed,
                    priority: t@.priority,
                    completion_date: t@.completion_date,
                    creation_date: t@.creation_date,
                },
            ) && t@.description == Seq::<char>::empty() && t@.tags is None,
            Err(e) => read_prefix(texts(ws@).take(count as int)) == Err::<PrefixView, FormatError>(e),
        },
{
    let mut completion_date: Option<Date> = None;
    let mut creation_date: Option<Date> = None;
    let mut priority: Option<Priority> = None;
    let mut is_done = false;
    let mut i: usize = 0;
    let ghost all = texts(ws@);
    while i < count
        invariant
            i <= count <= ws.len(),
            all == texts(ws@),
            read_prefix(all.take(i as int)) == Ok::<PrefixView, FormatError>(
                PrefixView {
                    completed: is_done,
                    priority,
                    completion_date: date_view(completion_date),
                    creation_date: date_view(creation_date),
                },
            ),
        decreases count - i,
    {
        let w = &ws[i];
        proof {
            assert(all.take(i + 1).drop_last() =~= all.take(i as int));
            assert(all.take(i + 1).last() == w@);
        }
        let is_x = same_chars(w, &chars_of("x"));
        let p = Priority::from_chars(w);
        let d = Date::from_chars(w);
        if is_x && !is_done {
            is_done = true;
        } else if p.is_some() {
            priority = p;
        } else if d.is_some() && completion_date.is_none() {
            if creation_date.is_some() {
                completion_date = creation_date;
            }
            creation_date = d;
        } else {
            let e = if is_x {
                FormatError::DuplicateCompletion
            } else {
                FormatError::TooManyDates
            };
            proof {
                assert(all.take(count as int).take(i + 1) =~= all.take(i + 1));
                assert(read_prefix(all.take(i + 1)) == Err::<PrefixView, FormatError>(e));
                lemma_read_prefix_fails(all.take(count as int), i + 1);
            }
            return Err(e);
        }
        i += 1;
    }
    Ok(
        Task {
            is_completed: is_done,
            priority_level: priority,
            completion_date,
            creation_date,
            description: String::new(),
            tags: None,
        },
    )
}

/// Where the first words of a prefix do not fit, the prefix does not, and
/// for the same reason.
pub proof fn lemma_read_prefix_fails(ws: Seq<Seq<char>>, n: int)
    requires
        0 <= n <= ws.len(),
        read_prefix(ws.take(n)) is Err,
    ensures
        read_prefix(ws) == read_prefix(ws.take(n)),
    decreases ws.len(),
{
    if n == ws.len() {
        assert(ws.take(n) =~= ws);
    } else {
        assert(ws.drop_last().take(n) =~= ws.take(n));
        lemma_read_prefix_fails(ws.drop_last(), n);
    }
}

/// The words from place `from` up to, not including, `to`.
fn words_between(ws: &Vec<Vec<char>>, from: usize, to: usize) -> (r: Vec<Vec<char>>)
    requires
        from <= to <= ws.len(),
    ensures
        texts(r@) == texts(ws@).subrange(from as int, to as int),
{
    let mut r: Vec<Vec<char>> = Vec::new();
    let mut i: usize = from;
    while i < to
        invariant
            from <= i <= to <= ws.len(),
            texts(r@) =~= texts(ws@).subrange(from as int, i as int),
        decreases to - i,
    {
        let w = slice_of(&ws[i], 0, ws[i].len());
        assert(w@ =~= ws@[i as int]@);
        let ghost before = texts(r@);
        r.push(w);
        assert(texts(r@) =~= before.push(w@));
        i += 1;
    }
    r
}

impl Task {
    /// A task without description, created today.
    pub fn new() -> (r: Task)
        ensures
            r@.description == Seq::<char>::empty(),
            !r@.completed,
            r@.priority is None,
            r@.completion_date is None,
            r@.creation_date is Some,
            r@.tags is None,
    {
        Task::with_task(String::new())
    }

    /// Whether the task is done.
    pub fn is_completed(&self) -> (r: bool)
        ensures
            r == self@.completed,
    {
        self.is_completed
    }

    /// The priority, where one was given.
    pub fn priority_level(&self) -> (r: &Option<Priority>)
        ensures
            *r == self@.priority,
    {
        &self.priority_level
    }

    /// The day of completion, where one was given.
    pub fn completion_date(&self) -> (r: &Option<Date>)
        ensures
            date_view(*r) == self@.completion_date,
    {
        &self.completion_date
    }

    /// The day of creation, where one was given.
    pub fn creation_date(&self) -> (r: &Option<Date>)
        ensures
            date_view(*r) == self@.creation_date,
    {
        &self.creation_date
    }

    /// What is to be done.
    pub fn description(&self) -> (r: &str)
        ensures
            r@ == self@.description,
    {
        self.description.as_str()
    }

    /// The tags, where there are any.
    pub fn tags(&self) -> (r: &Option<TagCollection>)
        ensures
            tags_view(*r) == self@.tags,
    {
        &self.tags
    }

    /// A task with the description as given, created today, not done, with
    /// neither priority nor tags.
    pub fn with_task(description: String) -> (r: Task)
        ensures
            r@.description == description@,
            !r@.completed,
            r@.priority is None,
            r@.completion_date is None,
            r@.creation_date is Some,
            r@.tags is None,
    {
        Task::created_on(description, Date::now())
    }

    /// A task with the description as given, created on `date`, not done,
    /// with neither priority nor tags.
    pub fn created_on(description: String, date: Date) -> (r: Task)
        ensures
            r@ == (TaskView {
                completed: false,
                priority: None,
                completion_date: None,
                creation_date: Some(date@),
                description: description@,
                tags: None,
            }),
    {
        Task {
            is_completed: false,
            priority_level: None,
            completion_date: None,
            creation_date: Some(date),
            description,
            tags: None,
        }
    }

    /// The task that `text` denotes, with `date` as its day of creation.
    pub fn with_date(text: &str, date: Date) -> (r: Result<Task, FormatError>)
        ensures
            match r {
                Ok(t) => parse_task(text@) is Ok && t@ == (TaskView {
                    creation_date: Some(date@),
                    ..parse_task(text@).unwrap()
                }),
                Err(e) => parse_task(text@) == Err::<TaskView, FormatError>(e),
            },
    {
        match Task::from_str(text) {
            Ok(mut t) => {
                t.creation_date = Some(date);
                Ok(t)
            },
            Err(e) => Err(e),
        }
    }

    /// The task that `text` denotes, with today as its day of creation.
    pub fn with_today(text: &str) -> (r: Result<Task, FormatError>)
        ensures
            match r {
                Ok(t) => parse_task(text@) is Ok && t@.creation_date is Some && t@ == (TaskView {
                    creation_date: t@.creation_date,
                    ..parse_task(text@).unwrap()
                }),
                Err(e) => parse_task(text@) == Err::<TaskView, FormatError>(e),
            },
    {
        Task::with_date(text, Date::now())
    }

    /// Marks a task that is not done as done, and one that is done as not
    /// done. Nothing else changes.
    pub fn toggle_completion(&mut self)
        ensures
            final(self)@ == (TaskView { completed: !old(self)@.completed, ..old(self)@ }),
    {
        self.is_completed = !self.is_completed;
    }

    /// Reads a task from its characters.
    pub fn from_chars(s: &Vec<char>) -> (r: Result<Task, FormatError>)
        ensures
            match r {
                Ok(t) => parse_task(s@) == Ok::<TaskView, FormatError>(t@) && t@.is_valid(),
                Err(e) => parse_task(s@) == Err::<TaskView, FormatError>(e),
            },
    {
        proof {
            if parse_task(s@) is Ok {
                lemma_parsed_task(s@);
            }
        }
        let ws = split_words(s);
        let ghost all = texts(ws@);
        if ws.len() == 0 {
            return Err(FormatError::EmptyInput);
        }
        let mut p: usize = 0;
        assert(all.skip(0) =~= all);
        while p < ws.len() && prefix_word(&ws[p])
            invariant
                p <= ws.len(),
                all == texts(ws@),
                prefix_count(all) == p + prefix_count(all.skip(p as int)),
            decreases ws.len() - p,
        {
            assert(all.skip(p as int).drop_first() =~= all.skip(p + 1));
            p += 1;
        }
        let mut e: usize = p;
        while e < ws.len() && !Tag::from_chars(&ws[e]).is_ok()
            invariant
                p <= e <= ws.len(),
                all == texts(ws@),
                description_end(all, p as int) == description_end(all, e as int),
            decreases ws.len() - e,
        {
            e += 1;
        }
        if e == p {
            return Err(FormatError::MissingDescription);
        }
        let mut task = match process_prefix(&ws, p) {
            Ok(t) => t,
            Err(err) => {
                return Err(err);
            },
        };
        task.description = string_of(&join_words(&words_between(&ws, p, e)));
        if e < ws.len() {
            match parse_words(&ws, e) {
                Ok(tags) => {
                    task.tags = Some(tags);
                },
                Err(err) => {
                    return Err(err);
                },
            }
        }
        Ok(task)
    }

    /// Reads a task line. The text must hold a description; a second
    /// completion mark, a third date or a flawed tag is an error.
    pub fn from_str(s: &str) -> (r: Result<Task, FormatError>)
        ensures
            match r {
                Ok(t) => parse_task(s@) == Ok::<TaskView, FormatError>(t@) && t@.is_valid(),
                Err(e) => parse_task(s@) == Err::<TaskView, FormatError>(e),
            },
    {
        Task::from_chars(&chars_of(s))
    }

    /// The characters of the task.
    pub fn to_chars(&self) -> (r: Vec<char>)
        ensures
            r@ == format_task(self@),
    {
        let mut parts: Vec<Vec<char>> = Vec::new();
        if self.is_completed {
            parts.push(chars_of("x"));
        }
        if let Some(p) = &self.priority_level {
            parts.push(p.to_chars());
        }
        if let Some(d) = &self.completion_date {
            parts.push(d.to_chars());
        }
        if let Some(d) = &self.creation_date {
            parts.push(d.to_chars());
        }
        parts.push(chars_of(self.description.as_str()));
        if let Some(t) = &self.tags {
            parts.push(t.to_chars());
        }
        assert(texts(parts@) =~= task_parts(self@));
        join_words(&parts)
    }

    /// The text of the task: completion mark, priority, day of completion,
    /// day of creation, description and tags, each where it is there, with
    /// single spaces between them.
    pub fn to_string(&self) -> (r: String)
        ensures
            r@ == format_task(self@),
    {
        string_of(&self.to_chars())
    }
}

impl Default for Task {
    fn default() -> (r: Task)
        ensures
            r@.description == Seq::<char>::empty(),
            !r@.completed,
            r@.creation_date is Some,
    {
        Task::new()
    }
}

/// A date word in the form that is written.
pub open spec fn is_plain_date_word(w: Seq<char>) -> bool {
    is_plain_date(w) && parse_date(w) is Some
}

/// The number of completion marks that a plain prefix begins with.
pub open spec fn mark_count(pw: Seq<Seq<char>>) -> int {
    if pw.len() > 0 && pw[0] == "x"@ {
        1
    } else {
        0
    }
}

/// The number of words of a plain prefix up to its dates.
pub open spec fn dates_start(pw: Seq<Seq<char>>) -> int {
    let a = mark_count(pw);
    if pw.len() > a && parse_priority(pw[a]) is Some {
        a + 1
    } else {
        a
    }
}

/// A prefix in the form that is written: the completion mark, a priority
/// and up to two dates in their written form, each at most once and in this
/// order.
pub open spec fn is_plain_prefix(pw: Seq<Seq<char>>) -> bool {
    &&& pw.len() <= dates_start(pw) + 2
    &&& forall|i: int| dates_start(pw) <= i < pw.len() ==> is_plain_date_word(#[trigger] pw[i])
}

/// A task text in the form that is written: single spaces between the words
/// and nothing around them, the prefix and the tags in their written form.
pub open spec fn is_plain_task(s: Seq<char>) -> bool {
    let ws = words(s);
    let p = prefix_count(ws) as int;
    let e = description_end(ws, p);
    &&& join(ws) == s
    &&& is_plain_prefix(ws.take(p))
    &&& all_plain_tags(ws.skip(e))
}

/// The prefix is no longer than the words.
pub proof fn lemma_prefix_count_bound(ws: Seq<Seq<char>>)
    ensures
        prefix_count(ws) <= ws.len(),
    decreases ws.len(),
{
    if ws.len() > 0 && is_prefix_word(ws[0]) {
        lemma_prefix_count_bound(ws.drop_first());
    }
}

/// The description ends at or after its beginning and within the words.
pub proof fn lemma_description_end_bound(ws: Seq<Seq<char>>, from: int)
    requires
        0 <= from <= ws.len(),
    ensures
        from <= description_end(ws, from) <= ws.len(),
    decreases ws.len() - from,
{
    if from < ws.len() && !is_tag_word(ws[from]) {
        lemma_description_end_bound(ws, from + 1);
    }
}

/// What a prefix says after one more word.
proof fn lemma_read_prefix_step(pw: Seq<Seq<char>>, k: int)
    requires
        0 <= k < pw.len(),
    ensures
        read_prefix(pw.take(k + 1)) == match read_prefix(pw.take(k)) {
            Err(e) => Err(e),
            Ok(st) => prefix_step(st, pw[k]),
        },
{
    assert(pw.take(k + 1).drop_last() =~= pw.take(k));
    assert(pw.take(k + 1).last() == pw[k]);
}

/// The parts of what the prefix says.
pub open spec fn parts_of(st: PrefixView) -> Seq<Seq<char>> {
    prefix_parts(st.completed, st.priority, st.completion_date, st.creation_date)
}

/// A plain date word is neither the completion mark nor a priority, and is
/// the text of the day that it denotes.
proof fn lemma_plain_date_word(w: Seq<char>)
    requires
        is_plain_date_word(w),
    ensures
        w != "x"@,
        parse_priority(w) is None,
        format_date(parse_date(w).unwrap()) == w,
{
    reveal_strlit("x");
    reveal_strlit("(A)");
    reveal_strlit("(B)");
    reveal_strlit("(C)");
    lemma_date_round_trip(w);
}

/// What a plain prefix says is written as that prefix.
pub proof fn lemma_prefix_round_trip(pw: Seq<Seq<char>>)
    requires
        is_plain_prefix(pw),
    ensures
        read_prefix(pw) is Ok,
        parts_of(read_prefix(pw).unwrap()) == pw,
{
    reveal_strlit("x");
    reveal_strlit("(A)");
    reveal_strlit("(B)");
    reveal_strlit("(C)");
    let a = mark_count(pw);
    let b = dates_start(pw);
    let n = pw.len() as int;
    assert(pw.take(0) =~= Seq::<Seq<char>>::empty());
    let s0 = read_prefix(pw.take(0)).unwrap();
    assert(parts_of(s0) =~= pw.take(0));
    // the completion mark
    if a == 1 {
        lemma_read_prefix_step(pw, 0);
    }
    let sa = read_prefix(pw.take(a)).unwrap();
    assert(read_prefix(pw.take(a)) is Ok && parts_of(sa) =~= pw.take(a) && sa.priority is None
        && sa.completion_date is None && sa.creation_date is None) by {
        if a == 1 {
            assert(pw.take(1) =~= seq![pw[0]]);
        }
    }
    // the priority
    if b == a + 1 {
        lemma_read_prefix_step(pw, a);
        lemma_priority_round_trip(pw[a]);
        assert(pw[a] != "x"@);
    }
    let sb = read_prefix(pw.take(b)).unwrap();
    assert(read_prefix(pw.take(b)) is Ok && parts_of(sb) =~= pw.take(b) && sb.completion_date
        is None && sb.creation_date is None) by {
        if b == a + 1 {
            assert(pw.take(b) =~= pw.take(a).push(pw[a]));
        }
    }
    // the dates
    if n == b {
        assert(pw.take(b) =~= pw);
    } else {
        assert(is_plain_date_word(pw[b]));
        lemma_plain_date_word(pw[b]);
        lemma_read_prefix_step(pw, b);
        let s1 = read_prefix(pw.take(b + 1)).unwrap();
        assert(parts_of(s1) =~= pw.take(b + 1)) by {
            assert(pw.take(b + 1) =~= pw.take(b).push(pw[b]));
        }
        if n == b + 1 {
            assert(pw.take(b + 1) =~= pw);
        } else {
            assert(is_plain_date_word(pw[b + 1]));
            lemma_plain_date_word(pw[b + 1]);
            lemma_read_prefix_step(pw, b + 1);
            let s2 = read_prefix(pw.take(b + 2)).unwrap();
            assert(parts_of(s2) =~= pw.take(b + 2)) by {
                assert(pw.take(b + 2) =~= pw.take(b).push(pw[b]).push(pw[b + 1]));
            }
            assert(pw.take(b + 2) =~= pw);
        }
    }
}

/// Writing a task that was read from a plain task text gives that text.
pub proof fn lemma_task_round_trip(s: Seq<char>)
    requires
        is_plain_task(s),
        parse_task(s) is Ok,
    ensures
        format_task(parse_task(s).unwrap()) == s,
{
    let ws = words(s);
    let p = prefix_count(ws) as int;
    let e = description_end(ws, p);
    lemma_prefix_count_bound(ws);
    lemma_description_end_bound(ws, p);
    let v = parse_task(s).unwrap();
    let head = ws.take(p);
    let body = ws.subrange(p, e);
    let tail = ws.skip(e);
    lemma_prefix_round_trip(head);
    assert(prefix_parts(v.completed, v.priority, v.completion_date, v.creation_date) == head);
    assert(head + body + tail =~= ws);
    if e == ws.len() {
        let none = Seq::<Seq<char>>::empty();
        assert(task_parts(v) =~= head + seq![join(body)] + none);
        lemma_join_flatten(head, body, none);
        assert(tail =~= none);
    } else {
        lemma_parse_all_round_trip(tail);
        let ts = parse_all(tail).unwrap();
        assert(format_tags(ts) == join(tail));
        let none = Seq::<Seq<char>>::empty();
        assert(task_parts(v) =~= head + seq![join(body)] + seq![join(tail)]);
        lemma_join_flatten(head, body, seq![join(tail)]);
        lemma_join_flatten(head + body, tail, none);
        assert(head + body + seq![join(tail)] + none =~= head + body + seq![join(tail)]);
        assert(head + body + tail + none =~= head + body + tail);
    }
}

/// A prefix names a day of completion only together with a day of creation.
pub proof fn lemma_prefix_dates(pw: Seq<Seq<char>>)
    requires
        read_prefix(pw) is Ok,
    ensures
        read_prefix(pw).unwrap().completion_date is Some ==> read_prefix(
            pw,
        ).unwrap().creation_date is Some,
    decreases pw.len(),
{
    if pw.len() > 0 {
        lemma_prefix_dates(pw.drop_last());
    }
}

/// As many tags are read as there are words.
pub proof fn lemma_parse_all_len(ws: Seq<Seq<char>>)
    requires
        parse_all(ws) is Ok,
    ensures
        parse_all(ws).unwrap().len() == ws.len(),
    decreases ws.len(),
{
    if ws.len() > 0 {
        lemma_parse_all_len(ws.drop_last());
    }
}

/// What holds of every task that was read: it has a description; it has a
/// day of completion only together with a day of creation; and where it has
/// tags, it has one at least.
pub proof fn lemma_parsed_task(s: Seq<char>)
    requires
        parse_task(s) is Ok,
    ensures
        parse_task(s).unwrap().is_valid(),
{
    let ws = words(s);
    let p = prefix_count(ws) as int;
    let e = description_end(ws, p);
    lemma_prefix_count_bound(ws);
    lemma_description_end_bound(ws, p);
    lemma_words_hold_no_space(s);
    let body = ws.subrange(p, e);
    assert(body.last() == ws[e - 1]);
    lemma_join_is_not_empty(body);
    lemma_prefix_dates(ws.take(p));
    if e < ws.len() {
        lemma_parse_all_len(ws.skip(e));
    }
}

} // verus!
