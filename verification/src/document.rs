//! The whole document: lines before the tasks, the tasks, lines between
//! tasks and notes, the notes, and lines after the notes.

use crate::error::{FormatError, InvariantViolation};
use crate::note::{format_note, parse_note, Note, NoteView};
use crate::task::{format_task, parse_task, Task, TaskView};
use crate::text::{
    append_chars, chars_of, same_chars, slice_of, split_words, starts_with, string_of, strings, words,
};
use vstd::prelude::*;

verus! {

/// A document of tasks and notes.
#[derive(Debug, PartialEq, Eq, Clone)]
pub struct OrgDocument {
    preample: Vec<String>,
    pub tasks: Vec<Task>,
    between: Vec<String>,
    pub notes: Vec<Note>,
    post: Vec<String>,
}

/// What a document holds.
#[verifier::ext_equal]
pub struct DocumentView {
    pub preamble: Seq<Seq<char>>,
    pub tasks: Seq<TaskView>,
    pub between: Seq<Seq<char>>,
    pub notes: Seq<NoteView>,
    pub post: Seq<Seq<char>>,
}

/// The tasks of a vector as views.
pub open spec fn task_views(ts: Seq<Task>) -> Seq<TaskView> {
    ts.map_values(|t: Task| t@)
}

/// The notes of a vector as views.
pub open spec fn note_views(ns: Seq<Note>) -> Seq<NoteView> {
    ns.map_values(|n: Note| n@)
}

impl View for OrgDocument {
    type V = DocumentView;

    closed spec fn view(&self) -> DocumentView {
        DocumentView {
            preamble: strings(self.preample@),
            tasks: task_views(self.tasks@),
            between: strings(self.between@),
            notes: note_views(self.notes@),
            post: strings(self.post@),
        }
    }
}

/// Where the reader of a document stands.
#[derive(Debug, PartialEq, Eq, Clone)]
pub enum OrgDocumentParser {
    /// Before the heading of the tasks.
    BeforeTasks,
    /// Among the tasks.
    InTasks,
    /// After another heading that followed the tasks.
    BetweenTasksAndNotes,
    /// Among the notes, with the lines of the note that is being read.
    InNotes(Vec<String>),
    /// After a heading that closed the notes.
    AfterNotes,
}

/// Where the reader stands, with the lines it holds as texts.
#[verifier::ext_equal]
pub enum ParserView {
    BeforeTasks,
    InTasks,
    BetweenTasksAndNotes,
    InNotes(Seq<Seq<char>>),
    AfterNotes,
}

impl View for OrgDocumentParser {
    type V = ParserView;

    open spec fn view(&self) -> ParserView {
        match self {
            OrgDocumentParser::BeforeTasks => ParserView::BeforeTasks,
            OrgDocumentParser::InTasks => ParserView::InTasks,
            OrgDocumentParser::BetweenTasksAndNotes => ParserView::BetweenTasksAndNotes,
            OrgDocumentParser::InNotes(acc) => ParserView::InNotes(strings(acc@)),
            OrgDocumentParser::AfterNotes => ParserView::AfterNotes,
        }
    }
}

/// A document without anything in it.
pub open spec fn empty_document() -> DocumentView {
    DocumentView {
        preamble: Seq::empty(),
        tasks: Seq::empty(),
        between: Seq::empty(),
        notes: Seq::empty(),
        post: Seq::empty(),
    }
}

/// The document after the lines that were gathered for a note have been
/// read as a note. Where no line was gathered the document stays as it is.
pub open spec fn flush(acc: Seq<Seq<char>>, d: DocumentView) -> Result<DocumentView, FormatError> {
    if acc.len() == 0 {
        Ok(d)
    } else {
        match parse_note(acc) {
            Ok(n) => Ok(DocumentView { notes: d.notes.push(n), ..d }),
            Err(e) => Err(e),
        }
    }
}

/// The state and the document after one more line, which is not empty.
#[verifier::opaque]
pub open spec fn step(st: ParserView, d: DocumentView, line: Seq<char>) -> Result<
    (ParserView, DocumentView),
    FormatError,
> {
    match st {
        ParserView::BeforeTasks => if line == "## Tasks"@ {
            Ok((ParserView::InTasks, d))
        } else {
            Ok((ParserView::BeforeTasks, DocumentView { preamble: d.preamble.push(line), ..d }))
        },
        ParserView::InTasks => if line == "## Notes"@ {
            Ok((ParserView::InNotes(Seq::empty()), d))
        } else if "## "@.is_prefix_of(line) {
            Ok(
                (
                    ParserView::BetweenTasksAndNotes,
                    DocumentView { between: d.between.push(line), ..d },
                ),
            )
        } else {
            match parse_task(line) {
                Ok(t) => Ok((ParserView::InTasks, DocumentView { tasks: d.tasks.push(t), ..d })),
                Err(e) => Err(e),
            }
        },
        ParserView::BetweenTasksAndNotes => if line == "## Notes"@ {
            Ok((ParserView::InNotes(Seq::empty()), d))
        } else {
            Ok(
                (
                    ParserView::BetweenTasksAndNotes,
                    DocumentView { between: d.between.push(line), ..d },
                ),
            )
        },
        ParserView::InNotes(acc) => if "### "@.is_prefix_of(line) {
            match flush(acc, d) {
                Ok(d2) => Ok((ParserView::InNotes(seq![line]), d2)),
                Err(e) => Err(e),
            }
        } else if "## "@.is_prefix_of(line) {
            match flush(acc, d) {
                Ok(d2) => Ok((ParserView::AfterNotes, DocumentView { post: d2.post.push(line), ..d2 })),
                Err(e) => Err(e),
            }
        } else {
            Ok((ParserView::InNotes(acc.push(line)), d))
        },
        ParserView::AfterNotes => Ok(
            (ParserView::AfterNotes, DocumentView { post: d.post.push(line), ..d }),
        ),
    }
}

/// The document at the end of the lines: a note that was being read is
/// completed.
pub open spec fn finish(st: ParserView, d: DocumentView) -> Result<DocumentView, FormatError> {
    match st {
        ParserView::InNotes(acc) => flush(acc, d),
        _ => Ok(d),
    }
}

/// The state and the document after the lines, taken in order from a given
/// state and document. Empty lines change nothing. The first line that
/// cannot be read ends the reading.
pub open spec fn run_from(st: ParserView, d: DocumentView, lines: Seq<Seq<char>>) -> Result<
    (ParserView, DocumentView),
    FormatError,
>
    decreases lines.len(),
{
    if lines.len() == 0 {
        Ok((st, d))
    } else {
        match run_from(st, d, lines.drop_last()) {
            Err(e) => Err(e),
            Ok((st2, d2)) => if lines.last().len() == 0 {
                Ok((st2, d2))
            } else {
                step(st2, d2, lines.last())
            },
        }
    }
}

/// The state and the document after the lines of a document.
pub open spec fn run(lines: Seq<Seq<char>>) -> Result<(ParserView, DocumentView), FormatError> {
    run_from(ParserView::BeforeTasks, empty_document(), lines)
}

/// The document that the lines denote.
pub open spec fn parse_lines(lines: Seq<Seq<char>>) -> Result<DocumentView, FormatError> {
    match run(lines) {
        Err(e) => Err(e),
        Ok((st, d)) => finish(st, d),
    }
}

/// The place of the first line feed of `s`, or the length of `s` where it
/// has none.
pub open spec fn line_len(s: Seq<char>) -> nat
    decreases s.len(),
{
    if s.len() == 0 || s[0] == '\n' {
        0
    } else {
        1 + line_len(s.drop_first())
    }
}

/// A line without the carriage return that it may end with.
pub open spec fn strip_return(l: Seq<char>) -> Seq<char> {
    if l.len() > 0 && l.last() == '\r' {
        l.drop_last()
    } else {
        l
    }
}

/// The lines of a text: what stands between its line feeds, a carriage
/// return before a line feed left out.
pub open spec fn text_lines(s: Seq<char>) -> Seq<Seq<char>>
    decreases s.len(),
    via text_lines_terminates
{
    if line_len(s) >= s.len() {
        seq![s]
    } else {
        seq![strip_return(s.take(line_len(s) as int))] + text_lines(s.skip(line_len(s) as int + 1))
    }
}

#[via_fn]
proof fn text_lines_terminates(s: Seq<char>) {
}

/// The document that a text denotes.
pub open spec fn parse_document(s: Seq<char>) -> Result<DocumentView, FormatError> {
    parse_lines(text_lines(s))
}

/// The texts of the tasks, one line each.
pub open spec fn task_lines(ts: Seq<TaskView>) -> Seq<Seq<char>> {
    ts.map_values(|t: TaskView| format_task(t))
}

/// The lines of the notes: each note, and an empty line after it.
pub open spec fn note_lines(ns: Seq<NoteView>) -> Seq<Seq<char>>
    decreases ns.len(),
{
    if ns.len() == 0 {
        Seq::empty()
    } else {
        note_lines(ns.drop_last()) + format_note(ns.last()) + seq![Seq::<char>::empty()]
    }
}

/// The lines of a block that is written only where it holds a line: the
/// block and an empty line after it.
pub open spec fn optional_block(b: Seq<Seq<char>>) -> Seq<Seq<char>> {
    if b.len() > 0 {
        b + seq![Seq::<char>::empty()]
    } else {
        Seq::empty()
    }
}

/// The lines of a document: the lines before the tasks, an empty line, the
/// heading of the tasks, the tasks, an empty line, the lines between tasks
/// and notes with an empty line where there are any, the heading of the
/// notes, an empty line, the notes with an empty line after each, and the
/// lines after the notes.
pub open spec fn document_lines(d: DocumentView) -> Seq<Seq<char>> {
    d.preamble + seq![Seq::<char>::empty(), "## Tasks"@] + task_lines(d.tasks) + seq![
        Seq::<char>::empty(),
    ] + optional_block(d.between) + seq!["## Notes"@, Seq::<char>::empty()] + note_lines(d.notes)
        + d.post
}

/// The text of lines: each line and a line feed after it.
pub open spec fn unlines(lines: Seq<Seq<char>>) -> Seq<char>
    decreases lines.len(),
{
    if lines.len() == 0 {
        Seq::empty()
    } else {
        unlines(lines.drop_last()) + lines.last() + seq!['\n']
    }
}

/// The text of a document.
pub open spec fn format_document(d: DocumentView) -> Seq<char> {
    unlines(document_lines(d))
}

/// A task of the document has a description without a word.
pub open spec fn has_empty_description(d: DocumentView) -> bool {
    exists|i: int| 0 <= i < d.tasks.len() && words((#[trigger] d.tasks[i]).description).len() == 0
}

/// A note of the document has no line of content.
pub open spec fn has_note_without_content(d: DocumentView) -> bool {
    exists|i: int| 0 <= i < d.notes.len() && (#[trigger] d.notes[i]).content.len() == 0
}

/// What keeps a document from being read again once it is written, if
/// anything does: the tasks are looked at first.
pub open spec fn violation(d: DocumentView) -> Option<InvariantViolation> {
    if has_empty_description(d) {
        Some(InvariantViolation::EmptyDescription)
    } else if has_note_without_content(d) {
        Some(InvariantViolation::NoteWithoutContent)
    } else {
        None
    }
}

/// Adds the lines gathered for a note to the document as a note.
fn flush_note(acc: Vec<String>, doc: &mut OrgDocument) -> (r: Result<(), FormatError>)
    ensures
        match r {
            Ok(_) => flush(strings(acc@), old(doc)@) == Ok::<DocumentView, FormatError>(final(doc)@),
            Err(e) => flush(strings(acc@), old(doc)@) == Err::<DocumentView, FormatError>(e),
        },
{
    if acc.len() == 0 {
        return Ok(());
    }
    match Note::from_vec(acc) {
        Ok(n) => {
            doc.push_note(n);
            Ok(())
        },
        Err(e) => Err(e),
    }
}

/// Adds a line to a vector of lines.
fn push_line(lines: &mut Vec<String>, line: &str)
    ensures
        strings(final(lines)@) == strings(old(lines)@).push(line@),
{
    let ghost before = strings(lines@);
    let s = string_of(&chars_of(line));
    lines.push(s);
    assert(strings(lines@) =~= before.push(line@));
}

impl OrgDocumentParser {
    /// Takes one line, which is not empty, and says where the reader stands
    /// after it.
    pub fn parse(self, line: &str, doc: &mut OrgDocument) -> (r: Result<
        OrgDocumentParser,
        FormatError,
    >)
        ensures
            match r {
                Ok(next) => step(self@, old(doc)@, line@) == Ok::<
                    (ParserView, DocumentView),
                    FormatError,
                >((next@, final(doc)@)),
                Err(e) => step(self@, old(doc)@, line@) == Err::<
                    (ParserView, DocumentView),
                    FormatError,
                >(e),
            },
    {
        let chars = chars_of(line);
        proof {
            reveal(step);
        }
        match self {
            OrgDocumentParser::BeforeTasks => {
                if same_chars(&chars, &chars_of("## Tasks")) {
                    Ok(OrgDocumentParser::InTasks)
                } else {
                    push_line(&mut doc.preample, line);
                    Ok(OrgDocumentParser::BeforeTasks)
                }
            },
            OrgDocumentParser::InTasks => {
                if same_chars(&chars, &chars_of("## Notes")) {
                    let next = OrgDocumentParser::InNotes(Vec::new());
                    assert(next@ =~= ParserView::InNotes(Seq::empty()));
                    Ok(next)
                } else if starts_with(&chars, &chars_of("## ")) {
                    push_line(&mut doc.between, line);
                    Ok(OrgDocumentParser::BetweenTasksAndNotes)
                } else {
                    match Task::from_chars(&chars) {
                        Ok(t) => {
                            doc.push_task(t);
                            Ok(OrgDocumentParser::InTasks)
                        },
                        Err(e) => Err(e),
                    }
                }
            },
            OrgDocumentParser::BetweenTasksAndNotes => {
                if same_chars(&chars, &chars_of("## Notes")) {
                    let next = OrgDocumentParser::InNotes(Vec::new());
                    assert(next@ =~= ParserView::InNotes(Seq::empty()));
                    Ok(next)
                } else {
                    push_line(&mut doc.between, line);
                    Ok(OrgDocumentParser::BetweenTasksAndNotes)
                }
            },
            OrgDocumentParser::InNotes(acc) => {
                if starts_with(&chars, &chars_of("### ")) {
                    match flush_note(acc, doc) {
                        Ok(_) => {
                            let mut fresh: Vec<String> = Vec::new();
                            push_line(&mut fresh, line);
                            let next = OrgDocumentParser::InNotes(fresh);
                            assert(next@ =~= ParserView::InNotes(seq![line@]));
                            Ok(next)
                        },
                        Err(e) => Err(e),
                    }
                } else if starts_with(&chars, &chars_of("## ")) {
                    match flush_note(acc, doc) {
                        Ok(_) => {
                            push_line(&mut doc.post, line);
                            Ok(OrgDocumentParser::AfterNotes)
                        },
                        Err(e) => Err(e),
                    }
                } else {
                    let mut acc = acc;
                    push_line(&mut acc, line);
                    Ok(OrgDocumentParser::InNotes(acc))
                }
            },
            OrgDocumentParser::AfterNotes => {
                push_line(&mut doc.post, line);
                Ok(OrgDocumentParser::AfterNotes)
            },
        }
    }

    /// Ends the reading: a note that was being read is completed.
    pub fn finish(self, doc: &mut OrgDocument) -> (r: Result<(), FormatError>)
        ensures
            match r {
                Ok(_) => finish(self@, old(doc)@) == Ok::<DocumentView, FormatError>(final(doc)@),
                Err(e) => finish(self@, old(doc)@) == Err::<DocumentView, FormatError>(e),
            },
    {
        match self {
            OrgDocumentParser::InNotes(acc) => flush_note(acc, doc),
            _ => Ok(()),
        }
    }
}

impl Default for OrgDocumentParser {
    fn default() -> (r: OrgDocumentParser)
        ensures
            r@ == ParserView::BeforeTasks,
    {
        OrgDocumentParser::BeforeTasks
    }
}

impl OrgDocument {
    /// A document without anything in it.
    pub fn new() -> (r: OrgDocument)
        ensures
            r@ == empty_document(),
    {
        let r = OrgDocument {
            preample: Vec::new(),
            tasks: Vec::new(),
            between: Vec::new(),
            notes: Vec::new(),
            post: Vec::new(),
        };
        assert(r@ =~= empty_document());
        r
    }

    /// Adds a task after the tasks that are there.
    pub fn push_task(&mut self, task: Task)
        ensures
            final(self)@ == (DocumentView { tasks: old(self)@.tasks.push(task@), ..old(self)@ }),
    {
        self.tasks.push(task);
        assert(task_views(self.tasks@) =~= task_views(old(self).tasks@).push(task@));
    }

    /// Adds a note after the notes that are there.
    pub fn push_note(&mut self, note: Note)
        ensures
            final(self)@ == (DocumentView { notes: old(self)@.notes.push(note@), ..old(self)@ }),
    {
        self.notes.push(note);
        assert(note_views(self.notes@) =~= note_views(old(self).notes@).push(note@));
    }

    /// The tasks, in their order.
    pub fn tasks(&self) -> (r: &Vec<Task>)
        ensures
            task_views(r@) == self@.tasks,
    {
        &self.tasks
    }

    /// The notes, in their order.
    pub fn notes(&self) -> (r: &Vec<Note>)
        ensures
            note_views(r@) == self@.notes,
    {
        &self.notes
    }

    /// Looks for a task or a note that was made in a state that no text
    /// denotes.
    pub fn validate(&self) -> (r: Result<(), InvariantViolation>)
        ensures
            match r {
                Ok(_) => violation(self@) is None,
                Err(e) => violation(self@) == Some(e),
            },
    {
        let mut i: usize = 0;
        while i < self.tasks.len()
            invariant
                i <= self.tasks.len(),
                forall|j: int| 0 <= j < i ==> words((#[trigger] self@.tasks[j]).description).len() > 0,
            decreases self.tasks.len() - i,
        {
            let ws = split_words(&chars_of(self.tasks[i].description()));
            if ws.len() == 0 {
                assert(words(self@.tasks[i as int].description).len() == 0);
                return Err(InvariantViolation::EmptyDescription);
            }
            i += 1;
        }
        let mut i: usize = 0;
        while i < self.notes.len()
            invariant
                i <= self.notes.len(),
                !has_empty_description(self@),
                forall|j: int| 0 <= j < i ==> (#[trigger] self@.notes[j]).content.len() > 0,
            decreases self.notes.len() - i,
        {
            if self.notes[i].content().len() == 0 {
                assert(self@.notes[i as int].content.len() == 0);
                return Err(InvariantViolation::NoteWithoutContent);
            }
            i += 1;
        }
        Ok(())
    }

    /// The number of tasks and the number of notes.
    pub fn len(&self) -> (r: (usize, usize))
        ensures
            r.0 == self@.tasks.len(),
            r.1 == self@.notes.len(),
    {
        (self.tasks.len(), self.notes.len())
    }

    /// Reads a document from its lines. Empty lines are passed over.
    pub fn from_lines(lines: &Vec<String>) -> (r: Result<OrgDocument, FormatError>)
        ensures
            match r {
                Ok(d) => parse_lines(strings(lines@)) == Ok::<DocumentView, FormatError>(d@),
                Err(e) => parse_lines(strings(lines@)) == Err::<DocumentView, FormatError>(e),
            },
    {
        let mut parser = OrgDocumentParser::BeforeTasks;
        let mut doc = OrgDocument::new();
        let mut i: usize = 0;
        let ghost all = strings(lines@);
        while i < lines.len()
            invariant
                i <= lines.len(),
                all == strings(lines@),
                run(all.take(i as int)) == Ok::<(ParserView, DocumentView), FormatError>(
                    (parser@, doc@),
                ),
            decreases lines.len() - i,
        {
            let line = lines[i].as_str();
            proof {
                assert(all.take(i + 1).drop_last() =~= all.take(i as int));
                assert(all.take(i + 1).last() == line@);
            }
            if !line.is_empty() {
                match parser.parse(line, &mut doc) {
                    Ok(next) => {
                        parser = next;
                    },
                    Err(e) => {
                        proof {
                            lemma_run_fails(all, i + 1);
                        }
                        return Err(e);
                    },
                }
            }
            i += 1;
        }
        assert(all.take(i as int) =~= all);
        match parser.finish(&mut doc) {
            Ok(_) => Ok(doc),
            Err(e) => Err(e),
        }
    }

    /// The lines of the document.
    pub fn lines(&self) -> (r: Vec<String>)
        ensures
            strings(r@) == document_lines(self@),
    {
        let mut r: Vec<String> = Vec::new();
        extend_lines(&mut r, &self.preample);
        push_line(&mut r, "");
        push_line(&mut r, "## Tasks");
        let ghost head = strings(r@);
        let mut i: usize = 0;
        while i < self.tasks.len()
            invariant
                i <= self.tasks.len(),
                strings(r@) =~= head + task_lines(self@.tasks.take(i as int)),
            decreases self.tasks.len() - i,
        {
            let ghost before = strings(r@);
            let w = self.tasks[i].to_string();
            r.push(w);
            assert(strings(r@) =~= before.push(w@));
            assert(task_lines(self@.tasks.take(i + 1)) =~= task_lines(
                self@.tasks.take(i as int),
            ).push(format_task(self@.tasks[i as int])));
            i += 1;
        }
        assert(self@.tasks.take(i as int) =~= self@.tasks);
        push_line(&mut r, "");
        if self.between.len() > 0 {
            extend_lines(&mut r, &self.between);
            push_line(&mut r, "");
        }
        push_line(&mut r, "## Notes");
        push_line(&mut r, "");
        let ghost head = strings(r@);
        assert(head =~= self@.preamble + seq![Seq::<char>::empty(), "## Tasks"@] + task_lines(
            self@.tasks,
        ) + seq![Seq::<char>::empty()] + optional_block(self@.between) + seq![
            "## Notes"@,
            Seq::<char>::empty(),
        ]) by {
            reveal_strlit("");
            assert(""@ =~= Seq::<char>::empty());
        }
        let mut i: usize = 0;
        while i < self.notes.len()
            invariant
                i <= self.notes.len(),
                strings(r@) =~= head + note_lines(self@.notes.take(i as int)),
            decreases self.notes.len() - i,
        {
            let ghost done = self@.notes.take(i as int);
            let ghost next = self@.notes.take(i + 1);
            assert(next.drop_last() =~= done);
            assert(next.last() == self@.notes[i as int]);
            let block = self.notes[i].to_lines();
            extend_lines(&mut r, &block);
            push_line(&mut r, "");
            proof {
                reveal_strlit("");
                assert(""@ =~= Seq::<char>::empty());
            }
            i += 1;
        }
        assert(self@.notes.take(i as int) =~= self@.notes);
        extend_lines(&mut r, &self.post);
        r
    }

    /// The text of the document.
    pub fn write(&self) -> (r: String)
        ensures
            r@ == format_document(self@),
    {
        let lines = self.lines();
        let mut out: Vec<char> = Vec::new();
        let mut i: usize = 0;
        let ghost all = strings(lines@);
        while i < lines.len()
            invariant
                i <= lines.len(),
                all == strings(lines@),
                out@ == unlines(all.take(i as int)),
            decreases lines.len() - i,
        {
            assert(all.take(i + 1).drop_last() =~= all.take(i as int));
            assert(all.take(i + 1).last() == lines@[i as int]@);
            append_chars(&mut out, &chars_of(lines[i].as_str()));
            out.push('\n');
            i += 1;
        }
        assert(all.take(i as int) =~= all);
        string_of(&out)
    }

    /// Reads a document from its text.
    pub fn from_text(text: &str) -> (r: Result<OrgDocument, FormatError>)
        ensures
            match r {
                Ok(d) => parse_document(text@) == Ok::<DocumentView, FormatError>(d@),
                Err(e) => parse_document(text@) == Err::<DocumentView, FormatError>(e),
            },
    {
        OrgDocument::from_lines(&split_lines(&chars_of(text)))
    }
}

impl Default for OrgDocument {
    fn default() -> (r: OrgDocument)
        ensures
            r@ == empty_document(),
    {
        OrgDocument::new()
    }
}

/// Where the first lines cannot be read, the lines cannot, and for the same
/// reason.
pub proof fn lemma_run_fails(lines: Seq<Seq<char>>, n: int)
    requires
        0 <= n <= lines.len(),
        run(lines.take(n)) is Err,
    ensures
        run(lines) == run(lines.take(n)),
        parse_lines(lines) == parse_lines(lines.take(n)),
{
    lemma_run_add(ParserView::BeforeTasks, empty_document(), lines.take(n), lines.skip(n));
    assert(lines.take(n) + lines.skip(n) =~= lines);
}

/// Reading two runs of lines one after the other is reading the first and
/// going on with the second.
pub proof fn lemma_run_add(st: ParserView, d: DocumentView, a: Seq<Seq<char>>, b: Seq<Seq<char>>)
    ensures
        run_from(st, d, a + b) == match run_from(st, d, a) {
            Err(e) => Err(e),
            Ok((st2, d2)) => run_from(st2, d2, b),
        },
    decreases b.len(),
{
    if b.len() == 0 {
        assert(a + b =~= a);
    } else {
        lemma_run_add(st, d, a, b.drop_last());
        assert((a + b).drop_last() =~= a + b.drop_last());
        assert((a + b).last() == b.last());
    }
}

/// Adds the lines of `more` to `lines`.
fn extend_lines(lines: &mut Vec<String>, more: &Vec<String>)
    ensures
        strings(final(lines)@) == strings(old(lines)@) + strings(more@),
{
    let mut i: usize = 0;
    while i < more.len()
        invariant
            i <= more.len(),
            strings(lines@) =~= strings(old(lines)@) + strings(more@).take(i as int),
        decreases more.len() - i,
    {
        let ghost before = strings(lines@);
        let w = more[i].clone();
        lines.push(w);
        assert(strings(lines@) =~= before.push(w@));
        i += 1;
    }
    assert(strings(more@).take(i as int) =~= strings(more@));
}

/// Splits a text into its lines.
pub fn split_lines(s: &Vec<char>) -> (r: Vec<String>)
    ensures
        strings(r@) == text_lines(s@),
{
    let mut r: Vec<String> = Vec::new();
    let mut start: usize = 0;
    assert(s@.skip(0) =~= s@);
    loop
        invariant
            start <= s.len(),
            strings(r@) + text_lines(s@.skip(start as int)) =~= text_lines(s@),
        decreases s.len() - start,
    {
        let ghost rest = s@.skip(start as int);
        let mut end: usize = start;
        while end < s.len() && s[end] != '\n'
            invariant
                start <= end <= s.len(),
                rest == s@.skip(start as int),
                line_len(rest) == (end - start) + line_len(s@.skip(end as int)),
            decreases s.len() - end,
        {
            assert(s@.skip(end as int).drop_first() =~= s@.skip(end + 1));
            end += 1;
        }
        assert(line_len(rest) == end - start);
        let ghost before = strings(r@);
        if end == s.len() {
            let w = string_of(&slice_of(s, start, end));
            assert(w@ =~= rest);
            r.push(w);
            assert(strings(r@) =~= before.push(w@));
            assert(text_lines(rest) =~= seq![rest]);
            return r;
        }
        let stop: usize = if end > start && s[end - 1] == '\r' {
            end - 1
        } else {
            end
        };
        let w = string_of(&slice_of(s, start, stop));
        assert(w@ =~= strip_return(rest.take(end - start)));
        r.push(w);
        assert(strings(r@) =~= before.push(w@));
        assert(rest.skip(end - start + 1) =~= s@.skip(end + 1));
        assert(text_lines(rest) =~= seq![w@] + text_lines(s@.skip(end + 1)));
        start = end + 1;
    }
}

} // verus!
