//! How a written document is laid out, and the law that reading such a
//! document and writing it again gives the same text.

use crate::document::{
    document_lines, empty_document, finish, flush, format_document, lemma_run_add, line_len,
    note_lines, optional_block, parse_document, parse_lines, run_from, step, strip_return,
    task_lines, text_lines, unlines, DocumentView, ParserView,
};
use crate::error::FormatError;
use crate::note::{is_plain_note, lemma_note_round_trip, parse_note, NoteView};
use crate::task::{format_task, is_plain_task, lemma_task_round_trip, parse_task, TaskView};
use vstd::prelude::*;

verus! {

/// A line before the tasks: not empty, and not the heading of the tasks.
pub open spec fn is_preamble_line(l: Seq<char>) -> bool {
    l.len() > 0 && l != "## Tasks"@
}

/// A line that is read as a task: not empty, and no heading of the second
/// level.
pub open spec fn is_task_line(l: Seq<char>) -> bool {
    l.len() > 0 && l != "## Notes"@ && !"## "@.is_prefix_of(l)
}

/// A line between tasks and notes: not empty, and not the heading of the
/// notes.
pub open spec fn is_between_line(l: Seq<char>) -> bool {
    l.len() > 0 && l != "## Notes"@
}

/// A line of a note after its heading: not empty, and no heading of the
/// second or third level.
pub open spec fn is_body_line(l: Seq<char>) -> bool {
    l.len() > 0 && !"### "@.is_prefix_of(l) && !"## "@.is_prefix_of(l)
}

/// The lines of one note: a heading of the third level, then lines of the
/// body.
pub open spec fn is_block(b: Seq<Seq<char>>) -> bool {
    &&& b.len() > 0
    &&& "### "@.is_prefix_of(b[0])
    &&& forall|i: int| 1 <= i < b.len() ==> is_body_line(#[trigger] b[i])
}

/// The parts of a written document, as lines.
pub struct Layout {
    /// The lines before the tasks.
    pub preamble: Seq<Seq<char>>,
    /// The tasks, one line each.
    pub tasks: Seq<Seq<char>>,
    /// The lines between tasks and notes.
    pub between: Seq<Seq<char>>,
    /// The notes, with the lines of each.
    pub notes: Seq<Seq<Seq<char>>>,
    /// The lines after the notes.
    pub post: Seq<Seq<char>>,
}

/// The lines of the notes: each note, and an empty line after it.
pub open spec fn block_lines(bs: Seq<Seq<Seq<char>>>) -> Seq<Seq<char>>
    decreases bs.len(),
{
    if bs.len() == 0 {
        Seq::empty()
    } else {
        block_lines(bs.drop_last()) + bs.last() + seq![Seq::<char>::empty()]
    }
}

impl Layout {
    /// Every part holds lines of its kind only; the lines between tasks and
    /// notes and the lines after the notes begin with a heading of the
    /// second level.
    pub open spec fn is_valid(self) -> bool {
        &&& forall|i: int| 0 <= i < self.preamble.len() ==> is_preamble_line(#[trigger] self.preamble[i])
        &&& forall|i: int| 0 <= i < self.tasks.len() ==> is_task_line(#[trigger] self.tasks[i])
        &&& forall|i: int| 0 <= i < self.between.len() ==> is_between_line(#[trigger] self.between[i])
        &&& self.between.len() > 0 ==> "## "@.is_prefix_of(self.between[0])
        &&& forall|i: int| 0 <= i < self.notes.len() ==> is_block(#[trigger] self.notes[i])
        &&& forall|i: int| 0 <= i < self.post.len() ==> (#[trigger] self.post[i]).len() > 0
        &&& self.post.len() > 0 ==> "## "@.is_prefix_of(self.post[0])
    }

    /// Every task and every note is in the form that is written.
    pub open spec fn is_plain(self) -> bool {
        &&& forall|i: int| 0 <= i < self.tasks.len() ==> is_plain_task(#[trigger] self.tasks[i])
        &&& forall|i: int| 0 <= i < self.notes.len() ==> is_plain_note(#[trigger] self.notes[i])
    }

    /// The lines of the document: the parts, the two headings, and empty
    /// lines where the writer puts them.
    pub open spec fn lines(self) -> Seq<Seq<char>> {
        self.preamble + seq![Seq::<char>::empty(), "## Tasks"@] + self.tasks + seq![
            Seq::<char>::empty(),
        ] + optional_block(self.between) + seq!["## Notes"@, Seq::<char>::empty()] + block_lines(
            self.notes,
        ) + self.post
    }
}

/// The tasks that the lines denote, or the error of the first line that
/// denotes none.
pub open spec fn parse_each_task(ts: Seq<Seq<char>>) -> Result<Seq<TaskView>, FormatError>
    decreases ts.len(),
{
    if ts.len() == 0 {
        Ok(Seq::empty())
    } else {
        match parse_each_task(ts.drop_last()) {
            Err(e) => Err(e),
            Ok(vs) => match parse_task(ts.last()) {
                Err(e) => Err(e),
                Ok(v) => Ok(vs.push(v)),
            },
        }
    }
}

/// The notes that the runs of lines denote, or the error of the first run
/// that denotes none.
pub open spec fn parse_each_note(bs: Seq<Seq<Seq<char>>>) -> Result<Seq<NoteView>, FormatError>
    decreases bs.len(),
{
    if bs.len() == 0 {
        Ok(Seq::empty())
    } else {
        match parse_each_note(bs.drop_last()) {
            Err(e) => Err(e),
            Ok(vs) => match parse_note(bs.last()) {
                Err(e) => Err(e),
                Ok(v) => Ok(vs.push(v)),
            },
        }
    }
}

/// The document that a layout denotes: its lines as they are, its tasks and
/// notes read.
pub open spec fn parse_layout(l: Layout) -> Result<DocumentView, FormatError> {
    match parse_each_task(l.tasks) {
        Err(e) => Err(e),
        Ok(tasks) => match parse_each_note(l.notes) {
            Err(e) => Err(e),
            Ok(notes) => Ok(
                DocumentView { preamble: l.preamble, tasks, between: l.between, notes, post: l.post },
            ),
        },
    }
}

/// What one line does in each place of a document that is laid out as it is
/// written.
proof fn lemma_steps(d: DocumentView, acc: Seq<Seq<char>>, line: Seq<char>)
    ensures
        is_preamble_line(line) ==> step(ParserView::BeforeTasks, d, line) == Ok::<
            (ParserView, DocumentView),
            FormatError,
        >((ParserView::BeforeTasks, DocumentView { preamble: d.preamble.push(line), ..d })),
        step(ParserView::BeforeTasks, d, "## Tasks"@) == Ok::<
            (ParserView, DocumentView),
            FormatError,
        >((ParserView::InTasks, d)),
        is_task_line(line) ==> step(ParserView::InTasks, d, line) == match parse_task(line) {
            Ok(t) => Ok::<(ParserView, DocumentView), FormatError>(
                (ParserView::InTasks, DocumentView { tasks: d.tasks.push(t), ..d }),
            ),
            Err(e) => Err(e),
        },
        is_between_line(line) && "## "@.is_prefix_of(line) ==> step(ParserView::InTasks, d, line)
            == Ok::<(ParserView, DocumentView), FormatError>(
            (ParserView::BetweenTasksAndNotes, DocumentView { between: d.between.push(line), ..d }),
        ),
        is_between_line(line) ==> step(ParserView::BetweenTasksAndNotes, d, line) == Ok::<
            (ParserView, DocumentView),
            FormatError,
        >((ParserView::BetweenTasksAndNotes, DocumentView { between: d.between.push(line), ..d })),
        step(ParserView::InTasks, d, "## Notes"@) == Ok::<(ParserView, DocumentView), FormatError>(
            (ParserView::InNotes(Seq::empty()), d),
        ),
        step(ParserView::BetweenTasksAndNotes, d, "## Notes"@) == Ok::<
            (ParserView, DocumentView),
            FormatError,
        >((ParserView::InNotes(Seq::empty()), d)),
        is_body_line(line) ==> step(ParserView::InNotes(acc), d, line) == Ok::<
            (ParserView, DocumentView),
            FormatError,
        >((ParserView::InNotes(acc.push(line)), d)),
        "### "@.is_prefix_of(line) ==> step(ParserView::InNotes(acc), d, line) == match flush(
            acc,
            d,
        ) {
            Ok(d2) => Ok::<(ParserView, DocumentView), FormatError>(
                (ParserView::InNotes(seq![line]), d2),
            ),
            Err(e) => Err(e),
        },
        "## "@.is_prefix_of(line) ==> step(ParserView::InNotes(acc), d, line) == match flush(
            acc,
            d,
        ) {
            Ok(d2) => Ok::<(ParserView, DocumentView), FormatError>(
                (ParserView::AfterNotes, DocumentView { post: d2.post.push(line), ..d2 }),
            ),
            Err(e) => Err(e),
        },
        step(ParserView::AfterNotes, d, line) == Ok::<(ParserView, DocumentView), FormatError>(
            (ParserView::AfterNotes, DocumentView { post: d.post.push(line), ..d }),
        ),
        "## Tasks"@.len() > 0,
        "## Notes"@.len() > 0,
        "### "@.is_prefix_of(line) ==> line.len() > 0,
{
    reveal(step);
    reveal_strlit("### ");
    reveal_strlit("## ");
    reveal_strlit("## Tasks");
    reveal_strlit("## Notes");
    if "## "@.is_prefix_of(line) && "### "@.is_prefix_of(line) {
        assert(line[2] == "### "@[2]);
        assert(line[2] == "## "@[2]);
    }
}

/// Reading one line.
proof fn lemma_run_one(st: ParserView, d: DocumentView, line: Seq<char>)
    ensures
        run_from(st, d, seq![line]) == if line.len() == 0 {
            Ok((st, d))
        } else {
            step(st, d, line)
        },
{
    assert(seq![line].drop_last() =~= Seq::<Seq<char>>::empty());
    assert(seq![line].last() == line);
    assert(run_from(st, d, Seq::<Seq<char>>::empty()) == Ok::<
        (ParserView, DocumentView),
        FormatError,
    >((st, d)));
}

/// Reading lines and one line more.
proof fn lemma_run_push(st: ParserView, d: DocumentView, ls: Seq<Seq<char>>, line: Seq<char>)
    ensures
        run_from(st, d, ls.push(line)) == match run_from(st, d, ls) {
            Err(e) => Err(e),
            Ok((st2, d2)) => if line.len() == 0 {
                Ok((st2, d2))
            } else {
                step(st2, d2, line)
            },
        },
{
    assert(ls.push(line).drop_last() =~= ls);
    assert(ls.push(line).last() == line);
}

/// Lines before the tasks are kept as they are.
proof fn lemma_run_preamble(d: DocumentView, ls: Seq<Seq<char>>)
    requires
        forall|i: int| 0 <= i < ls.len() ==> is_preamble_line(#[trigger] ls[i]),
    ensures
        run_from(ParserView::BeforeTasks, d, ls) == Ok::<(ParserView, DocumentView), FormatError>(
            (ParserView::BeforeTasks, DocumentView { preamble: d.preamble + ls, ..d }),
        ),
    decreases ls.len(),
{
    if ls.len() == 0 {
        assert(d.preamble + ls =~= d.preamble);
    } else {
        let init = ls.drop_last();
        assert forall|i: int| 0 <= i < init.len() implies is_preamble_line(#[trigger] init[i]) by {
            assert(init[i] == ls[i]);
        }
        lemma_run_preamble(d, init);
        assert(is_preamble_line(ls[ls.len() - 1]));
        lemma_steps(DocumentView { preamble: d.preamble + init, ..d }, Seq::empty(), ls.last());
        assert((d.preamble + init).push(ls.last()) =~= d.preamble + ls);
    }
}

/// Lines among the tasks are read as tasks.
proof fn lemma_run_tasks(d: DocumentView, ls: Seq<Seq<char>>)
    requires
        forall|i: int| 0 <= i < ls.len() ==> is_task_line(#[trigger] ls[i]),
    ensures
        run_from(ParserView::InTasks, d, ls) == match parse_each_task(ls) {
            Err(e) => Err::<(ParserView, DocumentView), FormatError>(e),
            Ok(vs) => Ok((ParserView::InTasks, DocumentView { tasks: d.tasks + vs, ..d })),
        },
    decreases ls.len(),
{
    if ls.len() == 0 {
        assert(d.tasks + Seq::<TaskView>::empty() =~= d.tasks);
    } else {
        let init = ls.drop_last();
        assert forall|i: int| 0 <= i < init.len() implies is_task_line(#[trigger] init[i]) by {
            assert(init[i] == ls[i]);
        }
        lemma_run_tasks(d, init);
        assert(is_task_line(ls[ls.len() - 1]));
        match parse_each_task(init) {
            Ok(vs) => {
                lemma_steps(DocumentView { tasks: d.tasks + vs, ..d }, Seq::empty(), ls.last());
                match parse_task(ls.last()) {
                    Ok(v) => {
                        assert((d.tasks + vs).push(v) =~= d.tasks + vs.push(v));
                    },
                    Err(_) => {},
                }
            },
            Err(_) => {},
        }
    }
}

/// Lines after another heading that followed the tasks are kept as they
/// are.
proof fn lemma_run_between(d: DocumentView, ls: Seq<Seq<char>>)
    requires
        forall|i: int| 0 <= i < ls.len() ==> is_between_line(#[trigger] ls[i]),
    ensures
        run_from(ParserView::BetweenTasksAndNotes, d, ls) == Ok::<
            (ParserView, DocumentView),
            FormatError,
        >((ParserView::BetweenTasksAndNotes, DocumentView { between: d.between + ls, ..d })),
    decreases ls.len(),
{
    if ls.len() == 0 {
        assert(d.between + ls =~= d.between);
    } else {
        let init = ls.drop_last();
        assert forall|i: int| 0 <= i < init.len() implies is_between_line(#[trigger] init[i]) by {
            assert(init[i] == ls[i]);
        }
        lemma_run_between(d, init);
        assert(is_between_line(ls[ls.len() - 1]));
        lemma_steps(DocumentView { between: d.between + init, ..d }, Seq::empty(), ls.last());
        assert((d.between + init).push(ls.last()) =~= d.between + ls);
    }
}

/// The lines between tasks and notes, with the empty line after them, lead
/// from the tasks to where the heading of the notes is awaited.
proof fn lemma_run_optional_between(d: DocumentView, ls: Seq<Seq<char>>)
    requires
        forall|i: int| 0 <= i < ls.len() ==> is_between_line(#[trigger] ls[i]),
        ls.len() > 0 ==> "## "@.is_prefix_of(ls[0]),
    ensures
        run_from(ParserView::InTasks, d, optional_block(ls)) == Ok::<
            (ParserView, DocumentView),
            FormatError,
        >(
            (
                if ls.len() > 0 {
                    ParserView::BetweenTasksAndNotes
                } else {
                    ParserView::InTasks
                },
                DocumentView { between: d.between + ls, ..d },
            ),
        ),
{
    if ls.len() == 0 {
        assert(d.between + ls =~= d.between);
    } else {
        let first = seq![ls[0]];
        let rest = ls.skip(1);
        let none = seq![Seq::<char>::empty()];
        assert(is_between_line(ls[0]));
        lemma_steps(d, Seq::empty(), ls[0]);
        lemma_run_one(ParserView::InTasks, d, ls[0]);
        let d1 = DocumentView { between: d.between.push(ls[0]), ..d };
        assert forall|i: int| 0 <= i < rest.len() implies is_between_line(#[trigger] rest[i]) by {
            assert(rest[i] == ls[i + 1]);
        }
        lemma_run_between(d1, rest);
        lemma_run_one(
            ParserView::BetweenTasksAndNotes,
            DocumentView { between: d1.between + rest, ..d1 },
            Seq::<char>::empty(),
        );
        lemma_run_add(ParserView::InTasks, d, first, rest);
        lemma_run_add(ParserView::InTasks, d, first + rest, none);
        assert(first + rest + none =~= optional_block(ls));
        assert(d.between.push(ls[0]) + rest =~= d.between + ls);
    }
}

/// Lines of the body of a note are gathered.
proof fn lemma_run_body(acc: Seq<Seq<char>>, d: DocumentView, ls: Seq<Seq<char>>)
    requires
        forall|i: int| 0 <= i < ls.len() ==> is_body_line(#[trigger] ls[i]),
    ensures
        run_from(ParserView::InNotes(acc), d, ls) == Ok::<(ParserView, DocumentView), FormatError>(
            (ParserView::InNotes(acc + ls), d),
        ),
    decreases ls.len(),
{
    if ls.len() == 0 {
        assert(acc + ls =~= acc);
    } else {
        let init = ls.drop_last();
        assert forall|i: int| 0 <= i < init.len() implies is_body_line(#[trigger] init[i]) by {
            assert(init[i] == ls[i]);
        }
        lemma_run_body(acc, d, init);
        assert(is_body_line(ls[ls.len() - 1]));
        lemma_steps(d, acc + init, ls.last());
        assert((acc + init).push(ls.last()) =~= acc + ls);
    }
}

/// The lines of a note, with the empty line after them, complete the note
/// that was gathered before, and are gathered themselves.
proof fn lemma_run_block(acc: Seq<Seq<char>>, d: DocumentView, b: Seq<Seq<char>>)
    requires
        is_block(b),
    ensures
        run_from(ParserView::InNotes(acc), d, b + seq![Seq::<char>::empty()]) == match flush(acc, d) {
            Err(e) => Err::<(ParserView, DocumentView), FormatError>(e),
            Ok(d2) => Ok((ParserView::InNotes(b), d2)),
        },
{
    let first = seq![b[0]];
    let rest = b.skip(1);
    let none = seq![Seq::<char>::empty()];
    let st = ParserView::InNotes(acc);
    lemma_steps(d, acc, b[0]);
    lemma_run_one(st, d, b[0]);
    lemma_run_add(st, d, first, rest);
    lemma_run_add(st, d, first + rest, none);
    assert(first + rest =~= b);
    match flush(acc, d) {
        Ok(d2) => {
            assert forall|i: int| 0 <= i < rest.len() implies is_body_line(#[trigger] rest[i]) by {
                assert(rest[i] == b[i + 1]);
            }
            lemma_run_body(first, d2, rest);
            lemma_run_one(ParserView::InNotes(b), d2, Seq::<char>::empty());
        },
        Err(_) => {},
    }
}

/// The lines of the notes complete every note but the last, which is
/// gathered.
proof fn lemma_run_blocks(d: DocumentView, bs: Seq<Seq<Seq<char>>>)
    requires
        forall|i: int| 0 <= i < bs.len() ==> is_block(#[trigger] bs[i]),
    ensures
        run_from(ParserView::InNotes(Seq::empty()), d, block_lines(bs)) == if bs.len() == 0 {
            Ok::<(ParserView, DocumentView), FormatError>((ParserView::InNotes(Seq::empty()), d))
        } else {
            match parse_each_note(bs.drop_last()) {
                Err(e) => Err(e),
                Ok(ns) => Ok(
                    (ParserView::InNotes(bs.last()), DocumentView { notes: d.notes + ns, ..d }),
                ),
            }
        },
    decreases bs.len(),
{
    let start = ParserView::InNotes(Seq::empty());
    if bs.len() > 0 {
        let init = bs.drop_last();
        let last = bs.last();
        assert forall|i: int| 0 <= i < init.len() implies is_block(#[trigger] init[i]) by {
            assert(init[i] == bs[i]);
        }
        assert(is_block(bs[bs.len() - 1]));
        lemma_run_blocks(d, init);
        let tail = last + seq![Seq::<char>::empty()];
        lemma_run_add(start, d, block_lines(init), tail);
        assert(block_lines(bs) =~= block_lines(init) + tail);
        if init.len() == 0 {
            lemma_run_block(Seq::empty(), d, last);
            assert(d.notes + Seq::<NoteView>::empty() =~= d.notes);
        } else {
            assert(is_block(init[init.len() - 1]));
            match parse_each_note(init.drop_last()) {
                Ok(ns) => {
                    let d1 = DocumentView { notes: d.notes + ns, ..d };
                    lemma_run_block(init.last(), d1, last);
                    match parse_note(init.last()) {
                        Ok(n) => {
                            assert((d.notes + ns).push(n) =~= d.notes + ns.push(n));
                        },
                        Err(_) => {},
                    }
                },
                Err(_) => {},
            }
        }
    }
}

/// Lines after the notes are kept as they are.
proof fn lemma_run_after(d: DocumentView, ls: Seq<Seq<char>>)
    requires
        forall|i: int| 0 <= i < ls.len() ==> (#[trigger] ls[i]).len() > 0,
    ensures
        run_from(ParserView::AfterNotes, d, ls) == Ok::<(ParserView, DocumentView), FormatError>(
            (ParserView::AfterNotes, DocumentView { post: d.post + ls, ..d }),
        ),
    decreases ls.len(),
{
    if ls.len() == 0 {
        assert(d.post + ls =~= d.post);
    } else {
        let init = ls.drop_last();
        assert forall|i: int| 0 <= i < init.len() implies (#[trigger] init[i]).len() > 0 by {
            assert(init[i] == ls[i]);
        }
        lemma_run_after(d, init);
        assert(ls[ls.len() - 1].len() > 0);
        lemma_steps(DocumentView { post: d.post + init, ..d }, Seq::empty(), ls.last());
        assert((d.post + init).push(ls.last()) =~= d.post + ls);
    }
}

/// At the end of the notes the note that was gathered is completed, and the
/// lines after the notes are kept as they are.
proof fn lemma_run_post(acc: Seq<Seq<char>>, d: DocumentView, ls: Seq<Seq<char>>)
    requires
        forall|i: int| 0 <= i < ls.len() ==> (#[trigger] ls[i]).len() > 0,
        ls.len() > 0 ==> "## "@.is_prefix_of(ls[0]),
    ensures
        (match run_from(ParserView::InNotes(acc), d, ls) {
            Err(e) => Err(e),
            Ok((st, d2)) => finish(st, d2),
        }) == (match flush(acc, d) {
            Err(e) => Err::<DocumentView, FormatError>(e),
            Ok(d3) => Ok(DocumentView { post: d3.post + ls, ..d3 }),
        }),
{
    let st = ParserView::InNotes(acc);
    if ls.len() == 0 {
        match flush(acc, d) {
            Ok(d3) => {
                assert(d3.post + ls =~= d3.post);
            },
            Err(_) => {},
        }
    } else {
        let first = seq![ls[0]];
        let rest = ls.skip(1);
        assert(ls[0].len() > 0);
        lemma_steps(d, acc, ls[0]);
        lemma_run_one(st, d, ls[0]);
        lemma_run_add(st, d, first, rest);
        assert(first + rest =~= ls);
        match flush(acc, d) {
            Ok(d3) => {
                let d4 = DocumentView { post: d3.post.push(ls[0]), ..d3 };
                assert forall|i: int| 0 <= i < rest.len() implies (#[trigger] rest[i]).len() > 0 by {
                    assert(rest[i] == ls[i + 1]);
                }
                lemma_run_after(d4, rest);
                assert(d3.post.push(ls[0]) + rest =~= d3.post + ls);
            },
            Err(_) => {},
        }
    }
}

/// Reading a document that is laid out as it is written is reading its
/// tasks and its notes: the other lines are kept as they are.
pub proof fn lemma_layout_read(l: Layout)
    requires
        l.is_valid(),
    ensures
        parse_lines(l.lines()) == parse_layout(l),
{
    let none = Seq::<char>::empty();
    let e = empty_document();
    let s0 = ParserView::BeforeTasks;
    let a1 = l.preamble;
    let a2 = a1 + seq![none, "## Tasks"@];
    let a3 = a2 + l.tasks;
    let a4 = a3 + seq![none];
    let a5 = a4 + optional_block(l.between);
    let a6 = a5 + seq!["## Notes"@, none];
    let a7 = a6 + block_lines(l.notes);
    let a8 = a7 + l.post;
    assert(a8 == l.lines());
    // the lines before the tasks and the heading of the tasks
    lemma_run_preamble(e, a1);
    let d1 = DocumentView { preamble: l.preamble, ..e };
    assert(e.preamble + a1 =~= l.preamble);
    lemma_run_add(s0, e, a1, seq![none, "## Tasks"@]);
    assert(seq![none, "## Tasks"@] =~= seq![none].push("## Tasks"@));
    lemma_steps(d1, Seq::empty(), none);
    lemma_run_one(s0, d1, none);
    lemma_run_push(s0, d1, seq![none], "## Tasks"@);
    assert(run_from(s0, e, a2) == Ok::<(ParserView, DocumentView), FormatError>(
        (ParserView::InTasks, d1),
    ));
    // the tasks
    lemma_run_add(s0, e, a2, l.tasks);
    lemma_run_tasks(d1, l.tasks);
    lemma_run_add(s0, e, a3, seq![none]);
    lemma_run_add(s0, e, a4, optional_block(l.between));
    lemma_run_add(s0, e, a5, seq!["## Notes"@, none]);
    lemma_run_add(s0, e, a6, block_lines(l.notes));
    lemma_run_add(s0, e, a7, l.post);
    match parse_each_task(l.tasks) {
        Err(_) => {},
        Ok(tasks) => {
            let d3 = DocumentView { tasks, ..d1 };
            assert(d1.tasks + tasks =~= tasks);
            lemma_run_one(ParserView::InTasks, d3, none);
            // the lines between tasks and notes, and the heading of the notes
            lemma_run_optional_between(d3, l.between);
            let d5 = DocumentView { between: l.between, ..d3 };
            assert(d3.between + l.between =~= l.between);
            let s5 = if l.between.len() > 0 {
                ParserView::BetweenTasksAndNotes
            } else {
                ParserView::InTasks
            };
            let s6 = ParserView::InNotes(Seq::empty());
            assert(seq!["## Notes"@, none] =~= seq!["## Notes"@].push(none));
            lemma_steps(d5, Seq::empty(), none);
            lemma_run_one(s5, d5, "## Notes"@);
            lemma_run_push(s5, d5, seq!["## Notes"@], none);
            assert(run_from(s0, e, a6) == Ok::<(ParserView, DocumentView), FormatError>((s6, d5)));
            // the notes and the lines after them
            lemma_run_blocks(d5, l.notes);
            if l.notes.len() == 0 {
                lemma_run_post(Seq::empty(), d5, l.post);
                assert(d5.post + l.post =~= l.post);
            } else {
                assert(is_block(l.notes[l.notes.len() - 1]));
                match parse_each_note(l.notes.drop_last()) {
                    Err(_) => {},
                    Ok(ns) => {
                        let d7 = DocumentView { notes: d5.notes + ns, ..d5 };
                        assert(d5.notes + ns =~= ns);
                        lemma_run_post(l.notes.last(), d7, l.post);
                        assert(d7.post + l.post =~= l.post);
                    },
                }
            }
        },
    }
}

/// The texts of tasks that were read from plain task texts are those texts.
pub proof fn lemma_each_task_round_trip(ts: Seq<Seq<char>>)
    requires
        forall|i: int| 0 <= i < ts.len() ==> is_plain_task(#[trigger] ts[i]),
        parse_each_task(ts) is Ok,
    ensures
        task_lines(parse_each_task(ts).unwrap()) == ts,
    decreases ts.len(),
{
    if ts.len() == 0 {
        assert(task_lines(Seq::<TaskView>::empty()) =~= ts);
    } else {
        let init = ts.drop_last();
        assert forall|i: int| 0 <= i < init.len() implies is_plain_task(#[trigger] init[i]) by {
            assert(init[i] == ts[i]);
        }
        lemma_each_task_round_trip(init);
        assert(is_plain_task(ts[ts.len() - 1]));
        lemma_task_round_trip(ts.last());
        let vs = parse_each_task(init).unwrap();
        let v = parse_task(ts.last()).unwrap();
        assert(task_lines(vs.push(v)) =~= task_lines(vs).push(format_task(v)));
        assert(init.push(ts.last()) =~= ts);
    }
}

/// The lines of notes that were read from plain lines are those lines.
pub proof fn lemma_each_note_round_trip(bs: Seq<Seq<Seq<char>>>)
    requires
        forall|i: int| 0 <= i < bs.len() ==> is_plain_note(#[trigger] bs[i]),
        parse_each_note(bs) is Ok,
    ensures
        note_lines(parse_each_note(bs).unwrap()) == block_lines(bs),
    decreases bs.len(),
{
    if bs.len() > 0 {
        let init = bs.drop_last();
        assert forall|i: int| 0 <= i < init.len() implies is_plain_note(#[trigger] init[i]) by {
            assert(init[i] == bs[i]);
        }
        lemma_each_note_round_trip(init);
        assert(is_plain_note(bs[bs.len() - 1]));
        lemma_note_round_trip(bs.last());
        let vs = parse_each_note(init).unwrap();
        let v = parse_note(bs.last()).unwrap();
        assert(vs.push(v).drop_last() =~= vs);
        assert(vs.push(v).last() == v);
    }
}

/// Writing a document that was read from lines laid out as they are written,
/// with its tasks and notes in their written form, gives those lines.
pub proof fn lemma_layout_round_trip(l: Layout)
    requires
        l.is_valid(),
        l.is_plain(),
        parse_lines(l.lines()) is Ok,
    ensures
        document_lines(parse_lines(l.lines()).unwrap()) == l.lines(),
{
    lemma_layout_read(l);
    lemma_each_task_round_trip(l.tasks);
    lemma_each_note_round_trip(l.notes);
}

/// Every line of the text ends with a line feed only: no carriage return
/// stands before one.
pub open spec fn has_plain_line_ends(s: Seq<char>) -> bool {
    forall|i: int| 0 < i < s.len() && #[trigger] s[i] == '\n' ==> s[i - 1] != '\r'
}

/// The text `s` is laid out as `l`.
pub open spec fn is_written_as(s: Seq<char>, l: Layout) -> bool {
    &&& has_plain_line_ends(s)
    &&& text_lines(s) == l.lines()
    &&& l.is_valid()
    &&& l.is_plain()
}

/// A text of a document in the form that is written, but for the line feed
/// at its end.
pub open spec fn is_plain_document(s: Seq<char>) -> bool {
    exists|l: Layout| is_written_as(s, l)
}

/// The text of a line and more lines.
proof fn lemma_unlines_first(x: Seq<char>, rest: Seq<Seq<char>>)
    ensures
        unlines(seq![x] + rest) == x + seq!['\n'] + unlines(rest),
    decreases rest.len(),
{
    if rest.len() == 0 {
        assert(seq![x] + rest =~= seq![x]);
        assert(seq![x].drop_last() =~= Seq::<Seq<char>>::empty());
        assert(unlines(Seq::<Seq<char>>::empty()) =~= Seq::<char>::empty());
        assert(seq![x].last() == x);
        assert(unlines(seq![x]) == unlines(seq![x].drop_last()) + x + seq!['\n']);
        assert(unlines(seq![x]) =~= x + seq!['\n']);
        assert(x + seq!['\n'] + unlines(rest) =~= x + seq!['\n']);
    } else {
        lemma_unlines_first(x, rest.drop_last());
        assert((seq![x] + rest).drop_last() =~= seq![x] + rest.drop_last());
        assert((seq![x] + rest).last() == rest.last());
        assert(x + seq!['\n'] + unlines(rest.drop_last()) + rest.last() + seq!['\n'] =~= x
            + seq!['\n'] + (unlines(rest.drop_last()) + rest.last() + seq!['\n']));
    }
}

/// A line ends within the text, at a line feed or at the end of the text.
proof fn lemma_line_len(s: Seq<char>)
    ensures
        line_len(s) <= s.len(),
        line_len(s) < s.len() ==> s[line_len(s) as int] == '\n',
    decreases s.len(),
{
    if s.len() > 0 && s[0] != '\n' {
        lemma_line_len(s.drop_first());
    }
}

/// The lines of a text whose lines end with line feeds only are the text,
/// with a line feed more at its end.
pub proof fn lemma_text_lines_unlines(s: Seq<char>)
    requires
        has_plain_line_ends(s),
    ensures
        unlines(text_lines(s)) == s + seq!['\n'],
    decreases s.len(),
{
    lemma_line_len(s);
    let n = line_len(s) as int;
    if n >= s.len() {
        lemma_unlines_first(s, Seq::empty());
        assert(seq![s] + Seq::<Seq<char>>::empty() =~= seq![s]);
        assert(unlines(Seq::<Seq<char>>::empty()) =~= Seq::<char>::empty());
        assert(s + seq!['\n'] + Seq::<char>::empty() =~= s + seq!['\n']);
    } else {
        let head = s.take(n);
        let rest = s.skip(n + 1);
        assert(strip_return(head) == head) by {
            if n > 0 {
                assert(s[n] == '\n');
                assert(head.last() == s[n - 1]);
            }
        }
        assert forall|i: int| 0 < i < rest.len() && #[trigger] rest[i] == '\n' implies rest[i - 1]
            != '\r' by {
            assert(s[i + n + 1] == '\n');
            assert(rest[i - 1] == s[i + n]);
        }
        lemma_text_lines_unlines(rest);
        lemma_unlines_first(head, text_lines(rest));
        assert(head + seq!['\n'] + (rest + seq!['\n']) =~= s + seq!['\n']);
    }
}

/// Writing a document that was read from a text in the written form gives
/// that text, with a line feed more at its end.
pub proof fn lemma_document_round_trip(s: Seq<char>)
    requires
        is_plain_document(s),
        parse_document(s) is Ok,
    ensures
        format_document(parse_document(s).unwrap()) == s + seq!['\n'],
{
    let l = choose|l: Layout| is_written_as(s, l);
    lemma_layout_round_trip(l);
    lemma_text_lines_unlines(s);
}

} // verus!
