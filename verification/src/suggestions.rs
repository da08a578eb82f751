//! The tags of a document, gathered by kind for suggestions.

use crate::document::{note_views, task_views, DocumentView, OrgDocument};
use crate::note::NoteView;
use crate::tags::collection::{texts_of_kind, TagKind};
use crate::tags::{find_colon, first_colon};
use crate::task::TaskView;
use crate::text::{chars_of, lowercase, same_chars, starts_with, strings};
use vstd::prelude::*;
use vstd::seq_lib::{to_multiset_build, to_multiset_insert};

verus! {

/// The texts of the tags of a document, by kind.
#[derive(Debug, Clone)]
pub struct TagSuggestions {
    /// The `@` tags.
    pub context: Vec<String>,
    /// The `+` tags.
    pub project: Vec<String>,
    /// The `p:` tags.
    pub person: Vec<String>,
    /// The tags that are a key and a value.
    pub custom: Vec<String>,
    /// The `!` tags.
    pub oneoff: Vec<String>,
}

/// The texts of suggestions, by kind.
#[verifier::ext_equal]
pub struct SuggestionsView {
    pub context: Seq<Seq<char>>,
    pub project: Seq<Seq<char>>,
    pub person: Seq<Seq<char>>,
    pub custom: Seq<Seq<char>>,
    pub oneoff: Seq<Seq<char>>,
}

impl View for TagSuggestions {
    type V = SuggestionsView;

    open spec fn view(&self) -> SuggestionsView {
        SuggestionsView {
            context: strings(self.context@),
            project: strings(self.project@),
            person: strings(self.person@),
            custom: strings(self.custom@),
            oneoff: strings(self.oneoff@),
        }
    }
}

impl SuggestionsView {
    /// All the texts: contexts, projects, persons, keys with values, and
    /// one-offs, in this order.
    pub open spec fn all(self) -> Seq<Seq<char>> {
        self.context + self.project + self.person + self.custom + self.oneoff
    }

    /// The texts of every kind are in the order of a dictionary, and none is
    /// there twice.
    pub open spec fn is_ordered(self) -> bool {
        &&& is_strictly_ascending(self.context)
        &&& is_strictly_ascending(self.project)
        &&& is_strictly_ascending(self.person)
        &&& is_strictly_ascending(self.custom)
        &&& is_strictly_ascending(self.oneoff)
    }
}

/// `a` stands before `b` in the order of a dictionary, characters counting
/// by their code.
pub open spec fn lex_lt(a: Seq<char>, b: Seq<char>) -> bool
    decreases a.len(),
{
    if b.len() == 0 {
        false
    } else if a.len() == 0 {
        true
    } else if a[0] != b[0] {
        a[0] < b[0]
    } else {
        lex_lt(a.drop_first(), b.drop_first())
    }
}

/// The number of leading texts of `s` that stand before `x`.
pub open spec fn insert_place(s: Seq<Seq<char>>, x: Seq<char>) -> nat
    decreases s.len(),
{
    if s.len() > 0 && lex_lt(s[0], x) {
        1 + insert_place(s.drop_first(), x)
    } else {
        0
    }
}

/// `x` put into `s` after the leading texts that stand before it.
pub open spec fn insert_sorted(s: Seq<Seq<char>>, x: Seq<char>) -> Seq<Seq<char>> {
    s.insert(insert_place(s, x) as int, x)
}

/// `x` put into `s` after the leading texts that stand before it, unless it
/// is met there.
pub open spec fn insert_unique(s: Seq<Seq<char>>, x: Seq<char>) -> Seq<Seq<char>> {
    let k = insert_place(s, x) as int;
    if k < s.len() && s[k] == x {
        s
    } else {
        s.insert(k, x)
    }
}

/// The texts of `more` put into `s` one after the other, each in its place.
pub open spec fn insert_all(s: Seq<Seq<char>>, more: Seq<Seq<char>>) -> Seq<Seq<char>>
    decreases more.len(),
{
    if more.len() == 0 {
        s
    } else {
        insert_sorted(insert_all(s, more.drop_last()), more.last())
    }
}

/// The texts of `more` put into `s` one after the other, each in its place
/// unless it is there already.
pub open spec fn insert_all_unique(s: Seq<Seq<char>>, more: Seq<Seq<char>>) -> Seq<Seq<char>>
    decreases more.len(),
{
    if more.len() == 0 {
        s
    } else {
        insert_unique(insert_all_unique(s, more.drop_last()), more.last())
    }
}

/// The texts in the order of a dictionary.
pub open spec fn sorted(s: Seq<Seq<char>>) -> Seq<Seq<char>> {
    insert_all(Seq::empty(), s)
}

/// The texts in the order of a dictionary, each once.
pub open spec fn sorted_unique(s: Seq<Seq<char>>) -> Seq<Seq<char>> {
    insert_all_unique(Seq::empty(), s)
}

/// A tag text is offered for `prefix` where it begins with it, case apart.
pub open spec fn is_offered(tag: Seq<char>, prefix: Seq<char>) -> bool {
    lowercase(prefix).is_prefix_of(lowercase(tag))
}

/// The texts of `s` that are offered for `prefix`, in their order.
pub open spec fn offered(s: Seq<Seq<char>>, prefix: Seq<char>) -> Seq<Seq<char>> {
    s.filter(|t: Seq<char>| is_offered(t, prefix))
}

/// `s` begins with the character `c`.
pub open spec fn begins_with(s: Seq<char>, c: char) -> bool {
    s.len() > 0 && s[0] == c
}

/// `s` holds a colon.
pub open spec fn has_colon(s: Seq<char>) -> bool {
    first_colon(s) < s.len()
}

/// The suggestions for what has been typed of a tag. How the text begins
/// says which kind is meant: `@` a context, `+` a project, `p` with a colon
/// somewhere a person, `!` a one-off, any other text with a colon a key with
/// a value. For a text of no kind all the texts are searched, in the order
/// of a dictionary.
pub open spec fn suggestions(v: SuggestionsView, prefix: Seq<char>) -> Seq<Seq<char>> {
    if begins_with(prefix, '@') {
        offered(v.context, prefix)
    } else if begins_with(prefix, '+') {
        offered(v.project, prefix)
    } else if begins_with(prefix, 'p') && has_colon(prefix) {
        offered(v.person, prefix)
    } else if begins_with(prefix, '!') {
        offered(v.oneoff, prefix)
    } else if has_colon(prefix) {
        offered(v.custom, prefix)
    } else {
        offered(sorted(v.all()), prefix)
    }
}

/// The texts of the tags of one kind in the tasks, in order.
pub open spec fn kind_texts_of_tasks(ts: Seq<TaskView>, kind: TagKind) -> Seq<Seq<char>>
    decreases ts.len(),
{
    if ts.len() == 0 {
        Seq::empty()
    } else {
        kind_texts_of_tasks(ts.drop_last(), kind) + (match ts.last().tags {
            Some(tags) => texts_of_kind(tags, kind),
            None => Seq::empty(),
        })
    }
}

/// The texts of the tags of one kind in the notes, in order.
pub open spec fn kind_texts_of_notes(ns: Seq<NoteView>, kind: TagKind) -> Seq<Seq<char>>
    decreases ns.len(),
{
    if ns.len() == 0 {
        Seq::empty()
    } else {
        kind_texts_of_notes(ns.drop_last(), kind) + texts_of_kind(ns.last().tags, kind)
    }
}

/// The texts of the tags of one kind in a document: those of the tasks,
/// then those of the notes.
pub open spec fn kind_texts(d: DocumentView, kind: TagKind) -> Seq<Seq<char>> {
    kind_texts_of_tasks(d.tasks, kind) + kind_texts_of_notes(d.notes, kind)
}

/// The suggestions that a document gives: for each kind the texts of its
/// tags of that kind, in the order of a dictionary, each once.
pub open spec fn unique_tags(d: DocumentView) -> SuggestionsView {
    SuggestionsView {
        context: sorted_unique(kind_texts(d, TagKind::Context)),
        project: sorted_unique(kind_texts(d, TagKind::Project)),
        person: sorted_unique(kind_texts(d, TagKind::Person)),
        custom: sorted_unique(kind_texts(d, TagKind::Custom)),
        oneoff: sorted_unique(kind_texts(d, TagKind::OneOff)),
    }
}

/// Putting in the texts of two runs one after the other is putting in the
/// texts of both.
pub proof fn lemma_insert_all_unique_add(s: Seq<Seq<char>>, a: Seq<Seq<char>>, b: Seq<Seq<char>>)
    ensures
        insert_all_unique(s, a + b) == insert_all_unique(insert_all_unique(s, a), b),
    decreases b.len(),
{
    if b.len() == 0 {
        assert(a + b =~= a);
    } else {
        lemma_insert_all_unique_add(s, a, b.drop_last());
        assert((a + b).drop_last() =~= a + b.drop_last());
        assert((a + b).last() == b.last());
    }
}

/// Putting in the texts of two runs one after the other is putting in the
/// texts of both.
pub proof fn lemma_insert_all_add(s: Seq<Seq<char>>, a: Seq<Seq<char>>, b: Seq<Seq<char>>)
    ensures
        insert_all(s, a + b) == insert_all(insert_all(s, a), b),
    decreases b.len(),
{
    if b.len() == 0 {
        assert(a + b =~= a);
    } else {
        lemma_insert_all_add(s, a, b.drop_last());
        assert((a + b).drop_last() =~= a + b.drop_last());
        assert((a + b).last() == b.last());
    }
}

/// Whether `a` stands before `b` in the order of a dictionary.
pub fn lex_less(a: &Vec<char>, b: &Vec<char>) -> (r: bool)
    ensures
        r == lex_lt(a@, b@),
{
    let mut i: usize = 0;
    assert(a@.skip(0) =~= a@ && b@.skip(0) =~= b@);
    while i < a.len() && i < b.len() && a[i] == b[i]
        invariant
            i <= a.len(),
            i <= b.len(),
            lex_lt(a@, b@) == lex_lt(a@.skip(i as int), b@.skip(i as int)),
        decreases a.len() - i,
    {
        assert(a@.skip(i as int).drop_first() =~= a@.skip(i + 1));
        assert(b@.skip(i as int).drop_first() =~= b@.skip(i + 1));
        i += 1;
    }
    if i == b.len() {
        false
    } else if i == a.len() {
        true
    } else {
        a[i] < b[i]
    }
}

/// The place where `x` goes in `v`.
fn place_of(v: &Vec<String>, x: &Vec<char>) -> (k: usize)
    ensures
        k == insert_place(strings(v@), x@),
        k <= v.len(),
{
    let mut k: usize = 0;
    let ghost all = strings(v@);
    assert(all.skip(0) =~= all);
    while k < v.len() && lex_less(&chars_of(v[k].as_str()), x)
        invariant
            k <= v.len(),
            all == strings(v@),
            insert_place(all, x@) == k + insert_place(all.skip(k as int), x@),
        decreases v.len() - k,
    {
        assert(all.skip(k as int).drop_first() =~= all.skip(k + 1));
        k += 1;
    }
    k
}

/// Puts the texts of `more` into `v`, each in its place; with `unique`, a
/// text that is met in its place is left out.
fn insert_texts(v: &mut Vec<String>, more: &Vec<String>, unique: bool)
    ensures
        strings(final(v)@) == if unique {
            insert_all_unique(strings(old(v)@), strings(more@))
        } else {
            insert_all(strings(old(v)@), strings(more@))
        },
{
    let mut i: usize = 0;
    let ghost all = strings(more@);
    let ghost start = strings(v@);
    while i < more.len()
        invariant
            i <= more.len(),
            all == strings(more@),
            strings(v@) == if unique {
                insert_all_unique(start, all.take(i as int))
            } else {
                insert_all(start, all.take(i as int))
            },
        decreases more.len() - i,
    {
        assert(all.take(i + 1).drop_last() =~= all.take(i as int));
        assert(all.take(i + 1).last() == more@[i as int]@);
        let x = chars_of(more[i].as_str());
        let k = place_of(v, &x);
        let ghost before = strings(v@);
        let met = unique && k < v.len() && same_text(&v[k], &more[i]);
        if !met {
            let w = more[i].clone();
            v.insert(k, w);
            assert(strings(v@) =~= before.insert(k as int, w@));
        }
        i += 1;
    }
    assert(all.take(i as int) =~= all);
}

/// Whether two strings hold the same text.
fn same_text(a: &String, b: &String) -> (r: bool)
    ensures
        r == (a@ == b@),
{
    same_chars(&chars_of(a.as_str()), &chars_of(b.as_str()))
}

/// Whether `tag` is offered for a prefix whose lower-case form is `lower`.
fn is_offered_for(tag: &String, lower: &Vec<char>, Ghost(prefix): Ghost<Seq<char>>) -> (r: bool)
    requires
        lower@ == lowercase(prefix),
    ensures
        r == is_offered(tag@, prefix),
{
    starts_with(&chars_of(tag.as_str().to_lowercase().as_str()), lower)
}

/// The texts of `v` that are offered for `prefix`, in their order.
fn filter_offered(v: &Vec<String>, prefix: &str) -> (r: Vec<String>)
    ensures
        strings(r@) == offered(strings(v@), prefix@),
{
    let lower = chars_of(prefix.to_lowercase().as_str());
    let mut r: Vec<String> = Vec::new();
    let mut i: usize = 0;
    let ghost all = strings(v@);
    let ghost pred = |t: Seq<char>| is_offered(t, prefix@);
    assert(all.take(0).filter(pred) =~= Seq::<Seq<char>>::empty()) by {
        all.take(0).lemma_filter_len(pred);
    }
    while i < v.len()
        invariant
            i <= v.len(),
            all == strings(v@),
            lower@ == lowercase(prefix@),
            pred == |t: Seq<char>| is_offered(t, prefix@),
            strings(r@) == all.take(i as int).filter(pred),
        decreases v.len() - i,
    {
        proof {
            assert(all.take(i + 1) =~= all.take(i as int).push(v@[i as int]@));
            all.take(i as int).lemma_filter_push(v@[i as int]@, pred);
        }
        if is_offered_for(&v[i], &lower, Ghost(prefix@)) {
            let ghost before = strings(r@);
            let w = v[i].clone();
            r.push(w);
            assert(strings(r@) =~= before.push(w@));
        }
        i += 1;
    }
    assert(all.take(i as int) =~= all);
    r
}

impl TagSuggestions {
    /// All the texts in the order of a dictionary.
    pub fn all_tags(&self) -> (r: Vec<String>)
        ensures
            strings(r@) == sorted(self@.all()),
            is_ascending(strings(r@)),
            strings(r@).to_multiset() == self@.all().to_multiset(),
    {
        proof {
            lemma_sorted(self@.all());
        }
        let mut all: Vec<String> = Vec::new();
        let ghost e = Seq::<Seq<char>>::empty();
        assert(strings(all@) =~= e);
        insert_texts(&mut all, &self.context, false);
        insert_texts(&mut all, &self.project, false);
        insert_texts(&mut all, &self.person, false);
        insert_texts(&mut all, &self.custom, false);
        insert_texts(&mut all, &self.oneoff, false);
        proof {
            let v = self@;
            lemma_insert_all_add(e, v.context, v.project);
            lemma_insert_all_add(e, v.context + v.project, v.person);
            lemma_insert_all_add(e, v.context + v.project + v.person, v.custom);
            lemma_insert_all_add(e, v.context + v.project + v.person + v.custom, v.oneoff);
        }
        all
    }

    /// The texts that begin with `prefix`, case apart, in the order of a
    /// dictionary.
    pub fn matching_prefix(&self, prefix: &str) -> (r: Vec<String>)
        ensures
            strings(r@) == offered(sorted(self@.all()), prefix@),
    {
        filter_offered(&self.all_tags(), prefix)
    }

    /// The suggestions for what has been typed of a tag.
    pub fn suggestions_for_prefix(&self, prefix: &str) -> (r: Vec<String>)
        ensures
            strings(r@) == suggestions(self@, prefix@),
    {
        let p = chars_of(prefix);
        let colon = find_colon(&p) < p.len();
        if p.len() > 0 && p[0] == '@' {
            filter_offered(&self.context, prefix)
        } else if p.len() > 0 && p[0] == '+' {
            filter_offered(&self.project, prefix)
        } else if p.len() > 0 && p[0] == 'p' && colon {
            filter_offered(&self.person, prefix)
        } else if p.len() > 0 && p[0] == '!' {
            filter_offered(&self.oneoff, prefix)
        } else if colon {
            filter_offered(&self.custom, prefix)
        } else {
            self.matching_prefix(prefix)
        }
    }
}

/// Gathers the texts of the tags of one kind of a document, in the order of
/// a dictionary, each once.
fn gather(doc: &OrgDocument, kind: TagKind) -> (r: Vec<String>)
    ensures
        strings(r@) == sorted_unique(kind_texts(doc@, kind)),
{
    let mut r: Vec<String> = Vec::new();
    let ghost e = Seq::<Seq<char>>::empty();
    assert(strings(r@) =~= e);
    let ghost tasks = doc@.tasks;
    let ghost notes = doc@.notes;
    let the_tasks = doc.tasks();
    let the_notes = doc.notes();
    let mut i: usize = 0;
    while i < the_tasks.len()
        invariant
            i <= the_tasks.len(),
            tasks == task_views(the_tasks@),
            strings(r@) == insert_all_unique(e, kind_texts_of_tasks(tasks.take(i as int), kind)),
        decreases the_tasks.len() - i,
    {
        let ghost done = kind_texts_of_tasks(tasks.take(i as int), kind);
        assert(tasks.take(i + 1).drop_last() =~= tasks.take(i as int));
        assert(tasks.take(i + 1).last() == tasks[i as int]);
        if let Some(tags) = the_tasks[i].tags() {
            let more = tags.tags_of_kind(kind);
            insert_texts(&mut r, &more, true);
            proof {
                lemma_insert_all_unique_add(e, done, strings(more@));
            }
        } else {
            assert(done + Seq::<Seq<char>>::empty() =~= done);
        }
        i += 1;
    }
    assert(tasks.take(i as int) =~= tasks);
    let ghost of_tasks = kind_texts_of_tasks(tasks, kind);
    let mut i: usize = 0;
    assert(of_tasks + kind_texts_of_notes(notes.take(0), kind) =~= of_tasks);
    while i < the_notes.len()
        invariant
            i <= the_notes.len(),
            notes == note_views(the_notes@),
            strings(r@) == insert_all_unique(
                e,
                of_tasks + kind_texts_of_notes(notes.take(i as int), kind),
            ),
        decreases the_notes.len() - i,
    {
        let ghost done = kind_texts_of_notes(notes.take(i as int), kind);
        assert(notes.take(i + 1).drop_last() =~= notes.take(i as int));
        assert(notes.take(i + 1).last() == notes[i as int]);
        let more = the_notes[i].tags().tags_of_kind(kind);
        insert_texts(&mut r, &more, true);
        proof {
            lemma_insert_all_unique_add(e, of_tasks + done, strings(more@));
            assert((of_tasks + done) + strings(more@) =~= of_tasks + (done + strings(more@)));
        }
        i += 1;
    }
    assert(notes.take(i as int) =~= notes);
    r
}

impl OrgDocument {
    /// The texts of the tags of the tasks and notes, by kind: each kind in
    /// the order of a dictionary, each text once.
    pub fn collect_unique_tags(&self) -> (r: TagSuggestions)
        ensures
            r@ == unique_tags(self@),
            r@.is_ordered(),
    {
        proof {
            lemma_sorted_unique(kind_texts(self@, TagKind::Context));
            lemma_sorted_unique(kind_texts(self@, TagKind::Project));
            lemma_sorted_unique(kind_texts(self@, TagKind::Person));
            lemma_sorted_unique(kind_texts(self@, TagKind::Custom));
            lemma_sorted_unique(kind_texts(self@, TagKind::OneOff));
        }
        TagSuggestions {
            context: gather(self, TagKind::Context),
            project: gather(self, TagKind::Project),
            person: gather(self, TagKind::Person),
            custom: gather(self, TagKind::Custom),
            oneoff: gather(self, TagKind::OneOff),
        }
    }
}

/// No text stands before another that stands before it or is the same.
pub open spec fn is_ascending(s: Seq<Seq<char>>) -> bool {
    forall|i: int, j: int| 0 <= i < j < s.len() ==> !lex_lt(#[trigger] s[j], #[trigger] s[i])
}

/// Every text stands before those that follow it: the texts are in order,
/// and none is there twice.
pub open spec fn is_strictly_ascending(s: Seq<Seq<char>>) -> bool {
    forall|i: int, j: int| 0 <= i < j < s.len() ==> lex_lt(#[trigger] s[i], #[trigger] s[j])
}

/// No text stands before itself.
pub proof fn lemma_lex_irreflexive(a: Seq<char>)
    ensures
        !lex_lt(a, a),
    decreases a.len(),
{
    if a.len() > 0 {
        lemma_lex_irreflexive(a.drop_first());
    }
}

/// What stands before a text stands before all that the text stands before.
pub proof fn lemma_lex_transitive(a: Seq<char>, b: Seq<char>, c: Seq<char>)
    requires
        lex_lt(a, b),
        lex_lt(b, c),
    ensures
        lex_lt(a, c),
    decreases a.len(),
{
    if a.len() > 0 && a[0] == b[0] && b[0] == c[0] {
        lemma_lex_transitive(a.drop_first(), b.drop_first(), c.drop_first());
    }
}

/// Of two different texts one stands before the other.
pub proof fn lemma_lex_connected(a: Seq<char>, b: Seq<char>)
    ensures
        a == b || lex_lt(a, b) || lex_lt(b, a),
    decreases a.len(),
{
    if a.len() == 0 || b.len() == 0 {
        if a.len() == 0 && b.len() == 0 {
            assert(a =~= b);
        }
    } else if a[0] == b[0] {
        lemma_lex_connected(a.drop_first(), b.drop_first());
        if a.drop_first() == b.drop_first() {
            assert(a =~= seq![a[0]] + a.drop_first());
            assert(b =~= seq![b[0]] + b.drop_first());
        }
    }
}

/// The place of a text among others: all before the place stand before the
/// text, and the one at the place does not.
pub proof fn lemma_insert_place(s: Seq<Seq<char>>, x: Seq<char>)
    ensures
        insert_place(s, x) <= s.len(),
        forall|i: int| 0 <= i < insert_place(s, x) ==> lex_lt(#[trigger] s[i], x),
        insert_place(s, x) < s.len() ==> !lex_lt(s[insert_place(s, x) as int], x),
    decreases s.len(),
{
    if s.len() > 0 && lex_lt(s[0], x) {
        let t = s.drop_first();
        lemma_insert_place(t, x);
        assert forall|i: int| 0 <= i < insert_place(s, x) implies lex_lt(#[trigger] s[i], x) by {
            if i > 0 {
                assert(s[i] == t[i - 1]);
            }
        }
    }
}

/// A text put in its place among texts in order leaves them in order.
pub proof fn lemma_insert_sorted_ascending(s: Seq<Seq<char>>, x: Seq<char>)
    requires
        is_ascending(s),
    ensures
        is_ascending(insert_sorted(s, x)),
{
    lemma_insert_place(s, x);
    let k = insert_place(s, x) as int;
    let t = s.insert(k, x);
    assert forall|i: int, j: int| 0 <= i < j < t.len() implies !lex_lt(
        #[trigger] t[j],
        #[trigger] t[i],
    ) by {
        if j == k {
            assert(t[i] == s[i]);
            if lex_lt(x, s[i]) {
                lemma_lex_transitive(x, s[i], x);
                lemma_lex_irreflexive(x);
            }
        } else if i == k {
            assert(t[j] == s[j - 1]);
            if lex_lt(s[j - 1], x) {
                lemma_lex_connected(s[k], x);
                if lex_lt(x, s[k]) {
                    lemma_lex_transitive(s[j - 1], x, s[k]);
                }
                if j - 1 == k {
                    lemma_lex_irreflexive(x);
                }
            }
        } else {
            let i0 = if i < k {
                i
            } else {
                i - 1
            };
            let j0 = if j < k {
                j
            } else {
                j - 1
            };
            assert(t[i] == s[i0] && t[j] == s[j0]);
        }
    }
}

/// A text put in its place among texts in order that are there once each,
/// unless it is there already, leaves them in order and once each.
pub proof fn lemma_insert_unique_ascending(s: Seq<Seq<char>>, x: Seq<char>)
    requires
        is_strictly_ascending(s),
    ensures
        is_strictly_ascending(insert_unique(s, x)),
        forall|y: Seq<char>| insert_unique(s, x).contains(y) <==> (s.contains(y) || y == x),
{
    lemma_insert_place(s, x);
    let k = insert_place(s, x) as int;
    let r = insert_unique(s, x);
    if k < s.len() && s[k] == x {
        assert forall|y: Seq<char>| r.contains(y) <==> (s.contains(y) || y == x) by {}
    } else {
        let t = s.insert(k, x);
        assert forall|i: int, j: int| 0 <= i < j < t.len() implies lex_lt(
            #[trigger] t[i],
            #[trigger] t[j],
        ) by {
            if j == k {
                assert(t[i] == s[i]);
            } else if i == k {
                assert(t[j] == s[j - 1]);
                lemma_lex_connected(s[k], x);
                if j - 1 > k {
                    lemma_lex_transitive(x, s[k], s[j - 1]);
                }
            } else {
                let i0 = if i < k {
                    i
                } else {
                    i - 1
                };
                let j0 = if j < k {
                    j
                } else {
                    j - 1
                };
                assert(t[i] == s[i0] && t[j] == s[j0]);
            }
        }
        assert forall|y: Seq<char>| t.contains(y) <==> (s.contains(y) || y == x) by {
            if t.contains(y) {
                let i = choose|i: int| 0 <= i < t.len() && t[i] == y;
                if i < k {
                    assert(s[i] == y);
                } else if i > k {
                    assert(s[i - 1] == y);
                }
            }
            if s.contains(y) {
                let i = choose|i: int| 0 <= i < s.len() && s[i] == y;
                if i < k {
                    assert(t[i] == y);
                } else {
                    assert(t[i + 1] == y);
                }
            }
            if y == x {
                assert(t[k] == y);
            }
        }
    }
}

/// The texts in the order of a dictionary are in order, and are the same
/// texts, each as often as before.
pub proof fn lemma_sorted(s: Seq<Seq<char>>)
    ensures
        is_ascending(sorted(s)),
        sorted(s).to_multiset() == s.to_multiset(),
        sorted(s).len() == s.len(),
    decreases s.len(),
{
    if s.len() == 0 {
        assert(sorted(s) =~= s);
    } else {
        let init = s.drop_last();
        lemma_sorted(init);
        lemma_insert_sorted_ascending(sorted(init), s.last());
        lemma_insert_place(sorted(init), s.last());
        to_multiset_insert(sorted(init), insert_place(sorted(init), s.last()) as int, s.last());
        to_multiset_build(init, s.last());
        assert(init.push(s.last()) =~= s);
    }
}

/// The texts in the order of a dictionary, each once, are in order, none of
/// them is there twice, and they are the texts that were given.
pub proof fn lemma_sorted_unique(s: Seq<Seq<char>>)
    ensures
        is_strictly_ascending(sorted_unique(s)),
        forall|y: Seq<char>| sorted_unique(s).contains(y) <==> s.contains(y),
    decreases s.len(),
{
    if s.len() == 0 {
        assert(sorted_unique(s) =~= s);
    } else {
        let init = s.drop_last();
        lemma_sorted_unique(init);
        lemma_insert_unique_ascending(sorted_unique(init), s.last());
        assert forall|y: Seq<char>| sorted_unique(s).contains(y) <==> s.contains(y) by {
            if s.contains(y) {
                let i = choose|i: int| 0 <= i < s.len() && s[i] == y;
                if i < s.len() - 1 {
                    assert(init[i] == y);
                }
            }
            if init.contains(y) {
                let i = choose|i: int| 0 <= i < init.len() && init[i] == y;
                assert(s[i] == y);
            }
            if y == s.last() {
                assert(s[s.len() - 1] == y);
            }
        }
    }
}

} // verus!
