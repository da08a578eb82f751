//! An ordered list of tags, written as words with single spaces between them.

use crate::error::FormatError;
use crate::tags::{format_tag, is_plain_tag, lemma_tag_round_trip, parse_tag, Tag, TagView};
use crate::text::{chars_of, join, join_words, split_words, string_of, strings, texts, words};
use vstd::prelude::*;

verus! {

/// Tags in the order in which they were read or given.
#[derive(Debug, PartialEq, Eq, Clone)]
pub struct TagCollection(Vec<Tag>);

/// The kinds of tag that are offered as suggestions.
#[derive(Debug, PartialEq, Eq, Clone, Copy, Structural)]
pub enum TagKind {
    Context,
    Project,
    Person,
    Custom,
    OneOff,
}

/// The tags of a vector as views.
pub open spec fn tag_views(ts: Seq<Tag>) -> Seq<TagView> {
    ts.map_values(|t: Tag| t@)
}

impl View for TagCollection {
    type V = Seq<TagView>;

    closed spec fn view(&self) -> Seq<TagView> {
        tag_views(self.0@)
    }
}

/// The tags that the words denote, or the error of the first word that
/// denotes none.
pub open spec fn parse_all(ws: Seq<Seq<char>>) -> Result<Seq<TagView>, FormatError>
    decreases ws.len(),
{
    if ws.len() == 0 {
        Ok(Seq::empty())
    } else {
        match parse_all(ws.drop_last()) {
            Err(e) => Err(e),
            Ok(ts) => match parse_tag(ws.last()) {
                Err(e) => Err(e),
                Ok(t) => Ok(ts.push(t)),
            },
        }
    }
}

/// The tags that `s` denotes: one for each of its words. A text without
/// words denotes no list of tags.
pub open spec fn parse_tags(s: Seq<char>) -> Result<Seq<TagView>, FormatError> {
    if words(s).len() == 0 {
        Err(FormatError::EmptyInput)
    } else {
        parse_all(words(s))
    }
}

/// The texts of the tags, in order.
pub open spec fn tag_texts(ts: Seq<TagView>) -> Seq<Seq<char>> {
    ts.map_values(|t: TagView| format_tag(t))
}

/// The text of a list of tags: the texts of the tags with single spaces
/// between them.
pub open spec fn format_tags(ts: Seq<TagView>) -> Seq<char> {
    join(tag_texts(ts))
}

/// The kind of a tag, where it is of a kind that is suggested.
pub open spec fn kind_of(t: TagView) -> Option<TagKind> {
    match t {
        TagView::Context(_) => Some(TagKind::Context),
        TagView::Project(_) => Some(TagKind::Project),
        TagView::Person(_) => Some(TagKind::Person),
        TagView::Custom(_, _) => Some(TagKind::Custom),
        TagView::OneOff(_) => Some(TagKind::OneOff),
        _ => None,
    }
}

/// The texts of the tags of one kind, in order.
pub open spec fn texts_of_kind(ts: Seq<TagView>, kind: TagKind) -> Seq<Seq<char>> {
    tag_texts(ts.filter(|t: TagView| kind_of(t) == Some(kind)))
}

/// Every word is a tag text in the form that is written.
pub open spec fn all_plain_tags(ws: Seq<Seq<char>>) -> bool {
    forall|i: int| 0 <= i < ws.len() ==> is_plain_tag(#[trigger] ws[i])
}

/// A text of tags in the form that is written: words in the written form,
/// single spaces between them and nothing around them.
pub open spec fn is_plain_tags(s: Seq<char>) -> bool {
    join(words(s)) == s && all_plain_tags(words(s))
}

/// The texts of tags that were read from plain tag texts are those texts.
pub proof fn lemma_parse_all_round_trip(ws: Seq<Seq<char>>)
    requires
        all_plain_tags(ws),
        parse_all(ws) is Ok,
    ensures
        tag_texts(parse_all(ws).unwrap()) == ws,
        parse_all(ws).unwrap().len() == ws.len(),
    decreases ws.len(),
{
    if ws.len() > 0 {
        let init = ws.drop_last();
        assert forall|i: int| 0 <= i < init.len() implies is_plain_tag(#[trigger] init[i]) by {
            assert(init[i] == ws[i]);
        }
        lemma_parse_all_round_trip(init);
        assert(is_plain_tag(ws[ws.len() - 1]));
        lemma_tag_round_trip(ws.last());
        let ts = parse_all(init).unwrap();
        let t = parse_tag(ws.last()).unwrap();
        assert(tag_texts(ts.push(t)) =~= tag_texts(ts).push(format_tag(t)));
        assert(init.push(ws.last()) =~= ws);
    } else {
        assert(tag_texts(Seq::<TagView>::empty()) =~= ws);
    }
}

/// Writing a list of tags that was read from a plain text gives that text.
pub proof fn lemma_tags_round_trip(s: Seq<char>)
    requires
        is_plain_tags(s),
        parse_tags(s) is Ok,
    ensures
        format_tags(parse_tags(s).unwrap()) == s,
{
    lemma_parse_all_round_trip(words(s));
}

/// Reads the words from place `from` on as tags.
pub fn parse_words(ws: &Vec<Vec<char>>, from: usize) -> (r: Result<TagCollection, FormatError>)
    requires
        from <= ws.len(),
    ensures
        match r {
            Ok(c) => parse_all(texts(ws@).skip(from as int)) == Ok::<Seq<TagView>, FormatError>(c@),
            Err(e) => parse_all(texts(ws@).skip(from as int)) == Err::<Seq<TagView>, FormatError>(e),
        },
{
    let mut tags: Vec<Tag> = Vec::new();
    let mut i: usize = from;
    let ghost all = texts(ws@);
    assert(tag_views(tags@) =~= Seq::<TagView>::empty());
    while i < ws.len()
        invariant
            from <= i <= ws.len(),
            all == texts(ws@),
            parse_all(all.subrange(from as int, i as int)) == Ok::<Seq<TagView>, FormatError>(
                tag_views(tags@),
            ),
        decreases ws.len() - i,
    {
        let ghost next = all.subrange(from as int, i + 1);
        assert(next.drop_last() =~= all.subrange(from as int, i as int));
        assert(next.last() == ws@[i as int]@);
        match Tag::from_chars(&ws[i]) {
            Ok(t) => {
                let ghost before = tag_views(tags@);
                tags.push(t);
                assert(tag_views(tags@) =~= before.push(t@));
            },
            Err(e) => {
                proof {
                    lemma_parse_all_fails(all.skip(from as int), i - from + 1);
                    assert(all.skip(from as int).take(i - from + 1) =~= next);
                }
                return Err(e);
            },
        }
        i += 1;
    }
    assert(all.subrange(from as int, i as int) =~= all.skip(from as int));
    Ok(TagCollection(tags))
}

/// Where the first words denote no list of tags, all the words denote none,
/// and for the same reason.
pub proof fn lemma_parse_all_fails(ws: Seq<Seq<char>>, n: int)
    requires
        0 <= n <= ws.len(),
        parse_all(ws.take(n)) is Err,
    ensures
        parse_all(ws) == parse_all(ws.take(n)),
    decreases ws.len(),
{
    if n == ws.len() {
        assert(ws.take(n) =~= ws);
    } else {
        assert(ws.drop_last().take(n) =~= ws.take(n));
        lemma_parse_all_fails(ws.drop_last(), n);
    }
}

impl TagCollection {
    /// No tags.
    pub fn new() -> (r: TagCollection)
        ensures
            r@ == Seq::<TagView>::empty(),
    {
        let r = TagCollection(Vec::new());
        assert(r@ =~= Seq::<TagView>::empty());
        r
    }

    /// The tags of `tags`, in their order.
    pub fn from_tags(tags: Vec<Tag>) -> (r: TagCollection)
        ensures
            r@ == tag_views(tags@),
    {
        TagCollection(tags)
    }

    /// The tags, in their order.
    pub fn tags(&self) -> (r: &Vec<Tag>)
        ensures
            tag_views(r@) == self@,
    {
        &self.0
    }

    /// The number of tags.
    pub fn len(&self) -> (n: usize)
        ensures
            n == self@.len(),
    {
        self.0.len()
    }

    /// Whether there is no tag.
    pub fn is_empty(&self) -> (b: bool)
        ensures
            b == (self@.len() == 0),
    {
        self.0.len() == 0
    }

    /// Reads a list of tags from its characters.
    pub fn from_chars(s: &Vec<char>) -> (r: Result<TagCollection, FormatError>)
        ensures
            match r {
                Ok(c) => parse_tags(s@) == Ok::<Seq<TagView>, FormatError>(c@),
                Err(e) => parse_tags(s@) == Err::<Seq<TagView>, FormatError>(e),
            },
    {
        let ws = split_words(s);
        if ws.len() == 0 {
            return Err(FormatError::EmptyInput);
        }
        assert(texts(ws@).skip(0) =~= texts(ws@));
        parse_words(&ws, 0)
    }

    /// Reads tags separated by white space. Every word must be a tag, and
    /// there must be one at least.
    pub fn from_str(s: &str) -> (r: Result<TagCollection, FormatError>)
        ensures
            match r {
                Ok(c) => parse_tags(s@) == Ok::<Seq<TagView>, FormatError>(c@),
                Err(e) => parse_tags(s@) == Err::<Seq<TagView>, FormatError>(e),
            },
    {
        TagCollection::from_chars(&chars_of(s))
    }

    /// The characters of the list.
    pub fn to_chars(&self) -> (r: Vec<char>)
        ensures
            r@ == format_tags(self@),
    {
        let mut parts: Vec<Vec<char>> = Vec::new();
        let mut i: usize = 0;
        while i < self.0.len()
            invariant
                i <= self.0.len(),
                texts(parts@) == tag_texts(self@.take(i as int)),
            decreases self.0.len() - i,
        {
            let w = self.0[i].to_chars();
            let ghost before = texts(parts@);
            parts.push(w);
            assert(texts(parts@) =~= before.push(w@));
            assert(tag_texts(self@.take(i + 1)) =~= tag_texts(self@.take(i as int)).push(
                format_tag(self@[i as int]),
            ));
            i += 1;
        }
        assert(self@.take(i as int) =~= self@);
        join_words(&parts)
    }

    /// The text of the list: the tags with single spaces between them.
    pub fn to_string(&self) -> (r: String)
        ensures
            r@ == format_tags(self@),
    {
        string_of(&self.to_chars())
    }

    /// The texts of the tags of one kind, in order.
    pub fn tags_of_kind(&self, kind: TagKind) -> (r: Vec<String>)
        ensures
            strings(r@) == texts_of_kind(self@, kind),
    {
        let mut r: Vec<String> = Vec::new();
        let mut i: usize = 0;
        let ghost pred = |t: TagView| kind_of(t) == Some(kind);
        assert(self@.take(0).filter(pred) =~= Seq::<TagView>::empty()) by {
            self@.take(0).lemma_filter_len(pred);
        }
        while i < self.0.len()
            invariant
                i <= self.0.len(),
                pred == |t: TagView| kind_of(t) == Some(kind),
                strings(r@) == tag_texts(self@.take(i as int).filter(pred)),
            decreases self.0.len() - i,
        {
            let t = &self.0[i];
            let hit = match t {
                Tag::Context(_) => kind == TagKind::Context,
                Tag::Project(_) => kind == TagKind::Project,
                Tag::Person(_) => kind == TagKind::Person,
                Tag::Custom(_, _) => kind == TagKind::Custom,
                Tag::OneOff(_) => kind == TagKind::OneOff,
                _ => false,
            };
            proof {
                let done = self@.take(i as int);
                assert(self@.take(i + 1) =~= done.push(t@));
                done.lemma_filter_push(t@, pred);
                assert(hit == pred(t@));
            }
            if hit {
                let w = t.to_string();
                let ghost before = strings(r@);
                r.push(w);
                assert(strings(r@) =~= before.push(w@));
                assert(tag_texts(self@.take(i as int).filter(pred).push(t@)) =~= tag_texts(
                    self@.take(i as int).filter(pred),
                ).push(format_tag(t@)));
            }
            i += 1;
        }
        assert(self@.take(i as int) =~= self@);
        r
    }

    /// The texts of the `@` tags.
    pub fn context_tags(&self) -> (r: Vec<String>)
        ensures
            strings(r@) == texts_of_kind(self@, TagKind::Context),
    {
        self.tags_of_kind(TagKind::Context)
    }

    /// The texts of the `+` tags.
    pub fn project_tags(&self) -> (r: Vec<String>)
        ensures
            strings(r@) == texts_of_kind(self@, TagKind::Project),
    {
        self.tags_of_kind(TagKind::Project)
    }

    /// The texts of the `p:` tags.
    pub fn person_tags(&self) -> (r: Vec<String>)
        ensures
            strings(r@) == texts_of_kind(self@, TagKind::Person),
    {
        self.tags_of_kind(TagKind::Person)
    }

    /// The texts of the tags that are a key and a value.
    pub fn custom_tags(&self) -> (r: Vec<String>)
        ensures
            strings(r@) == texts_of_kind(self@, TagKind::Custom),
    {
        self.tags_of_kind(TagKind::Custom)
    }

    /// The texts of the `!` tags.
    pub fn oneoff_tags(&self) -> (r: Vec<String>)
        ensures
            strings(r@) == texts_of_kind(self@, TagKind::OneOff),
    {
        self.tags_of_kind(TagKind::OneOff)
    }
}

impl Default for TagCollection {
    fn default() -> (r: TagCollection)
        ensures
            r@ == Seq::<TagView>::empty(),
    {
        TagCollection::new()
    }
}

} // verus!
