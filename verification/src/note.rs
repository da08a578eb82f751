//! A note: a heading, a line of metadata and lines of content.

use crate::dates::{format_date, is_plain_date, lemma_date_round_trip, parse_date, Date, DateView};
use crate::error::FormatError;
use crate::tags::collection::{
    all_plain_tags, format_tags, lemma_parse_all_round_trip, parse_all, parse_words, TagCollection,
};
use crate::tags::guid::{format_guid, is_plain_hyphenated, lemma_guid_round_trip, parse_guid, Guid};
use crate::tags::{after, lemma_prefix_parts, strip_prefix, TagView};
use crate::text::{
    append_chars, chars_of, join, join_words, lemma_join_flatten, slice_of, split_words, string_of,
    strings, texts, trim, trim_chars, words,
};
use vstd::prelude::*;

verus! {

/// A piece of writing with a title.
#[derive(Debug, PartialEq, Eq, Clone)]
pub struct Note {
    lvl: usize,
    title: String,
    creation_date: Date,
    modification_date: Date,
    guid: Guid,
    tags: TagCollection,
    content: Vec<String>,
}

/// What a note holds.
#[verifier::ext_equal]
pub struct NoteView {
    pub level: nat,
    pub title: Seq<char>,
    pub creation_date: DateView,
    pub modification_date: DateView,
    pub guid: Seq<u8>,
    pub tags: Seq<TagView>,
    pub content: Seq<Seq<char>>,
}

impl View for Note {
    type V = NoteView;

    closed spec fn view(&self) -> NoteView {
        NoteView {
            level: self.lvl as nat,
            title: self.title@,
            creation_date: self.creation_date@,
            modification_date: self.modification_date@,
            guid: self.guid@,
            tags: self.tags@,
            content: strings(self.content@),
        }
    }
}

/// The number of `#` that `s` begins with.
pub open spec fn hash_run(s: Seq<char>) -> nat
    decreases s.len(),
{
    if s.len() > 0 && s[0] == '#' {
        1 + hash_run(s.drop_first())
    } else {
        0
    }
}

/// A run of `n` times `#`.
pub open spec fn hashes(n: nat) -> Seq<char> {
    Seq::new(n, |i: int| '#')
}

/// The level and the title that a heading denotes: a run of one or more
/// `#`, whose length is the level, then a space, then the title, which is
/// taken without the white space around it.
pub open spec fn parse_heading(s: Seq<char>) -> Option<(nat, Seq<char>)> {
    let n = hash_run(s);
    if n >= 1 && n < s.len() && s[n as int] == ' ' {
        Some((n, trim(s.skip(n as int + 1))))
    } else {
        None
    }
}

/// What a line of metadata holds.
#[verifier::ext_equal]
pub struct MetadataView {
    pub creation_date: DateView,
    pub modification_date: DateView,
    pub guid: Seq<u8>,
    pub tags: Seq<TagView>,
}

/// The word number `i` begins with `name`.
pub open spec fn has_field(ws: Seq<Seq<char>>, i: int, name: Seq<char>) -> bool {
    i < ws.len() && name.is_prefix_of(ws[i])
}

/// What a line of metadata denotes: after the mark `> `, the words `cre:`
/// with a day, `mod:` with a day and `guid:` with an identifier, in this
/// order, and then tags, if any.
pub open spec fn parse_metadata(s: Seq<char>) -> Result<MetadataView, FormatError> {
    let ws = words(after(s, "> "@));
    if !"> "@.is_prefix_of(s) || !has_field(ws, 0, "cre:"@) {
        Err(FormatError::BadMetadata)
    } else {
        match parse_date(after(ws[0], "cre:"@)) {
            None => Err(FormatError::BadDate),
            Some(created) => if !has_field(ws, 1, "mod:"@) {
                Err(FormatError::BadMetadata)
            } else {
                match parse_date(after(ws[1], "mod:"@)) {
                    None => Err(FormatError::BadDate),
                    Some(modified) => if !has_field(ws, 2, "guid:"@) {
                        Err(FormatError::BadMetadata)
                    } else {
                        match parse_guid(after(ws[2], "guid:"@)) {
                            None => Err(FormatError::BadGuid),
                            Some(guid) => match parse_all(ws.skip(3)) {
                                Err(e) => Err(e),
                                Ok(tags) => Ok(
                                    MetadataView {
                                        creation_date: created,
                                        modification_date: modified,
                                        guid,
                                        tags,
                                    },
                                ),
                            },
                        }
                    },
                }
            },
        }
    }
}

/// The note that the lines denote: a heading, a line of metadata and one or
/// more lines of content, which are kept as they are.
pub open spec fn parse_note(lines: Seq<Seq<char>>) -> Result<NoteView, FormatError> {
    if lines.len() < 3 {
        Err(FormatError::NoteTooShort)
    } else {
        match parse_heading(lines[0]) {
            None => Err(FormatError::BadHeading),
            Some((level, title)) => match parse_metadata(lines[1]) {
                Err(e) => Err(e),
                Ok(m) => Ok(
                    NoteView {
                        level,
                        title,
                        creation_date: m.creation_date,
                        modification_date: m.modification_date,
                        guid: m.guid,
                        tags: m.tags,
                        content: lines.skip(2),
                    },
                ),
            },
        }
    }
}

/// The heading of a note: as many `#` as its level, a space, and the title
/// without the white space around it.
pub open spec fn format_heading(level: nat, title: Seq<char>) -> Seq<char> {
    hashes(level) + seq![' '] + trim(title)
}

/// The words of a line of metadata: the three fields, and the tags where
/// there are any.
pub open spec fn metadata_parts(v: NoteView) -> Seq<Seq<char>> {
    seq![
        "cre:"@ + format_date(v.creation_date),
        "mod:"@ + format_date(v.modification_date),
        "guid:"@ + format_guid(v.guid),
    ] + (if v.tags.len() > 0 {
        seq![format_tags(v.tags)]
    } else {
        Seq::empty()
    })
}

/// The line of metadata of a note: the mark `> `, then the fields and the
/// tags with single spaces between them.
pub open spec fn format_metadata(v: NoteView) -> Seq<char> {
    "> "@ + join(metadata_parts(v))
}

/// The lines of a note: heading, metadata, content.
pub open spec fn format_note(v: NoteView) -> Seq<Seq<char>> {
    seq![format_heading(v.level, v.title), format_metadata(v)] + v.content
}

/// The number of `#` that `s` begins with.
fn count_hashes(s: &Vec<char>) -> (n: usize)
    ensures
        n == hash_run(s@),
        n <= s.len(),
{
    let mut n: usize = 0;
    assert(s@.skip(0) =~= s@);
    while n < s.len() && s[n] == '#'
        invariant
            n <= s.len(),
            hash_run(s@) == n + hash_run(s@.skip(n as int)),
        decreases s.len() - n,
    {
        assert(s@.skip(n as int).drop_first() =~= s@.skip(n + 1));
        n += 1;
    }
    n
}

/// What follows `name` in the word number `i`, where that word begins with
/// `name`.
fn field_of(ws: &Vec<Vec<char>>, i: usize, name: &str) -> (r: Option<Vec<char>>)
    ensures
        r is Some == has_field(texts(ws@), i as int, name@),
        r matches Some(t) ==> t@ == after(texts(ws@)[i as int], name@),
{
    if i < ws.len() {
        strip_prefix(&ws[i], name)
    } else {
        None
    }
}

/// The strings from place `from` on.
fn strings_from(lines: &Vec<String>, from: usize) -> (r: Vec<String>)
    requires
        from <= lines.len(),
    ensures
        strings(r@) == strings(lines@).skip(from as int),
{
    let mut r: Vec<String> = Vec::new();
    let mut i: usize = from;
    while i < lines.len()
        invariant
            from <= i <= lines.len(),
            strings(r@) =~= strings(lines@).subrange(from as int, i as int),
        decreases lines.len() - i,
    {
        let ghost before = strings(r@);
        let w = lines[i].clone();
        r.push(w);
        assert(strings(r@) =~= before.push(w@));
        i += 1;
    }
    r
}

impl Note {
    /// An empty note of level 3, created today under a fresh identifier.
    pub fn new() -> (r: Note)
        ensures
            r@.level == 3,
            r@.title == Seq::<char>::empty(),
            r@.tags == Seq::<TagView>::empty(),
            r@.content == Seq::<Seq<char>>::empty(),
    {
        Note::with_tags(String::new(), Vec::new(), TagCollection::new())
    }

    /// A note of level 3 with the title and the content as given, created
    /// today under a fresh identifier, without tags.
    pub fn with(title: String, content: Vec<String>) -> (r: Note)
        ensures
            r@.level == 3,
            r@.title == title@,
            r@.tags == Seq::<TagView>::empty(),
            r@.content == strings(content@),
    {
        Note::with_tags(title, content, TagCollection::new())
    }

    /// A note of level 3 with the content as given and an empty title,
    /// created today under a fresh identifier, without tags.
    pub fn with_content(content: Vec<String>) -> (r: Note)
        ensures
            r@.level == 3,
            r@.title == Seq::<char>::empty(),
            r@.tags == Seq::<TagView>::empty(),
            r@.content == strings(content@),
    {
        Note::with_tags(String::new(), content, TagCollection::new())
    }

    /// A note of level 3 with the title, the content and the tags as given,
    /// created today under a fresh identifier.
    pub fn with_tags(title: String, content: Vec<String>, tags: TagCollection) -> (r: Note)
        ensures
            r@.level == 3,
            r@.title == title@,
            r@.tags == tags@,
            r@.content == strings(content@),
            r@.creation_date.is_valid(),
            r@.modification_date.is_valid(),
            r@.guid.len() == 16,
    {
        Note::from_parts(3, title, Date::now(), Date::now(), Guid::new(), tags, content)
    }

    /// The note that is made of the parts as given.
    pub fn from_parts(
        level: usize,
        title: String,
        creation_date: Date,
        modification_date: Date,
        guid: Guid,
        tags: TagCollection,
        content: Vec<String>,
    ) -> (r: Note)
        ensures
            r@ == (NoteView {
                level: level as nat,
                title: title@,
                creation_date: creation_date@,
                modification_date: modification_date@,
                guid: guid@,
                tags: tags@,
                content: strings(content@),
            }),
    {
        Note { lvl: level, title, creation_date, modification_date, guid, tags, content }
    }

    /// The level of the heading.
    pub fn level(&self) -> (r: usize)
        ensures
            r == self@.level,
    {
        self.lvl
    }

    /// The title.
    pub fn title(&self) -> (r: &str)
        ensures
            r@ == self@.title,
    {
        self.title.as_str()
    }

    /// The day of creation.
    pub fn creation_date(&self) -> (r: &Date)
        ensures
            r@ == self@.creation_date,
    {
        &self.creation_date
    }

    /// The day of the last change.
    pub fn modification_date(&self) -> (r: &Date)
        ensures
            r@ == self@.modification_date,
    {
        &self.modification_date
    }

    /// The identifier.
    pub fn guid(&self) -> (r: &Guid)
        ensures
            r@ == self@.guid,
    {
        &self.guid
    }

    /// The tags.
    pub fn tags(&self) -> (r: &TagCollection)
        ensures
            r@ == self@.tags,
    {
        &self.tags
    }

    /// The lines of content.
    pub fn content(&self) -> (r: &Vec<String>)
        ensures
            strings(r@) == self@.content,
    {
        &self.content
    }

    /// Reads a note from its lines: heading, metadata and at least one line
    /// of content.
    pub fn from_vec(value: Vec<String>) -> (r: Result<Note, FormatError>)
        ensures
            match r {
                Ok(n) => parse_note(strings(value@)) == Ok::<NoteView, FormatError>(n@) && n@.level
                    >= 1 && n@.content.len() >= 1,
                Err(e) => parse_note(strings(value@)) == Err::<NoteView, FormatError>(e),
            },
    {
        if value.len() < 3 {
            return Err(FormatError::NoteTooShort);
        }
        let heading = chars_of(value[0].as_str());
        let n = count_hashes(&heading);
        if !(n >= 1 && n < heading.len() && heading[n] == ' ') {
            return Err(FormatError::BadHeading);
        }
        let title = string_of(&trim_chars(&slice_of(&heading, n + 1, heading.len())));
        let body = match strip_prefix(&chars_of(value[1].as_str()), "> ") {
            Some(b) => b,
            None => {
                return Err(FormatError::BadMetadata);
            },
        };
        let ws = split_words(&body);
        let creation_date = match field_of(&ws, 0, "cre:") {
            None => {
                return Err(FormatError::BadMetadata);
            },
            Some(t) => match Date::from_chars(&t) {
                None => {
                    return Err(FormatError::BadDate);
                },
                Some(d) => d,
            },
        };
        let modification_date = match field_of(&ws, 1, "mod:") {
            None => {
                return Err(FormatError::BadMetadata);
            },
            Some(t) => match Date::from_chars(&t) {
                None => {
                    return Err(FormatError::BadDate);
                },
                Some(d) => d,
            },
        };
        let guid = match field_of(&ws, 2, "guid:") {
            None => {
                return Err(FormatError::BadMetadata);
            },
            Some(t) => match Guid::from_chars(&t) {
                None => {
                    return Err(FormatError::BadGuid);
                },
                Some(g) => g,
            },
        };
        let tags = match parse_words(&ws, 3) {
            Err(e) => {
                return Err(e);
            },
            Ok(t) => t,
        };
        let content = strings_from(&value, 2);
        Ok(Note { lvl: n, title, creation_date, modification_date, guid, tags, content })
    }

    /// The characters of the heading.
    fn heading_chars(&self) -> (r: Vec<char>)
        ensures
            r@ == format_heading(self@.level, self@.title),
    {
        let mut r: Vec<char> = Vec::new();
        let mut i: usize = 0;
        while i < self.lvl
            invariant
                i <= self.lvl,
                r@ =~= hashes(i as nat),
            decreases self.lvl - i,
        {
            r.push('#');
            i += 1;
        }
        r.push(' ');
        append_chars(&mut r, &trim_chars(&chars_of(self.title.as_str())));
        r
    }

    /// The characters of the line of metadata.
    fn metadata_chars(&self) -> (r: Vec<char>)
        ensures
            r@ == format_metadata(self@),
    {
        let mut parts: Vec<Vec<char>> = Vec::new();
        let mut w = chars_of("cre:");
        append_chars(&mut w, &self.creation_date.to_chars());
        parts.push(w);
        let mut w = chars_of("mod:");
        append_chars(&mut w, &self.modification_date.to_chars());
        parts.push(w);
        let mut w = chars_of("guid:");
        append_chars(&mut w, &self.guid.to_chars());
        parts.push(w);
        if !self.tags.is_empty() {
            parts.push(self.tags.to_chars());
        }
        assert(texts(parts@) =~= metadata_parts(self@));
        let mut r = chars_of("> ");
        append_chars(&mut r, &join_words(&parts));
        r
    }

    /// The lines of the note: heading, metadata, content.
    pub fn to_lines(&self) -> (r: Vec<String>)
        ensures
            strings(r@) == format_note(self@),
    {
        let mut r: Vec<String> = Vec::new();
        r.push(string_of(&self.heading_chars()));
        r.push(string_of(&self.metadata_chars()));
        let mut i: usize = 0;
        let ghost head = strings(r@);
        assert(head =~= seq![format_heading(self@.level, self@.title), format_metadata(self@)]);
        while i < self.content.len()
            invariant
                i <= self.content.len(),
                strings(r@) =~= head + strings(self.content@).take(i as int),
            decreases self.content.len() - i,
        {
            let ghost before = strings(r@);
            let w = self.content[i].clone();
            r.push(w);
            assert(strings(r@) =~= before.push(w@));
            i += 1;
        }
        assert(strings(self.content@).take(i as int) =~= strings(self.content@));
        r
    }
}

impl Default for Note {
    fn default() -> (r: Note)
        ensures
            r@.level == 3,
            r@.content == Seq::<Seq<char>>::empty(),
    {
        Note::new()
    }
}

/// A heading in the form that is written: no white space around the title
/// but the one space before it.
pub open spec fn is_plain_heading(s: Seq<char>) -> bool {
    trim(s.skip(hash_run(s) as int + 1)) == s.skip(hash_run(s) as int + 1)
}

/// A line of metadata in the form that is written: single spaces between
/// the words and nothing around them, the dates, the identifier and the tags
/// in their written form.
pub open spec fn is_plain_metadata(s: Seq<char>) -> bool {
    let body = after(s, "> "@);
    let ws = words(body);
    &&& join(ws) == body
    &&& is_plain_date(after(ws[0], "cre:"@))
    &&& is_plain_date(after(ws[1], "mod:"@))
    &&& is_plain_hyphenated(after(ws[2], "guid:"@))
    &&& all_plain_tags(ws.skip(3))
}

/// The lines of a note in the form that is written.
pub open spec fn is_plain_note(lines: Seq<Seq<char>>) -> bool {
    is_plain_heading(lines[0]) && is_plain_metadata(lines[1])
}

/// A text begins with as many `#` as its run counts.
pub proof fn lemma_hash_run(s: Seq<char>)
    ensures
        hash_run(s) <= s.len(),
        s.take(hash_run(s) as int) == hashes(hash_run(s)),
    decreases s.len(),
{
    if s.len() > 0 && s[0] == '#' {
        let t = s.drop_first();
        lemma_hash_run(t);
        let n = hash_run(s);
        assert forall|i: int| 0 <= i < n implies s.take(n as int)[i] == '#' by {
            if i > 0 {
                assert(s[i] == t.take(hash_run(t) as int)[i - 1]);
            }
        }
        assert(s.take(n as int) =~= hashes(n));
    } else {
        assert(s.take(0) =~= hashes(0));
    }
}

/// Writing the heading that was read from a plain heading gives that
/// heading.
pub proof fn lemma_heading_round_trip(s: Seq<char>)
    requires
        is_plain_heading(s),
        parse_heading(s) is Some,
    ensures
        format_heading(parse_heading(s).unwrap().0, parse_heading(s).unwrap().1) == s,
{
    lemma_hash_run(s);
    let n = hash_run(s) as int;
    assert(s.take(n) + seq![' '] + s.skip(n + 1) =~= s);
}

/// Writing the metadata that were read from a plain line gives that line.
pub proof fn lemma_metadata_round_trip(s: Seq<char>, v: NoteView)
    requires
        is_plain_metadata(s),
        parse_metadata(s) is Ok,
        ({
            let m = parse_metadata(s).unwrap();
            &&& v.creation_date == m.creation_date
            &&& v.modification_date == m.modification_date
            &&& v.guid == m.guid
            &&& v.tags == m.tags
        }),
    ensures
        format_metadata(v) == s,
{
    let body = after(s, "> "@);
    let ws = words(body);
    lemma_prefix_parts(s, "> "@);
    lemma_prefix_parts(ws[0], "cre:"@);
    lemma_prefix_parts(ws[1], "mod:"@);
    lemma_prefix_parts(ws[2], "guid:"@);
    lemma_date_round_trip(after(ws[0], "cre:"@));
    lemma_date_round_trip(after(ws[1], "mod:"@));
    lemma_guid_round_trip(after(ws[2], "guid:"@));
    let head = ws.take(3);
    let tail = ws.skip(3);
    lemma_parse_all_round_trip(tail);
    let none = Seq::<Seq<char>>::empty();
    assert(head =~= seq![ws[0], ws[1], ws[2]]);
    assert(head + tail =~= ws);
    if v.tags.len() > 0 {
        assert(metadata_parts(v) =~= head + seq![join(tail)] + none);
        lemma_join_flatten(head, tail, none);
        assert(head + tail + none =~= ws);
    } else {
        assert(tail =~= none);
        assert(metadata_parts(v) =~= ws);
    }
}

/// Writing a note that was read from plain lines gives those lines.
pub proof fn lemma_note_round_trip(lines: Seq<Seq<char>>)
    requires
        is_plain_note(lines),
        parse_note(lines) is Ok,
    ensures
        format_note(parse_note(lines).unwrap()) == lines,
{
    let v = parse_note(lines).unwrap();
    lemma_heading_round_trip(lines[0]);
    lemma_metadata_round_trip(lines[1], v);
    assert(seq![lines[0], lines[1]] + lines.skip(2) =~= lines);
}

} // verus!
