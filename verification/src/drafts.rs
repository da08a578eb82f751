//! From what was typed to a note: the tags are taken out of the text.

use crate::note::Note;
use crate::tags::collection::{tag_views, TagCollection};
use crate::tags::{parse_tag, Tag, TagView};
use crate::task::is_tag_word;
use crate::text::{
    chars_of, join, join_words, slice_of, split_words, string_of, strings, texts, words,
};
use vstd::prelude::*;

verus! {

/// The tags that the words denote, in order; words that denote none are
/// passed over.
pub open spec fn tags_among(ws: Seq<Seq<char>>) -> Seq<TagView>
    decreases ws.len(),
{
    if ws.len() == 0 {
        Seq::empty()
    } else {
        match parse_tag(ws.last()) {
            Ok(t) => tags_among(ws.drop_last()).push(t),
            Err(_) => tags_among(ws.drop_last()),
        }
    }
}

/// The words that denote no tag, in order.
pub open spec fn other_words(ws: Seq<Seq<char>>) -> Seq<Seq<char>> {
    ws.filter(|w: Seq<char>| !is_tag_word(w))
}

/// The tags in the lines, in order.
pub open spec fn tags_in_lines(lines: Seq<Seq<char>>) -> Seq<TagView>
    decreases lines.len(),
{
    if lines.len() == 0 {
        Seq::empty()
    } else {
        tags_in_lines(lines.drop_last()) + tags_among(words(lines.last()))
    }
}

/// The lines without their tags; a line of which nothing is left is left
/// out.
pub open spec fn lines_without_tags(lines: Seq<Seq<char>>) -> Seq<Seq<char>>
    decreases lines.len(),
{
    if lines.len() == 0 {
        Seq::empty()
    } else if other_words(words(lines.last())).len() == 0 {
        lines_without_tags(lines.drop_last())
    } else {
        lines_without_tags(lines.drop_last()).push(join(other_words(words(lines.last()))))
    }
}

/// There is a word in one of the lines.
pub open spec fn has_word(lines: Seq<Seq<char>>) -> bool {
    exists|i: int| 0 <= i < lines.len() && words(#[trigger] lines[i]).len() > 0
}

/// The title of a note that was typed with `title`: the words that denote
/// no tag, or `Untitled Note` where there is none.
pub open spec fn draft_title(title: Seq<char>) -> Seq<char> {
    if other_words(words(title)).len() == 0 {
        "Untitled Note"@
    } else {
        join(other_words(words(title)))
    }
}

/// The tags of a vector as texts that were read: those of the words that
/// denote tags.
fn split_tags(ws: &Vec<Vec<char>>) -> (r: (Vec<Tag>, Vec<Vec<char>>))
    ensures
        tag_views(r.0@) == tags_among(texts(ws@)),
        texts(r.1@) == other_words(texts(ws@)),
{
    let mut tags: Vec<Tag> = Vec::new();
    let mut rest: Vec<Vec<char>> = Vec::new();
    let mut i: usize = 0;
    let ghost all = texts(ws@);
    let ghost pred = |w: Seq<char>| !is_tag_word(w);
    assert(tag_views(tags@) =~= Seq::<TagView>::empty());
    assert(all.take(0).filter(pred) =~= Seq::<Seq<char>>::empty()) by {
        all.take(0).lemma_filter_len(pred);
    }
    while i < ws.len()
        invariant
            i <= ws.len(),
            all == texts(ws@),
            pred == |w: Seq<char>| !is_tag_word(w),
            tag_views(tags@) == tags_among(all.take(i as int)),
            texts(rest@) == all.take(i as int).filter(pred),
        decreases ws.len() - i,
    {
        proof {
            assert(all.take(i + 1).drop_last() =~= all.take(i as int));
            assert(all.take(i + 1).last() == ws@[i as int]@);
            assert(all.take(i + 1) =~= all.take(i as int).push(ws@[i as int]@));
            all.take(i as int).lemma_filter_push(ws@[i as int]@, pred);
        }
        match Tag::from_chars(&ws[i]) {
            Ok(t) => {
                let ghost before = tag_views(tags@);
                tags.push(t);
                assert(tag_views(tags@) =~= before.push(t@));
            },
            Err(_) => {
                let ghost before = texts(rest@);
                let w = slice_of(&ws[i], 0, ws[i].len());
                assert(w@ =~= ws@[i as int]@);
                rest.push(w);
                assert(texts(rest@) =~= before.push(w@));
            },
        }
        i += 1;
    }
    assert(all.take(i as int) =~= all);
    (tags, rest)
}

/// The tags among the words of `text`.
pub fn extract_tags_from_text(text: &str) -> (r: Vec<Tag>)
    ensures
        tag_views(r@) == tags_among(words(text@)),
{
    split_tags(&split_words(&chars_of(text))).0
}

/// The words of `text` that denote no tag, with single spaces between them.
pub fn remove_tags_from_text(text: &str) -> (r: String)
    ensures
        r@ == join(other_words(words(text@))),
{
    string_of(&join_words(&split_tags(&split_words(&chars_of(text))).1))
}

/// Adds the tags of `more` to `tags`.
fn add_tags(tags: &mut Vec<Tag>, more: Vec<Tag>)
    ensures
        tag_views(final(tags)@) == tag_views(old(tags)@) + tag_views(more@),
{
    let mut more = more;
    let ghost before = tag_views(tags@);
    let ghost added = tag_views(more@);
    tags.append(&mut more);
    assert(tag_views(tags@) =~= before + added);
}

/// The note that is made of what was typed as title and content. There is
/// none where neither holds a word. The tags among the words become the tags
/// of the note, those of the title first; title and content are kept
/// without them.
pub fn note_from_draft(title: &str, content: &Vec<String>) -> (r: Option<Note>)
    ensures
        match r {
            None => words(title@).len() == 0 && !has_word(strings(content@)),
            Some(n) => {
                &&& words(title@).len() > 0 || has_word(strings(content@))
                &&& n@.level == 3
                &&& n@.title == draft_title(title@)
                &&& n@.tags == tags_among(words(title@)) + tags_in_lines(strings(content@))
                &&& n@.content == lines_without_tags(strings(content@))
            },
        },
{
    let title_words = split_words(&chars_of(title));
    let (mut tags, kept) = split_tags(&title_words);
    let mut lines: Vec<String> = Vec::new();
    let mut found = title_words.len() > 0;
    let mut i: usize = 0;
    let ghost all = strings(content@);
    let ghost title_tags = tag_views(tags@);
    assert(strings(lines@) =~= Seq::<Seq<char>>::empty());
    assert(title_tags + tags_in_lines(all.take(0)) =~= title_tags);
    while i < content.len()
        invariant
            i <= content.len(),
            all == strings(content@),
            found == (words(title@).len() > 0 || has_word(all.take(i as int))),
            tag_views(tags@) == title_tags + tags_in_lines(all.take(i as int)),
            strings(lines@) == lines_without_tags(all.take(i as int)),
        decreases content.len() - i,
    {
        let ghost done = all.take(i as int);
        let ghost next = all.take(i + 1);
        assert(next.drop_last() =~= done);
        assert(next.last() == content@[i as int]@);
        let ws = split_words(&chars_of(content[i].as_str()));
        let (more, rest) = split_tags(&ws);
        proof {
            if ws.len() > 0 {
                assert(words(next[i as int]).len() > 0);
            } else if has_word(next) {
                let j = choose|j: int| 0 <= j < next.len() && words(#[trigger] next[j]).len() > 0;
                assert(done[j] == next[j]);
            }
            if has_word(done) {
                let j = choose|j: int| 0 <= j < done.len() && words(#[trigger] done[j]).len() > 0;
                assert(next[j] == done[j]);
            }
            assert(title_tags + tags_in_lines(done) + tag_views(more@) =~= title_tags + (
            tags_in_lines(done) + tag_views(more@)));
        }
        if ws.len() > 0 {
            found = true;
        }
        add_tags(&mut tags, more);
        if rest.len() > 0 {
            let ghost before = strings(lines@);
            let line = string_of(&join_words(&rest));
            lines.push(line);
            assert(strings(lines@) =~= before.push(line@));
        }
        i += 1;
    }
    assert(all.take(i as int) =~= all);
    if !found {
        return None;
    }
    let final_title = if kept.len() == 0 {
        string_of(&chars_of("Untitled Note"))
    } else {
        string_of(&join_words(&kept))
    };
    Some(Note::with_tags(final_title, lines, TagCollection::from_tags(tags)))
}

} // verus!
