//! The state of a list of suggestions that follows what is typed.

use crate::suggestions::{begins_with, has_colon, suggestions, SuggestionsView, TagSuggestions};
use crate::tags::find_colon;
use crate::text::{
    chars_of, join, join_words, slice_of, split_words, string_of, strings, texts, words,
};
use vstd::arithmetic::div_mod::{lemma_add_mod_noop, lemma_small_mod};
use vstd::prelude::*;
use vstd::utf8::encode_utf8;

verus! {

/// The kind of tag that is being typed.
#[derive(Debug, PartialEq, Eq, Clone, Copy, Structural)]
pub enum TagType {
    Context,
    Project,
    Person,
    Custom,
    OneOff,
    /// Several kinds, or none that is known.
    Mixed,
}

/// A list of suggestions with one of them chosen.
#[derive(Debug, Clone)]
pub struct AutocompletionWidget {
    suggestions: Vec<String>,
    selected_index: usize,
    visible: bool,
    current_input: String,
    current_tag_type: TagType,
}

/// What the list holds.
#[verifier::ext_equal]
pub struct WidgetView {
    pub suggestions: Seq<Seq<char>>,
    pub selected: nat,
    pub visible: bool,
    pub input: Seq<char>,
    pub kind: TagType,
}

impl View for AutocompletionWidget {
    type V = WidgetView;

    closed spec fn view(&self) -> WidgetView {
        WidgetView {
            suggestions: strings(self.suggestions@),
            selected: self.selected_index as nat,
            visible: self.visible,
            input: self.current_input@,
            kind: self.current_tag_type,
        }
    }
}

/// The last word of a text, or the empty text where it has no word.
pub open spec fn last_word(s: Seq<char>) -> Seq<char> {
    if words(s).len() > 0 {
        words(s).last()
    } else {
        Seq::empty()
    }
}

/// A word that may be the beginning of a tag: one that begins with `@`, `+`
/// or `!`, one of two or more characters that begins with `p`, or one of two
/// or more characters that holds a colon.
pub open spec fn is_tag_beginning(w: Seq<char>) -> bool {
    begins_with(w, '@') || begins_with(w, '+') || begins_with(w, '!') || (begins_with(w, 'p') && (
    has_colon(w) || w.len() >= 2)) || (has_colon(w) && w.len() > 1)
}

/// `p:` stands at the beginning of `w`.
pub open spec fn begins_with_person(w: Seq<char>) -> bool {
    w.len() >= 2 && w[0] == 'p' && w[1] == ':'
}

/// The kind of tag that a word begins.
pub open spec fn tag_type_of(w: Seq<char>) -> TagType {
    if begins_with(w, '@') {
        TagType::Context
    } else if begins_with(w, '+') {
        TagType::Project
    } else if begins_with(w, '!') {
        TagType::OneOff
    } else if begins_with_person(w) {
        TagType::Person
    } else if has_colon(w) && w.len() > 1 {
        TagType::Custom
    } else {
        TagType::Mixed
    }
}

/// The list after `input` was typed: where the last word may begin a tag,
/// the suggestions for it with the first of them chosen, shown if there are
/// any; otherwise nothing, not shown.
pub open spec fn updated(old: WidgetView, input: Seq<char>, tags: SuggestionsView) -> WidgetView {
    let w = last_word(input);
    if is_tag_beginning(w) {
        WidgetView {
            suggestions: suggestions(tags, w),
            selected: 0,
            visible: suggestions(tags, w).len() > 0,
            input,
            kind: tag_type_of(w),
        }
    } else {
        WidgetView {
            suggestions: Seq::empty(),
            selected: old.selected,
            visible: false,
            input,
            kind: TagType::Mixed,
        }
    }
}

/// The text in which the chosen suggestion stands for the last word of
/// `input`, with a space after it.
pub open spec fn applied(v: WidgetView, input: Seq<char>) -> Option<Seq<char>> {
    if v.selected < v.suggestions.len() && is_tag_beginning(last_word(input)) {
        Some(join(words(input).drop_last().push(v.suggestions[v.selected as int])) + seq![' '])
    } else {
        None
    }
}

/// The name of a kind as it is shown.
pub open spec fn kind_name(k: TagType) -> Seq<char> {
    match k {
        TagType::Context => "Context"@,
        TagType::Project => "Project"@,
        TagType::Person => "Person"@,
        TagType::Custom => "Custom"@,
        TagType::OneOff => "OneOff"@,
        TagType::Mixed => "Tags"@,
    }
}

/// Whether `w` may be the beginning of a tag.
fn tag_beginning(w: &Vec<char>) -> (b: bool)
    ensures
        b == is_tag_beginning(w@),
{
    if w.len() == 0 {
        return false;
    }
    let colon = find_colon(w) < w.len();
    let c = w[0];
    c == '@' || c == '+' || c == '!' || (c == 'p' && (colon || w.len() >= 2)) || (colon && w.len()
        > 1)
}

/// The kind of tag that `w` begins.
fn tag_type(w: &Vec<char>) -> (k: TagType)
    ensures
        k == tag_type_of(w@),
{
    let colon = find_colon(w) < w.len();
    if w.len() > 0 && w[0] == '@' {
        TagType::Context
    } else if w.len() > 0 && w[0] == '+' {
        TagType::Project
    } else if w.len() > 0 && w[0] == '!' {
        TagType::OneOff
    } else if w.len() >= 2 && w[0] == 'p' && w[1] == ':' {
        TagType::Person
    } else if colon && w.len() > 1 {
        TagType::Custom
    } else {
        TagType::Mixed
    }
}

impl AutocompletionWidget {
    /// An empty list, not shown.
    pub fn new() -> (r: AutocompletionWidget)
        ensures
            r@ == (WidgetView {
                suggestions: Seq::empty(),
                selected: 0,
                visible: false,
                input: Seq::empty(),
                kind: TagType::Mixed,
            }),
    {
        let r = AutocompletionWidget {
            suggestions: Vec::new(),
            selected_index: 0,
            visible: false,
            current_input: String::new(),
            current_tag_type: TagType::Mixed,
        };
        assert(r@.suggestions =~= Seq::<Seq<char>>::empty());
        r
    }

    /// Brings the list up to date with what was typed.
    pub fn update_suggestions(&mut self, input: &str, tag_suggestions: &TagSuggestions)
        ensures
            final(self)@ == updated(old(self)@, input@, tag_suggestions@),
    {
        let ws = split_words(&chars_of(input));
        let last: Vec<char> = if ws.len() > 0 {
            let w = &ws[ws.len() - 1];
            let copy = slice_of(w, 0, w.len());
            assert(copy@ =~= w@);
            copy
        } else {
            Vec::new()
        };
        assert(last@ =~= last_word(input@));
        let current_input = string_of(&chars_of(input));
        if tag_beginning(&last) {
            let found = tag_suggestions.suggestions_for_prefix(string_of(&last).as_str());
            let visible = found.len() > 0;
            let kind = tag_type(&last);
            *self = AutocompletionWidget {
                suggestions: found,
                selected_index: 0,
                visible,
                current_input,
                current_tag_type: kind,
            };
        } else {
            let selected_index = self.selected_index;
            let fresh = AutocompletionWidget {
                suggestions: Vec::new(),
                selected_index,
                visible: false,
                current_input,
                current_tag_type: TagType::Mixed,
            };
            assert(fresh@.suggestions =~= Seq::<Seq<char>>::empty());
            *self = fresh;
        }
    }

    /// Whether `word` may be the beginning of a tag.
    pub fn is_tag_prefix(&self, word: &str) -> (b: bool)
        ensures
            b == is_tag_beginning(word@),
    {
        tag_beginning(&chars_of(word))
    }

    /// The kind of tag that `word` begins.
    pub fn determine_tag_type(&self, word: &str) -> (k: TagType)
        ensures
            k == tag_type_of(word@),
    {
        tag_type(&chars_of(word))
    }

    /// The name of the kind of tag that is being typed.
    pub fn get_tag_type_display(&self) -> (r: &'static str)
        ensures
            r@ == kind_name(self@.kind),
    {
        match self.current_tag_type {
            TagType::Context => "Context",
            TagType::Project => "Project",
            TagType::Person => "Person",
            TagType::Custom => "Custom",
            TagType::OneOff => "OneOff",
            TagType::Mixed => "Tags",
        }
    }

    /// The suggestions.
    pub fn suggestions(&self) -> (r: &Vec<String>)
        ensures
            strings(r@) == self@.suggestions,
    {
        &self.suggestions
    }

    /// The place of the chosen suggestion.
    pub fn selected_index(&self) -> (r: usize)
        ensures
            r == self@.selected,
    {
        self.selected_index
    }

    /// Chooses the suggestion before the chosen one, or the last one where
    /// the first was chosen.
    pub fn select_previous(&mut self)
        ensures
            final(self)@ == (WidgetView {
                selected: if old(self)@.suggestions.len() == 0 {
                    old(self)@.selected
                } else if old(self)@.selected == 0 {
                    (old(self)@.suggestions.len() - 1) as nat
                } else {
                    (old(self)@.selected - 1) as nat
                },
                ..old(self)@
            }),
    {
        if self.suggestions.len() > 0 {
            self.selected_index = if self.selected_index == 0 {
                self.suggestions.len() - 1
            } else {
                self.selected_index - 1
            };
        }
    }

    /// Chooses the suggestion after the chosen one, or the first one where
    /// the last was chosen.
    pub fn select_next(&mut self)
        ensures
            final(self)@ == (WidgetView {
                selected: if old(self)@.suggestions.len() == 0 {
                    old(self)@.selected
                } else {
                    ((old(self)@.selected + 1) % old(self)@.suggestions.len()) as nat
                },
                ..old(self)@
            }),
    {
        let n = self.suggestions.len();
        if n > 0 {
            let step: usize = if n == 1 {
                0
            } else {
                1
            };
            proof {
                lemma_add_mod_noop(self.selected_index as int, 1, n as int);
                if n > 1 {
                    lemma_small_mod(1, n as nat);
                }
                assert(1int % (n as int) == step);
            }
            self.selected_index = (self.selected_index % n + step) % n;
        }
    }

    /// The chosen suggestion, if there is one.
    pub fn get_selected(&self) -> (r: Option<&String>)
        ensures
            match r {
                Some(s) => self@.selected < self@.suggestions.len() && s@
                    == self@.suggestions[self@.selected as int],
                None => self@.selected >= self@.suggestions.len(),
            },
    {
        if self.selected_index < self.suggestions.len() {
            Some(&self.suggestions[self.selected_index])
        } else {
            None
        }
    }

    /// Puts the chosen suggestion in the place of the last word of `input`.
    /// Gives the new text and the place after its end, counted in bytes.
    pub fn apply_selected(&self, input: &str) -> (r: Option<(String, usize)>)
        ensures
            match r {
                Some((text, cursor)) => applied(self@, input@) == Some(text@) && cursor
                    == encode_utf8(text@).len() as usize,
                None => applied(self@, input@) is None,
            },
    {
        let selected = match self.get_selected() {
            Some(s) => s,
            None => {
                return None;
            },
        };
        let mut ws = split_words(&chars_of(input));
        if ws.len() == 0 {
            assert(!is_tag_beginning(last_word(input@)));
            return None;
        }
        if !tag_beginning(&ws[ws.len() - 1]) {
            return None;
        }
        let ghost before = texts(ws@);
        assert(before.last() == ws@[ws.len() - 1]@);
        ws.pop();
        ws.push(chars_of(selected.as_str()));
        assert(texts(ws@) =~= before.drop_last().push(selected@));
        let mut out = join_words(&ws);
        out.push(' ');
        let text = string_of(&out);
        let cursor = text.as_str().len();
        Some((text, cursor))
    }

    /// Whether the list is shown.
    pub fn is_visible(&self) -> (b: bool)
        ensures
            b == (self@.visible && self@.suggestions.len() > 0),
    {
        self.visible && self.suggestions.len() > 0
    }

    /// Empties the list and stops showing it.
    pub fn dismiss(&mut self)
        ensures
            final(self)@ == (WidgetView {
                suggestions: Seq::empty(),
                selected: 0,
                visible: false,
                kind: TagType::Mixed,
                ..old(self)@
            }),
    {
        self.visible = false;
        self.suggestions = Vec::new();
        self.selected_index = 0;
        self.current_tag_type = TagType::Mixed;
        assert(self@.suggestions =~= Seq::<Seq<char>>::empty());
    }
}

impl Default for AutocompletionWidget {
    fn default() -> (r: AutocompletionWidget)
        ensures
            r@.suggestions.len() == 0,
            !r@.visible,
    {
        AutocompletionWidget::new()
    }
}

/// A rectangle of the screen, in cells.
#[derive(Debug, PartialEq, Eq, Clone, Copy)]
pub struct Area {
    pub x: u16,
    pub y: u16,
    pub width: u16,
    pub height: u16,
}

/// The length of a text in bytes.
pub open spec fn byte_len(s: Seq<char>) -> usize {
    encode_utf8(s).len() as usize
}

/// The length in bytes of the longest of the texts.
pub open spec fn longest(s: Seq<Seq<char>>) -> nat
    decreases s.len(),
{
    if s.len() == 0 {
        0
    } else if byte_len(s.last()) > longest(s.drop_last()) {
        byte_len(s.last()) as nat
    } else {
        longest(s.drop_last())
    }
}

/// `n`, but no less than `low` and no more than `high`.
pub open spec fn clamped(n: nat, low: nat, high: nat) -> nat {
    if n < low {
        low
    } else if n > high {
        high
    } else {
        n
    }
}

/// The lesser of two numbers.
pub open spec fn lesser(a: int, b: int) -> int {
    if a < b {
        a
    } else {
        b
    }
}

/// Where the list is drawn in `area` when the cursor stands at `cursor`, a
/// column and a row within the area: a frame around up to six suggestions,
/// 20 to 40 cells wide, below the cursor, moved left and up as far as is
/// needed to fit. It is not drawn where it is not shown or does not fit.
pub open spec fn popup(v: WidgetView, area: Area, cursor: (u16, u16)) -> Option<Area> {
    let height = clamped(v.suggestions.len() + 2, 2, 8) as int;
    let width = clamped(longest(v.suggestions), 20, 40) as int;
    let left = area.x + lesser(cursor.0 as int, if area.width > width {
        area.width - width
    } else {
        0
    });
    let top = area.y + lesser(cursor.1 + 1, if area.height > height {
        area.height - height
    } else {
        0
    });
    if v.visible && v.suggestions.len() > 0 && left + width <= area.x + area.width && top + height
        <= area.y + area.height && left <= u16::MAX && top <= u16::MAX {
        Some(Area { x: left as u16, y: top as u16, width: width as u16, height: height as u16 })
    } else {
        None
    }
}

impl AutocompletionWidget {
    /// The length in bytes of the longest suggestion, counted up to 40.
    fn longest_capped(&self) -> (r: u32)
        ensures
            r == lesser(longest(self@.suggestions) as int, 40),
    {
        let mut r: u32 = 0;
        let mut i: usize = 0;
        let ghost all = strings(self.suggestions@);
        while i < self.suggestions.len()
            invariant
                i <= self.suggestions.len(),
                all == strings(self.suggestions@),
                r == lesser(longest(all.take(i as int)) as int, 40),
            decreases self.suggestions.len() - i,
        {
            assert(all.take(i + 1).drop_last() =~= all.take(i as int));
            assert(all.take(i + 1).last() == self.suggestions@[i as int]@);
            let n = self.suggestions[i].as_str().len();
            let capped: u32 = if n > 40 {
                40
            } else {
                n as u32
            };
            if capped > r {
                r = capped;
            }
            i += 1;
        }
        assert(all.take(i as int) =~= all);
        r
    }

    /// Where the list is to be drawn in `area` when the cursor stands at
    /// `cursor_pos`, if it is to be drawn.
    pub fn popup_area(&self, area: Area, cursor_pos: (u16, u16)) -> (r: Option<Area>)
        ensures
            r == popup(self@, area, cursor_pos),
    {
        if !self.is_visible() {
            return None;
        }
        let count = self.suggestions.len();
        let height: u32 = if count >= 6 {
            8
        } else {
            count as u32 + 2
        };
        let longest = self.longest_capped();
        let width: u32 = if longest < 20 {
            20
        } else {
            longest
        };
        let room_x: u32 = if area.width as u32 > width {
            area.width as u32 - width
        } else {
            0
        };
        let room_y: u32 = if area.height as u32 > height {
            area.height as u32 - height
        } else {
            0
        };
        let dx: u32 = if (cursor_pos.0 as u32) < room_x {
            cursor_pos.0 as u32
        } else {
            room_x
        };
        let dy: u32 = if cursor_pos.1 as u32 + 1 < room_y {
            cursor_pos.1 as u32 + 1
        } else {
            room_y
        };
        let left: u32 = area.x as u32 + dx;
        let top: u32 = area.y as u32 + dy;
        if left + width <= area.x as u32 + area.width as u32 && top + height <= area.y as u32
            + area.height as u32 && left <= 0xffff && top <= 0xffff {
            Some(Area { x: left as u16, y: top as u16, width: width as u16, height: height as u16 })
        } else {
            None
        }
    }
}

} // verus!
