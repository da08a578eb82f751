//! What a key does: from what is on the screen and the key to the action
//! that follows.

use crate::session::{AppTab, NoteFocus};
use vstd::prelude::*;

verus! {

/// A key of the keyboard.
#[derive(Debug, PartialEq, Eq, Clone, Copy)]
pub enum Key {
    Char(char),
    Left,
    Right,
    Up,
    Down,
    Esc,
    Enter,
    Tab,
    BackTab,
    /// Any other key.
    Other,
}

/// What happened on the keyboard.
#[derive(Debug, PartialEq, Eq, Clone, Copy)]
pub struct KeyInput {
    /// The key went down; otherwise it was released or repeats.
    pub pressed: bool,
    pub key: Key,
    /// The control key was held.
    pub control: bool,
}

/// What of the screen decides what a key does.
#[derive(Debug, PartialEq, Eq, Clone)]
pub struct Screen {
    pub tab: AppTab,
    pub focus: NoteFocus,
    /// The pad on which a task is typed is shown.
    pub scratchpad_visible: bool,
    /// Suggestions for the pad are shown.
    pub suggestions_visible: bool,
    /// Suggestions for the title are shown.
    pub title_suggestions_visible: bool,
    pub note_index: usize,
    pub task_index: usize,
    pub note_count: usize,
    pub task_count: usize,
}

/// What is to be done after a key.
#[derive(Debug, PartialEq, Eq, Clone)]
pub enum Action {
    /// Show another view, with these places among the notes and the tasks.
    SwitchTab { tab: AppTab, note_index: usize, task_index: usize },
    /// Show the note at this place.
    SelectNote(usize),
    /// Show the task at this place.
    SelectTask(usize),
    /// Show the pad, or stop showing it.
    ToggleScratchpad,
    /// Keep the note that was typed.
    SaveNote,
    /// Stop showing the suggestions for the pad.
    DismissSuggestions,
    /// Stop showing the suggestions for the title.
    DismissTitleSuggestions,
    /// Stop showing the pad.
    CloseScratchpad,
    /// Leave.
    Exit,
    /// Keep the task that was typed on the pad.
    SubmitTask,
    PreviousSuggestion,
    NextSuggestion,
    ApplySuggestion,
    /// Hand the key to the pad.
    ScratchpadInput,
    /// Let this part of the note take what is typed.
    Focus(NoteFocus),
    PreviousTitleSuggestion,
    NextTitleSuggestion,
    ApplyTitleSuggestion,
    /// Hand the key to the content of the note.
    NoteInput,
    /// Hand the key to the title of the note.
    TitleInput,
    Nothing,
}

/// The place among `count` items that a place of an earlier sitting stands
/// for: the place itself where there is such an item, the first otherwise.
pub open spec fn place_within(saved: usize, count: usize) -> usize {
    if saved < count {
        saved
    } else {
        0
    }
}

/// The view that follows a view, with the places that are shown in it.
pub open spec fn next_tab(s: Screen) -> Action {
    match s.tab {
        AppTab::Editor => Action::SwitchTab {
            tab: AppTab::Viewer,
            note_index: place_within(s.note_index, s.note_count),
            task_index: s.task_index,
        },
        AppTab::Viewer => Action::SwitchTab {
            tab: AppTab::Tasks,
            note_index: s.note_index,
            task_index: place_within(s.task_index, s.task_count),
        },
        AppTab::Tasks => Action::SwitchTab {
            tab: AppTab::Editor,
            note_index: s.note_index,
            task_index: s.task_index,
        },
    }
}

/// A step back from a place, where there is one.
pub open spec fn step_back(at: usize) -> Option<usize> {
    if at > 0 {
        Some((at - 1) as usize)
    } else {
        None
    }
}

/// A step on from a place among `count` items, where there is one.
pub open spec fn step_on(at: usize, count: usize) -> Option<usize> {
    if at + 1 < count {
        Some((at + 1) as usize)
    } else {
        None
    }
}

/// What a key does while the pad is shown, but for the keys that act in
/// every state.
pub open spec fn on_scratchpad(s: Screen, k: KeyInput) -> Action {
    if k.pressed && k.key == Key::Enter {
        Action::SubmitTask
    } else if k.pressed && s.suggestions_visible && k.key == Key::Up {
        Action::PreviousSuggestion
    } else if k.pressed && s.suggestions_visible && k.key == Key::Down {
        Action::NextSuggestion
    } else if k.pressed && s.suggestions_visible && k.key == Key::Tab {
        Action::ApplySuggestion
    } else {
        Action::ScratchpadInput
    }
}

/// What a key does in the view in which a note is typed.
pub open spec fn on_editor(s: Screen, k: KeyInput) -> Action {
    match s.focus {
        NoteFocus::Content => if k.pressed && k.key == Key::BackTab {
            Action::Focus(NoteFocus::Title)
        } else {
            Action::NoteInput
        },
        NoteFocus::Title => if k.pressed && (k.key == Key::BackTab || k.key == Key::Enter) {
            Action::Focus(NoteFocus::Content)
        } else if k.pressed && s.title_suggestions_visible && k.key == Key::Up {
            Action::PreviousTitleSuggestion
        } else if k.pressed && s.title_suggestions_visible && k.key == Key::Down {
            Action::NextTitleSuggestion
        } else if k.pressed && k.key == Key::Tab {
            if s.title_suggestions_visible {
                Action::ApplyTitleSuggestion
            } else {
                Action::Focus(NoteFocus::Content)
            }
        } else {
            Action::TitleInput
        },
    }
}

/// What a key does. The keys are looked at in this order: control with `r`
/// shows the next view, unless the pad is shown; the arrows move among the
/// notes in their view and among the tasks in theirs; control with `t` shows
/// or closes the pad; control with `s` keeps the note, unless the pad is
/// shown; escape dismisses suggestions that are shown, else closes the pad,
/// else leaves; then the pad takes the key if it is shown, and the editor
/// otherwise.
pub open spec fn decide(s: Screen, k: KeyInput) -> Action {
    if k.pressed && k.key == Key::Char('r') && k.control && !s.scratchpad_visible {
        next_tab(s)
    } else if k.pressed && k.key == Key::Left && s.tab == AppTab::Viewer {
        match step_back(s.note_index) {
            Some(i) => Action::SelectNote(i),
            None => Action::Nothing,
        }
    } else if k.pressed && k.key == Key::Right && s.tab == AppTab::Viewer {
        match step_on(s.note_index, s.note_count) {
            Some(i) => Action::SelectNote(i),
            None => Action::Nothing,
        }
    } else if k.pressed && k.key == Key::Up && s.tab == AppTab::Tasks {
        match step_back(s.task_index) {
            Some(i) => Action::SelectTask(i),
            None => Action::Nothing,
        }
    } else if k.pressed && k.key == Key::Down && s.tab == AppTab::Tasks {
        match step_on(s.task_index, s.task_count) {
            Some(i) => Action::SelectTask(i),
            None => Action::Nothing,
        }
    } else if k.pressed && k.key == Key::Char('t') && k.control {
        Action::ToggleScratchpad
    } else if k.pressed && k.key == Key::Char('s') && k.control && !s.scratchpad_visible {
        Action::SaveNote
    } else if k.pressed && k.key == Key::Esc {
        if s.scratchpad_visible && s.suggestions_visible {
            Action::DismissSuggestions
        } else if s.tab == AppTab::Editor && s.focus == NoteFocus::Title
            && s.title_suggestions_visible {
            Action::DismissTitleSuggestions
        } else if s.scratchpad_visible {
            Action::CloseScratchpad
        } else {
            Action::Exit
        }
    } else if s.scratchpad_visible {
        on_scratchpad(s, k)
    } else if s.tab == AppTab::Editor {
        on_editor(s, k)
    } else {
        Action::Nothing
    }
}

/// The place among `count` items that a place of an earlier sitting stands
/// for.
pub fn restored_index(saved: usize, count: usize) -> (r: usize)
    ensures
        r == place_within(saved, count),
{
    if saved < count {
        saved
    } else {
        0
    }
}

/// Whether `key` is the character `c`.
fn is_char(key: &Key, c: char) -> (b: bool)
    ensures
        b == (*key == Key::Char(c)),
{
    match key {
        Key::Char(k) => *k == c,
        _ => false,
    }
}

/// What a key does while the pad is shown.
fn scratchpad_action(s: &Screen, k: &KeyInput) -> (a: Action)
    ensures
        a == on_scratchpad(*s, *k),
{
    if !k.pressed {
        return Action::ScratchpadInput;
    }
    match k.key {
        Key::Enter => Action::SubmitTask,
        Key::Up => if s.suggestions_visible {
            Action::PreviousSuggestion
        } else {
            Action::ScratchpadInput
        },
        Key::Down => if s.suggestions_visible {
            Action::NextSuggestion
        } else {
            Action::ScratchpadInput
        },
        Key::Tab => if s.suggestions_visible {
            Action::ApplySuggestion
        } else {
            Action::ScratchpadInput
        },
        _ => Action::ScratchpadInput,
    }
}

/// What a key does in the view in which a note is typed.
fn editor_action(s: &Screen, k: &KeyInput) -> (a: Action)
    ensures
        a == on_editor(*s, *k),
{
    match s.focus {
        NoteFocus::Content => match k.key {
            Key::BackTab => if k.pressed {
                Action::Focus(NoteFocus::Title)
            } else {
                Action::NoteInput
            },
            _ => Action::NoteInput,
        },
        NoteFocus::Title => {
            if !k.pressed {
                return Action::TitleInput;
            }
            match k.key {
                Key::BackTab => Action::Focus(NoteFocus::Content),
                Key::Enter => Action::Focus(NoteFocus::Content),
                Key::Up => if s.title_suggestions_visible {
                    Action::PreviousTitleSuggestion
                } else {
                    Action::TitleInput
                },
                Key::Down => if s.title_suggestions_visible {
                    Action::NextTitleSuggestion
                } else {
                    Action::TitleInput
                },
                Key::Tab => if s.title_suggestions_visible {
                    Action::ApplyTitleSuggestion
                } else {
                    Action::Focus(NoteFocus::Content)
                },
                _ => Action::TitleInput,
            }
        },
    }
}

/// Whether the view is the one in which notes are read.
fn in_viewer(s: &Screen) -> (b: bool)
    ensures
        b == (s.tab == AppTab::Viewer),
{
    match s.tab {
        AppTab::Viewer => true,
        _ => false,
    }
}

/// Whether the view is the one in which tasks are read.
fn in_tasks(s: &Screen) -> (b: bool)
    ensures
        b == (s.tab == AppTab::Tasks),
{
    match s.tab {
        AppTab::Tasks => true,
        _ => false,
    }
}

/// Whether the view is the one in which a note is typed.
fn in_editor(s: &Screen) -> (b: bool)
    ensures
        b == (s.tab == AppTab::Editor),
{
    match s.tab {
        AppTab::Editor => true,
        _ => false,
    }
}

/// Whether the title takes what is typed.
fn on_title(s: &Screen) -> (b: bool)
    ensures
        b == (s.focus == NoteFocus::Title),
{
    match s.focus {
        NoteFocus::Title => true,
        _ => false,
    }
}

/// The action after a key, from what is on the screen.
pub fn handle_key_event(s: &Screen, k: &KeyInput) -> (a: Action)
    ensures
        a == decide(*s, *k),
{
    if k.pressed {
        if is_char(&k.key, 'r') && k.control && !s.scratchpad_visible {
            return match s.tab {
                AppTab::Editor => Action::SwitchTab {
                    tab: AppTab::Viewer,
                    note_index: restored_index(s.note_index, s.note_count),
                    task_index: s.task_index,
                },
                AppTab::Viewer => Action::SwitchTab {
                    tab: AppTab::Tasks,
                    note_index: s.note_index,
                    task_index: restored_index(s.task_index, s.task_count),
                },
                AppTab::Tasks => Action::SwitchTab {
                    tab: AppTab::Editor,
                    note_index: s.note_index,
                    task_index: s.task_index,
                },
            };
        }
        match k.key {
            Key::Left => if in_viewer(s) {
                return if s.note_index > 0 {
                    Action::SelectNote(s.note_index - 1)
                } else {
                    Action::Nothing
                };
            },
            Key::Right => if in_viewer(s) {
                return if s.note_count > 0 && s.note_index < s.note_count - 1 {
                    Action::SelectNote(s.note_index + 1)
                } else {
                    Action::Nothing
                };
            },
            Key::Up => if in_tasks(s) {
                return if s.task_index > 0 {
                    Action::SelectTask(s.task_index - 1)
                } else {
                    Action::Nothing
                };
            },
            Key::Down => if in_tasks(s) {
                return if s.task_count > 0 && s.task_index < s.task_count - 1 {
                    Action::SelectTask(s.task_index + 1)
                } else {
                    Action::Nothing
                };
            },
            _ => {},
        }
        if is_char(&k.key, 't') && k.control {
            return Action::ToggleScratchpad;
        }
        if is_char(&k.key, 's') && k.control && !s.scratchpad_visible {
            return Action::SaveNote;
        }
        match k.key {
            Key::Esc => {
                return if s.scratchpad_visible && s.suggestions_visible {
                    Action::DismissSuggestions
                } else if in_editor(s) && on_title(s) && s.title_suggestions_visible {
                    Action::DismissTitleSuggestions
                } else if s.scratchpad_visible {
                    Action::CloseScratchpad
                } else {
                    Action::Exit
                };
            },
            _ => {},
        }
    }
    if s.scratchpad_visible {
        scratchpad_action(s, k)
    } else if in_editor(s) {
        editor_action(s, k)
    } else {
        Action::Nothing
    }
}

} // verus!
