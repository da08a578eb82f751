//! What is kept of a sitting between two runs, and when it is due to be
//! written.

use std::time::{Duration, Instant};
use vstd::prelude::*;

verus! {

/// `std::time::Instant`: a moment of a clock that does not run backwards.
#[verifier::external_type_specification]
#[verifier::external_body]
pub struct ExInstant(Instant);

/// `Instant::now` gives the present moment.
pub assume_specification[ Instant::now ]() -> Instant;

/// `Instant::elapsed` gives the time that has passed since the moment.
pub assume_specification[ Instant::elapsed ](t: &Instant) -> Duration;

/// `Duration::as_millis` gives a span of time in whole milliseconds.
pub assume_specification[ Duration::as_millis ](d: &Duration) -> u128;

/// The view that is shown.
#[derive(Debug, PartialEq, Eq, Clone)]
pub enum AppTab {
    Editor,
    Viewer,
    Tasks,
}

/// The part of a note that takes what is typed.
#[derive(Debug, PartialEq, Eq, Clone)]
pub enum NoteFocus {
    Title,
    Content,
}

/// The panel of commands.
#[derive(Debug, PartialEq, Eq, Clone)]
pub enum CommandPanel {
    Hidden,
    FilterByProject,
}

/// Which tasks are shown.
#[derive(Debug, PartialEq, Eq, Clone)]
pub enum TaskFilter {
    Unfiltered,
    Project(String),
    NoProject,
}

/// In which order tasks are shown.
#[derive(Debug, PartialEq, Eq, Clone)]
pub enum TaskSort {
    Unsorted,
    Status,
}

/// The state of a sitting.
#[derive(Debug, PartialEq, Eq)]
pub struct SessionState {
    pub current_tab: AppTab,
    pub current_note_index: usize,
    pub current_task_index: usize,
    pub note_focus: NoteFocus,
    pub scratchpad_visible: bool,
    /// The drafts: what was typed and not yet kept.
    pub title_content: Vec<String>,
    pub note_content: Vec<String>,
    pub scratchpad_content: Vec<String>,
    /// Row and column of the cursor in each draft.
    pub title_cursor_pos: (usize, usize),
    pub note_cursor_pos: (usize, usize),
    pub scratchpad_cursor_pos: (usize, usize),
    pub document_path: String,
    /// When the state was last written, in seconds since 1970.
    pub last_save_timestamp: u64,
    pub has_unsaved_changes: bool,
    pub command_panel: CommandPanel,
    pub command_panel_selection: usize,
    pub task_filter: TaskFilter,
    pub task_sort: TaskSort,
}

impl SessionState {
    /// The state holds a draft, or changes that were not kept.
    pub open spec fn has_drafts(&self) -> bool {
        self.title_content@.len() > 0 || self.note_content@.len() > 0
            || self.scratchpad_content@.len() > 0 || self.has_unsaved_changes
    }

    /// The state in which a first sitting begins.
    pub open spec fn is_initial(&self) -> bool {
        &&& self.current_tab == AppTab::Editor
        &&& self.current_note_index == 0
        &&& self.current_task_index == 0
        &&& self.note_focus == NoteFocus::Title
        &&& !self.scratchpad_visible
        &&& self.title_content@.len() == 0
        &&& self.note_content@.len() == 0
        &&& self.scratchpad_content@.len() == 0
        &&& self.title_cursor_pos == (0usize, 0usize)
        &&& self.note_cursor_pos == (0usize, 0usize)
        &&& self.scratchpad_cursor_pos == (0usize, 0usize)
        &&& self.document_path@.len() == 0
        &&& self.last_save_timestamp == 0
        &&& !self.has_unsaved_changes
        &&& self.command_panel == CommandPanel::Hidden
        &&& self.command_panel_selection == 0
        &&& self.task_filter == TaskFilter::Unfiltered
        &&& self.task_sort == TaskSort::Unsorted
    }
}

impl Clone for SessionState {
    fn clone(&self) -> (r: SessionState)
        ensures
            r.current_note_index == self.current_note_index,
            r.current_task_index == self.current_task_index,
            r.scratchpad_visible == self.scratchpad_visible,
            r.title_cursor_pos == self.title_cursor_pos,
            r.note_cursor_pos == self.note_cursor_pos,
            r.scratchpad_cursor_pos == self.scratchpad_cursor_pos,
            r.document_path == self.document_path,
            r.last_save_timestamp == self.last_save_timestamp,
            r.has_unsaved_changes == self.has_unsaved_changes,
            r.command_panel_selection == self.command_panel_selection,
    {
        SessionState {
            current_tab: self.current_tab.clone(),
            current_note_index: self.current_note_index,
            current_task_index: self.current_task_index,
            note_focus: self.note_focus.clone(),
            scratchpad_visible: self.scratchpad_visible,
            title_content: self.title_content.clone(),
            note_content: self.note_content.clone(),
            scratchpad_content: self.scratchpad_content.clone(),
            title_cursor_pos: self.title_cursor_pos,
            note_cursor_pos: self.note_cursor_pos,
            scratchpad_cursor_pos: self.scratchpad_cursor_pos,
            document_path: self.document_path.clone(),
            last_save_timestamp: self.last_save_timestamp,
            has_unsaved_changes: self.has_unsaved_changes,
            command_panel: self.command_panel.clone(),
            command_panel_selection: self.command_panel_selection,
            task_filter: self.task_filter.clone(),
            task_sort: self.task_sort.clone(),
        }
    }
}

impl Default for SessionState {
    fn default() -> (r: SessionState)
        ensures
            r.is_initial(),
    {
        SessionState {
            current_tab: AppTab::Editor,
            current_note_index: 0,
            current_task_index: 0,
            note_focus: NoteFocus::Title,
            scratchpad_visible: false,
            title_content: Vec::new(),
            note_content: Vec::new(),
            scratchpad_content: Vec::new(),
            title_cursor_pos: (0, 0),
            note_cursor_pos: (0, 0),
            scratchpad_cursor_pos: (0, 0),
            document_path: String::new(),
            last_save_timestamp: 0,
            has_unsaved_changes: false,
            command_panel: CommandPanel::Hidden,
            command_panel_selection: 0,
            task_filter: TaskFilter::Unfiltered,
            task_sort: TaskSort::Unsorted,
        }
    }
}

/// The time without a change after which the state is due.
pub const DEBOUNCE_MILLIS: u128 = 500;

/// The number of changes after which the state is due at once.
pub const SAVE_THRESHOLD: u32 = 50;

/// Keeps the state of a sitting and says when it is due to be written.
#[derive(Debug)]
pub struct SessionManager {
    state: SessionState,
    last_change_time: Instant,
    debounce_millis: u128,
    keystroke_counter: u32,
    save_threshold: u32,
    session_file_path: String,
    needs_save: bool,
}

/// What a manager holds, but for the moment of the last change.
pub struct ManagerView {
    pub state: SessionState,
    pub debounce_millis: nat,
    pub keystrokes: nat,
    pub threshold: nat,
    pub path: Seq<char>,
    pub needs_save: bool,
}

impl View for SessionManager {
    type V = ManagerView;

    closed spec fn view(&self) -> ManagerView {
        ManagerView {
            state: self.state,
            debounce_millis: self.debounce_millis as nat,
            keystrokes: self.keystroke_counter as nat,
            threshold: self.save_threshold as nat,
            path: self.session_file_path@,
            needs_save: self.needs_save,
        }
    }
}

/// Whether the state is due when `elapsed` milliseconds have passed since
/// the last change: there must be something to write, and either the time
/// without a change or the number of changes has reached its bound.
pub open spec fn is_due(v: ManagerView, elapsed: nat) -> bool {
    v.needs_save && (elapsed >= v.debounce_millis || v.keystrokes >= v.threshold)
}

impl SessionManager {
    /// A manager for the file at `session_file_path`, with the initial
    /// state and nothing to write.
    pub fn new(session_file_path: String) -> (r: SessionManager)
        ensures
            r@.state.is_initial(),
            r@.debounce_millis == DEBOUNCE_MILLIS,
            r@.keystrokes == 0,
            r@.threshold == SAVE_THRESHOLD,
            r@.path == session_file_path@,
            !r@.needs_save,
    {
        SessionManager {
            state: SessionState::default(),
            last_change_time: Instant::now(),
            debounce_millis: DEBOUNCE_MILLIS,
            keystroke_counter: 0,
            save_threshold: SAVE_THRESHOLD,
            session_file_path,
            needs_save: false,
        }
    }

    /// The path of the file that the state is written to.
    pub fn session_file_path(&self) -> (r: &str)
        ensures
            r@ == self@.path,
    {
        self.session_file_path.as_str()
    }

    /// Takes the state that was read from the file, or the initial state
    /// where none could be read.
    pub fn load_session(&mut self, loaded: Option<SessionState>) -> (r: &SessionState)
        ensures
            match loaded {
                Some(s) => final(self)@.state == s,
                None => final(self)@.state.is_initial(),
            },
            *r == final(self)@.state,
            final(self)@ == (ManagerView { state: final(self)@.state, ..old(self)@ }),
    {
        self.state = match loaded {
            Some(s) => s,
            None => SessionState::default(),
        };
        &self.state
    }

    /// Takes the present state of the sitting. The time of the last writing
    /// stays; there is one change more, and something to write.
    pub fn update_state(&mut self, state: SessionState)
        ensures
            final(self)@ == (ManagerView {
                state: SessionState {
                    last_save_timestamp: old(self)@.state.last_save_timestamp,
                    ..state
                },
                keystrokes: if old(self)@.keystrokes < u32::MAX {
                    old(self)@.keystrokes + 1
                } else {
                    old(self)@.keystrokes
                },
                needs_save: true,
                ..old(self)@
            }),
    {
        let stamp = self.state.last_save_timestamp;
        self.state = state;
        self.state.last_save_timestamp = stamp;
        self.last_change_time = Instant::now();
        if self.keystroke_counter < u32::MAX {
            self.keystroke_counter += 1;
        }
        self.needs_save = true;
    }

    /// Whether the state is due when `elapsed_millis` have passed since the
    /// last change.
    pub fn should_save_after(&self, elapsed_millis: u128) -> (r: bool)
        ensures
            r == is_due(self@, elapsed_millis as nat),
    {
        if !self.needs_save {
            return false;
        }
        if elapsed_millis >= self.debounce_millis {
            return true;
        }
        self.keystroke_counter >= self.save_threshold
    }

    /// Whether the state is due now. This depends on the clock: it is due
    /// for some time that has passed since the last change.
    pub fn should_save(&self) -> (r: bool)
        ensures
            exists|elapsed: nat| r == is_due(self@, elapsed),
            r ==> self@.needs_save,
            self@.needs_save && self@.keystrokes >= self@.threshold ==> r,
    {
        let elapsed = self.last_change_time.elapsed().as_millis();
        let r = self.should_save_after(elapsed);
        assert(r == is_due(self@, elapsed as nat));
        r
    }

    /// Begins a writing at `now_secs` seconds since 1970. Where there is
    /// something to write, the time is noted in the state, which is then to
    /// be written.
    pub fn save_session(&mut self, now_secs: u64) -> (r: Option<&SessionState>)
        ensures
            match r {
                Some(s) => old(self)@.needs_save && *s == final(self)@.state && final(self)@ == (
                ManagerView {
                    state: SessionState { last_save_timestamp: now_secs, ..old(self)@.state },
                    ..old(self)@
                }),
                None => !old(self)@.needs_save && final(self)@ == old(self)@,
            },
    {
        if !self.needs_save {
            return None;
        }
        self.state.last_save_timestamp = now_secs;
        Some(&self.state)
    }

    /// Ends a writing that went well: nothing is left to write, and the
    /// changes are counted anew.
    pub fn mark_saved(&mut self)
        ensures
            final(self)@ == (ManagerView { needs_save: false, keystrokes: 0, ..old(self)@ }),
    {
        self.needs_save = false;
        self.keystroke_counter = 0;
    }

    /// Asks for a writing whatever has changed.
    pub fn force_save(&mut self)
        ensures
            final(self)@ == (ManagerView { needs_save: true, ..old(self)@ }),
    {
        self.needs_save = true;
    }

    /// The state.
    pub fn get_state(&self) -> (r: &SessionState)
        ensures
            *r == self@.state,
    {
        &self.state
    }

    /// Whether a draft or a change would be lost.
    pub fn has_unsaved_drafts(&self) -> (r: bool)
        ensures
            r == self@.state.has_drafts(),
    {
        self.state.title_content.len() > 0 || self.state.note_content.len() > 0
            || self.state.scratchpad_content.len() > 0 || self.state.has_unsaved_changes
    }
}

} // verus!
