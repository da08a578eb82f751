use orgflow::session::{AppTab, CommandPanel, NoteFocus, TaskFilter, TaskSort, DEBOUNCE_MILLIS, SAVE_THRESHOLD};
use orgflow::{Configuration, SessionManager, SessionState};

#[test]
fn test_session_persistence_with_command_panel_state() {
    let session_path = "session.json".to_string();

    // Create a session manager and set some state
    let mut session_manager = SessionManager::new(session_path.clone());

    let mut state = SessionState::default();
    state.command_panel = CommandPanel::FilterByProject;
    state.command_panel_selection = 2;
    state.task_filter = TaskFilter::Project("+webdev".to_string());
    state.task_sort = TaskSort::Status;

    session_manager.update_state(state);

    // Save the session
    session_manager.force_save();
    let written = session_manager.save_session(7).unwrap().clone();
    session_manager.mark_saved();

    // Create a new session manager and load the state
    let mut new_session_manager = SessionManager::new(session_path);
    let loaded_state = new_session_manager.load_session(Some(written)).clone();

    // Verify the command panel state was persisted
    assert_eq!(loaded_state.command_panel, CommandPanel::FilterByProject);
    assert_eq!(loaded_state.command_panel_selection, 2);
    assert_eq!(
        loaded_state.task_filter,
        TaskFilter::Project("+webdev".to_string())
    );
    assert_eq!(loaded_state.task_sort, TaskSort::Status);
}

#[test]
fn test_clear_all_filters_and_sorting() {
    let session_path = "session.json".to_string();

    let mut session_manager = SessionManager::new(session_path.clone());

    // Set up some filters and sorting
    let mut state = SessionState::default();
    state.task_filter = TaskFilter::Project("+testing".to_string());
    state.task_sort = TaskSort::Status;

    session_manager.update_state(state.clone());

    // Simulate clearing all filters and sorting
    state.task_filter = TaskFilter::Unfiltered;
    state.task_sort = TaskSort::Unsorted;
    session_manager.update_state(state);

    // Verify state is cleared
    assert_eq!(session_manager.get_state().task_filter, TaskFilter::Unfiltered);
    assert_eq!(session_manager.get_state().task_sort, TaskSort::Unsorted);

    // Save and reload to verify persistence
    session_manager.force_save();
    let written = session_manager.save_session(7).unwrap().clone();
    let mut new_session_manager = SessionManager::new(session_path);
    let loaded_state = new_session_manager.load_session(Some(written)).clone();

    // Verify cleared state persisted
    assert_eq!(loaded_state.task_filter, TaskFilter::Unfiltered);
    assert_eq!(loaded_state.task_sort, TaskSort::Unsorted);
}

#[test]
fn test_no_project_filter_persistence() {
    let session_path = "session.json".to_string();

    let mut session_manager = SessionManager::new(session_path.clone());

    // Set NoProject filter
    let mut state = SessionState::default();
    state.task_filter = TaskFilter::NoProject;

    session_manager.update_state(state);

    // Save and reload
    session_manager.force_save();
    let written = session_manager.save_session(7).unwrap().clone();
    let mut new_session_manager = SessionManager::new(session_path);
    let loaded_state = new_session_manager.load_session(Some(written)).clone();

    // Verify NoProject filter persisted
    assert_eq!(loaded_state.task_filter, TaskFilter::NoProject);
}

#[test]
fn session_begins_with_the_initial_state() {
    let manager = SessionManager::new("a/b.json".to_string());
    assert_eq!(manager.session_file_path(), "a/b.json");
    let state = manager.get_state();
    assert_eq!(state, &SessionState::default());
    assert_eq!(state.current_tab, AppTab::Editor);
    assert_eq!(state.note_focus, NoteFocus::Title);
    assert_eq!(state.command_panel, CommandPanel::Hidden);
    assert_eq!(state.task_filter, TaskFilter::Unfiltered);
    assert_eq!(state.task_sort, TaskSort::Unsorted);
    assert_eq!(state.last_save_timestamp, 0);
    assert_eq!(state.title_cursor_pos, (0, 0));
    assert!(!manager.has_unsaved_drafts());
    assert!(!manager.should_save());
    assert!(!manager.should_save_after(1_000_000));
}

#[test]
fn session_is_due_by_time_or_by_count() {
    assert_eq!(DEBOUNCE_MILLIS, 500);
    assert_eq!(SAVE_THRESHOLD, 50);
    let mut manager = SessionManager::new("s".to_string());
    manager.update_state(SessionState::default());
    assert!(!manager.should_save_after(499));
    assert!(manager.should_save_after(500));
    assert!(!manager.should_save());
    for _ in 0..48 {
        manager.update_state(SessionState::default());
    }
    assert!(!manager.should_save_after(0));
    manager.update_state(SessionState::default());
    assert!(manager.should_save_after(0));
    assert!(manager.should_save());
    manager.mark_saved();
    assert!(!manager.should_save_after(10_000));
    manager.force_save();
    assert!(manager.should_save_after(500));
    assert!(!manager.should_save_after(0));
}

#[test]
fn session_writing_notes_the_time() {
    let mut manager = SessionManager::new("s".to_string());
    assert_eq!(manager.save_session(5), None);
    let mut state = SessionState::default();
    state.last_save_timestamp = 99;
    state.current_note_index = 4;
    manager.update_state(state);
    // the time of the last writing is the manager's own
    assert_eq!(manager.get_state().last_save_timestamp, 0);
    assert_eq!(manager.get_state().current_note_index, 4);
    assert_eq!(manager.save_session(5).unwrap().last_save_timestamp, 5);
    // until the writing went well there is still something to write
    assert_eq!(manager.save_session(6).unwrap().last_save_timestamp, 6);
    manager.mark_saved();
    assert_eq!(manager.save_session(7), None);
    assert_eq!(manager.get_state().last_save_timestamp, 6);
    manager.update_state(SessionState::default());
    assert_eq!(manager.get_state().last_save_timestamp, 6);
}

#[test]
fn session_drafts() {
    let mut manager = SessionManager::new("s".to_string());
    let mut state = SessionState::default();
    state.note_content = vec![String::new()];
    manager.update_state(state);
    assert!(manager.has_unsaved_drafts());
    let mut state = SessionState::default();
    state.has_unsaved_changes = true;
    manager.update_state(state);
    assert!(manager.has_unsaved_drafts());
    let mut state = SessionState::default();
    state.scratchpad_content = vec!["x".to_string()];
    assert!(manager.load_session(Some(state)).scratchpad_content.len() == 1);
    assert!(manager.has_unsaved_drafts());
    assert_eq!(manager.load_session(None), &SessionState::default());
    assert!(!manager.has_unsaved_drafts());
}

#[test]
fn read_from_file() {
    let loc = "tests/config";
    let config = Configuration::with(
        loc,
        vec![
            ("estimate".to_string(), "30m".to_string()),
            ("basefolder".to_string(), "/home/sweet/home".to_string()),
        ],
    );

    assert_eq!(config.get_or("estimate", "45m"), "30m");
    assert_eq!(config.get_or("basefolder", ""), "/home/sweet/home");
    assert_eq!(config.get_or("awesome", "rust"), "rust");
}

#[test]
fn read_override_values_from_file() {
    let loc = "tests/config";
    // what the environment sets stands before what the file sets
    let config = Configuration::with(
        loc,
        vec![
            ("estimate".to_string(), "50m".to_string()),
            ("estimate".to_string(), "30m".to_string()),
            ("basefolder".to_string(), "/home/sweet/home".to_string()),
        ],
    );
    assert_eq!(config.get_or("estimate", "45m"), "50m");
    assert_eq!(config.get_or("basefolder", ""), "/home/sweet/home");
    assert_eq!(config.get_or("awesome", "rust"), "rust");
}

#[test]
fn change_config_file_via_env() {
    let config = Configuration::from_env(
        Some("tests/other_config".to_string()),
        vec![
            ("estimate".to_string(), "60m".to_string()),
            ("basefolder".to_string(), "/home/sweet/home/away".to_string()),
        ],
    );
    assert_eq!(config.path(), "tests/other_config");
    assert_eq!(config.get_or("estimate", "45m"), "60m");
    assert_eq!(config.get_or("basefolder", ""), "/home/sweet/home/away");
    assert_eq!(config.get_or("awesome", "rust"), "rust");
}

#[test]
fn test_basefolder_default() {
    let result = Configuration::basefolder(None, None);
    assert_eq!(result, "./orgflow");
    assert_eq!(
        Configuration::basefolder(None, Some("/home/me".to_string())),
        "/home/me/orgflow"
    );
}

#[test]
fn test_basefolder_from_env() {
    assert_eq!(
        Configuration::basefolder(Some("/custom/path".to_string()), Some("/home/me".to_string())),
        "/custom/path"
    );
}

#[test]
fn configuration_base() {
    let base = Configuration::_base();
    assert_eq!(base.path(), "config");
    assert_eq!(base.prefix(), "ORGMODE");
    assert_eq!(base.get_or("any", "default"), "default");
    let named = Configuration::from_env(None, Vec::new());
    assert_eq!(named.path(), "config");
    let mut c = Configuration::_base();
    c.parse_config(vec![("k".to_string(), "v".to_string())]);
    assert_eq!(c.get_or("k", ""), "v");
    assert_eq!(c.get_or("K", "none"), "none");
    assert_eq!(c.content.len(), 1);
}
