use orgflow::autocompletion::Area;
use orgflow::keys::{handle_key_event, restored_index, Action, Key, KeyInput, Screen};
use orgflow::session::{AppTab, NoteFocus};
use orgflow::{AutocompletionWidget, Date, InvariantViolation, Note, OrgDocument, TagSuggestions, Task};

fn screen() -> Screen {
    Screen {
        tab: AppTab::Editor,
        focus: NoteFocus::Title,
        scratchpad_visible: false,
        suggestions_visible: false,
        title_suggestions_visible: false,
        note_index: 1,
        task_index: 5,
        note_count: 3,
        task_count: 4,
    }
}

fn press(key: Key) -> KeyInput {
    KeyInput { pressed: true, key, control: false }
}

fn control(c: char) -> KeyInput {
    KeyInput { pressed: true, key: Key::Char(c), control: true }
}

#[test]
fn keys_switch_the_view() {
    let mut s = screen();
    s.note_index = 7;
    assert_eq!(
        handle_key_event(&s, &control('r')),
        Action::SwitchTab { tab: AppTab::Viewer, note_index: 0, task_index: 5 }
    );
    s.tab = AppTab::Viewer;
    assert_eq!(
        handle_key_event(&s, &control('r')),
        Action::SwitchTab { tab: AppTab::Tasks, note_index: 7, task_index: 0 }
    );
    s.tab = AppTab::Tasks;
    assert_eq!(
        handle_key_event(&s, &control('r')),
        Action::SwitchTab { tab: AppTab::Editor, note_index: 7, task_index: 5 }
    );
    s.scratchpad_visible = true;
    assert_eq!(handle_key_event(&s, &control('r')), Action::ScratchpadInput);
    assert_eq!(restored_index(2, 3), 2);
    assert_eq!(restored_index(3, 3), 0);
    assert_eq!(restored_index(0, 0), 0);
}

#[test]
fn keys_move_among_notes_and_tasks() {
    let mut s = screen();
    s.tab = AppTab::Viewer;
    assert_eq!(handle_key_event(&s, &press(Key::Left)), Action::SelectNote(0));
    assert_eq!(handle_key_event(&s, &press(Key::Right)), Action::SelectNote(2));
    s.note_index = 2;
    assert_eq!(handle_key_event(&s, &press(Key::Right)), Action::Nothing);
    s.note_index = 0;
    assert_eq!(handle_key_event(&s, &press(Key::Left)), Action::Nothing);
    assert_eq!(handle_key_event(&s, &press(Key::Up)), Action::Nothing);
    s.note_count = 0;
    assert_eq!(handle_key_event(&s, &press(Key::Right)), Action::Nothing);
    s.tab = AppTab::Tasks;
    s.task_index = 2;
    assert_eq!(handle_key_event(&s, &press(Key::Up)), Action::SelectTask(1));
    assert_eq!(handle_key_event(&s, &press(Key::Down)), Action::SelectTask(3));
    s.task_index = 3;
    assert_eq!(handle_key_event(&s, &press(Key::Down)), Action::Nothing);
    // the arrows move among the tasks even while the pad is shown
    s.scratchpad_visible = true;
    s.suggestions_visible = true;
    assert_eq!(handle_key_event(&s, &press(Key::Up)), Action::SelectTask(2));
    assert_eq!(handle_key_event(&s, &press(Key::Left)), Action::ScratchpadInput);
}

#[test]
fn keys_escape_by_stages() {
    let mut s = screen();
    assert_eq!(handle_key_event(&s, &press(Key::Esc)), Action::Exit);
    s.title_suggestions_visible = true;
    assert_eq!(handle_key_event(&s, &press(Key::Esc)), Action::DismissTitleSuggestions);
    s.focus = NoteFocus::Content;
    assert_eq!(handle_key_event(&s, &press(Key::Esc)), Action::Exit);
    s.scratchpad_visible = true;
    assert_eq!(handle_key_event(&s, &press(Key::Esc)), Action::CloseScratchpad);
    s.suggestions_visible = true;
    assert_eq!(handle_key_event(&s, &press(Key::Esc)), Action::DismissSuggestions);
    let released = KeyInput { pressed: false, key: Key::Esc, control: false };
    assert_eq!(handle_key_event(&s, &released), Action::ScratchpadInput);
}

#[test]
fn keys_on_the_pad() {
    let mut s = screen();
    assert_eq!(handle_key_event(&s, &control('t')), Action::ToggleScratchpad);
    assert_eq!(handle_key_event(&s, &control('s')), Action::SaveNote);
    s.scratchpad_visible = true;
    assert_eq!(handle_key_event(&s, &control('t')), Action::ToggleScratchpad);
    assert_eq!(handle_key_event(&s, &control('s')), Action::ScratchpadInput);
    assert_eq!(handle_key_event(&s, &press(Key::Enter)), Action::SubmitTask);
    assert_eq!(handle_key_event(&s, &press(Key::Up)), Action::ScratchpadInput);
    assert_eq!(handle_key_event(&s, &press(Key::Tab)), Action::ScratchpadInput);
    assert_eq!(handle_key_event(&s, &press(Key::Char('t'))), Action::ScratchpadInput);
    s.suggestions_visible = true;
    assert_eq!(handle_key_event(&s, &press(Key::Up)), Action::PreviousSuggestion);
    assert_eq!(handle_key_event(&s, &press(Key::Down)), Action::NextSuggestion);
    assert_eq!(handle_key_event(&s, &press(Key::Tab)), Action::ApplySuggestion);
    assert_eq!(handle_key_event(&s, &press(Key::Other)), Action::ScratchpadInput);
}

#[test]
fn keys_in_the_editor() {
    let mut s = screen();
    assert_eq!(handle_key_event(&s, &press(Key::Enter)), Action::Focus(NoteFocus::Content));
    assert_eq!(handle_key_event(&s, &press(Key::BackTab)), Action::Focus(NoteFocus::Content));
    assert_eq!(handle_key_event(&s, &press(Key::Tab)), Action::Focus(NoteFocus::Content));
    assert_eq!(handle_key_event(&s, &press(Key::Up)), Action::TitleInput);
    assert_eq!(handle_key_event(&s, &press(Key::Char('a'))), Action::TitleInput);
    s.title_suggestions_visible = true;
    assert_eq!(handle_key_event(&s, &press(Key::Up)), Action::PreviousTitleSuggestion);
    assert_eq!(handle_key_event(&s, &press(Key::Down)), Action::NextTitleSuggestion);
    assert_eq!(handle_key_event(&s, &press(Key::Tab)), Action::ApplyTitleSuggestion);
    s.focus = NoteFocus::Content;
    assert_eq!(handle_key_event(&s, &press(Key::BackTab)), Action::Focus(NoteFocus::Title));
    assert_eq!(handle_key_event(&s, &press(Key::Enter)), Action::NoteInput);
    assert_eq!(handle_key_event(&s, &press(Key::Tab)), Action::NoteInput);
    s.tab = AppTab::Viewer;
    assert_eq!(handle_key_event(&s, &press(Key::Enter)), Action::Nothing);
    s.tab = AppTab::Tasks;
    assert_eq!(handle_key_event(&s, &press(Key::Char('x'))), Action::Nothing);
}

fn one_kind(context: Vec<&str>) -> TagSuggestions {
    TagSuggestions {
        context: context.iter().map(|s| s.to_string()).collect(),
        project: Vec::new(),
        person: Vec::new(),
        custom: Vec::new(),
        oneoff: Vec::new(),
    }
}

#[test]
fn popup_below_the_cursor() {
    let mut list = AutocompletionWidget::new();
    let area = Area { x: 0, y: 0, width: 80, height: 24 };
    assert_eq!(list.popup_area(area, (3, 3)), None);
    list.update_suggestions("@", &one_kind(vec!["@a", "@b", "@c"]));
    assert_eq!(
        list.popup_area(area, (3, 3)),
        Some(Area { x: 3, y: 4, width: 20, height: 5 })
    );
    // moved left and up to fit
    assert_eq!(
        list.popup_area(area, (75, 23)),
        Some(Area { x: 60, y: 19, width: 20, height: 5 })
    );
    let shifted = Area { x: 10, y: 5, width: 30, height: 10 };
    assert_eq!(
        list.popup_area(shifted, (2, 0)),
        Some(Area { x: 12, y: 6, width: 20, height: 5 })
    );
    // no room
    let small = Area { x: 0, y: 0, width: 19, height: 24 };
    assert_eq!(list.popup_area(small, (0, 0)), None);
    let low = Area { x: 0, y: 0, width: 80, height: 4 };
    assert_eq!(list.popup_area(low, (0, 0)), None);
    let far = Area { x: 65530, y: 0, width: 80, height: 24 };
    assert_eq!(list.popup_area(far, (50, 0)), None);
    list.dismiss();
    assert_eq!(list.popup_area(area, (3, 3)), None);
}

#[test]
fn popup_size_follows_the_suggestions() {
    let mut list = AutocompletionWidget::new();
    let area = Area { x: 0, y: 0, width: 200, height: 50 };
    let long = "@aaaaaaaaaaaaaaaaaaaaaaaaaaaaaa";
    assert_eq!(long.len(), 31);
    list.update_suggestions("@", &one_kind(vec!["@a", long]));
    assert_eq!(
        list.popup_area(area, (0, 65535)),
        Some(Area { x: 0, y: 46, width: 31, height: 4 })
    );
    let longer = "@aaaaaaaaaaaaaaaaaaaaaaaaaaaaaaaaaaaaaaaaaaaaaaaaaaaaa";
    list.update_suggestions(
        "@",
        &one_kind(vec!["@1", "@2", "@3", "@4", "@5", "@6", "@7", longer]),
    );
    assert_eq!(
        list.popup_area(area, (1, 1)),
        Some(Area { x: 1, y: 2, width: 40, height: 8 })
    );
    // the width counts bytes
    list.update_suggestions("@", &one_kind(vec!["@éééééééééééé"]));
    assert_eq!(
        list.popup_area(area, (1, 1)),
        Some(Area { x: 1, y: 2, width: 25, height: 3 })
    );
}

#[test]
fn document_that_cannot_be_read_again() {
    let mut doc = OrgDocument::new();
    assert_eq!(doc.validate(), Ok(()));
    doc.push_task(Task::from_str("Fine").unwrap());
    doc.push_note(Note::with("T".to_string(), vec!["text".to_string()]));
    assert_eq!(doc.validate(), Ok(()));
    assert!(OrgDocument::from_text(&doc.write()).is_ok());
    doc.push_note(Note::with("T".to_string(), Vec::new()));
    assert_eq!(doc.validate(), Err(InvariantViolation::NoteWithoutContent));
    assert!(OrgDocument::from_text(&doc.write()).is_err());
    doc.push_task(Task::with_task(" ".to_string()));
    assert_eq!(doc.validate(), Err(InvariantViolation::EmptyDescription));
    let mut other = OrgDocument::new();
    other.push_task(Task::new());
    assert_eq!(other.validate(), Err(InvariantViolation::EmptyDescription));
}

#[test]
fn date_years_of_other_lengths() {
    assert!(Date::from_str("0000-02-29").is_ok());
    assert_eq!(Date::from_str("0000-02-29").unwrap().to_string(), "0000-02-29");
    assert_eq!(Date::from_str("0100-02-29"), Err(orgflow::FormatError::BadDate));
    assert_eq!(Date::from_str("+12345-06-07").unwrap().to_string(), "12345-06-07");
    assert_eq!(Date::from_str("-0044-03-15").unwrap().to_string(), "-0044-03-15");
    assert_eq!(Date::from_str("-12345-03-15").unwrap().to_string(), "-12345-03-15");
    assert_eq!(Date::from_str("987-06-05").unwrap().to_string(), "0987-06-05");
    assert_eq!(Date::from_str("12345-06-07"), Err(orgflow::FormatError::BadDate));
}
