use orgflow::suggestions::lex_less;
use orgflow::{AutocompletionWidget, Note, OrgDocument, TagCollection, TagSuggestions, Task};
use orgflow::autocompletion::TagType;

fn create_test_suggestions() -> TagSuggestions {
    TagSuggestions {
        context: vec![
            "@work".to_string(),
            "@home".to_string(),
            "@phone".to_string(),
        ],
        project: vec!["+project1".to_string(), "+urgent".to_string()],
        person: vec!["p:john".to_string(), "p:alice".to_string()],
        custom: vec!["priority:high".to_string(), "status:done".to_string()],
        oneoff: vec!["!important".to_string(), "!reminder".to_string()],
    }
}

#[test]
fn test_context_tag_suggestions() {
    let mut widget = AutocompletionWidget::new();
    let suggestions = create_test_suggestions();

    widget.update_suggestions("This is a task @w", &suggestions);

    assert!(widget.is_visible());
    assert_eq!(widget.suggestions(), &vec!["@work"]);
}

#[test]
fn test_project_tag_suggestions() {
    let mut widget = AutocompletionWidget::new();
    let suggestions = create_test_suggestions();

    widget.update_suggestions("Task +p", &suggestions);

    assert!(widget.is_visible());
    assert_eq!(widget.suggestions(), &vec!["+project1"]);
}

#[test]
fn test_no_suggestions_for_regular_text() {
    let mut widget = AutocompletionWidget::new();
    let suggestions = create_test_suggestions();

    widget.update_suggestions("This is regular text", &suggestions);

    assert!(!widget.is_visible());
}

#[test]
fn test_apply_selected() {
    let mut widget = AutocompletionWidget::new();
    let suggestions = create_test_suggestions();

    widget.update_suggestions("Task @w", &suggestions);
    let result = widget.apply_selected("Task @w");

    assert_eq!(result, Some(("Task @work ".to_string(), 11))); // 11 is the length "Task @work "
}

#[test]
fn test_apply_selected_cursor_position() {
    let mut widget = AutocompletionWidget::new();
    let suggestions = create_test_suggestions();

    // Test with context tag
    widget.update_suggestions("Do something @h", &suggestions);
    let result = widget.apply_selected("Do something @h");
    let expected_text = "Do something @home ";
    assert_eq!(
        result,
        Some((expected_text.to_string(), expected_text.len()))
    );

    // Test with project tag
    widget.update_suggestions("Fix bug +p", &suggestions);
    let result = widget.apply_selected("Fix bug +p");
    let expected_text = "Fix bug +project1 ";
    assert_eq!(
        result,
        Some((expected_text.to_string(), expected_text.len()))
    );

    // Test with person tag
    widget.update_suggestions("Ask p:a", &suggestions);
    let result = widget.apply_selected("Ask p:a");
    let expected_text = "Ask p:alice ";
    assert_eq!(
        result,
        Some((expected_text.to_string(), expected_text.len()))
    );
}

#[test]
fn test_navigation() {
    let mut widget = AutocompletionWidget::new();
    let suggestions = create_test_suggestions();

    widget.update_suggestions("@", &suggestions);

    assert_eq!(widget.selected_index(), 0);

    widget.select_next();
    assert_eq!(widget.selected_index(), 1);

    widget.select_previous();
    assert_eq!(widget.selected_index(), 0);
}

#[test]
fn test_tag_type_detection() {
    let mut widget = AutocompletionWidget::new();
    let suggestions = create_test_suggestions();

    // Test context tag type
    widget.update_suggestions("Task @w", &suggestions);
    assert_eq!(widget.get_tag_type_display(), "Context");

    // Test project tag type
    widget.update_suggestions("Fix +p", &suggestions);
    assert_eq!(widget.get_tag_type_display(), "Project");

    // Test person tag type
    widget.update_suggestions("Ask p:a", &suggestions);
    assert_eq!(widget.get_tag_type_display(), "Person");

    // Test oneoff tag type
    widget.update_suggestions("Note !i", &suggestions);
    assert_eq!(widget.get_tag_type_display(), "OneOff");

    widget.determine_tag_type("priority:");
    assert!(matches!(
        widget.determine_tag_type("priority:high"),
        TagType::Custom
    ));
    assert!(matches!(
        widget.determine_tag_type("@work"),
        TagType::Context
    ));
    assert!(matches!(
        widget.determine_tag_type("+project"),
        TagType::Project
    ));
    assert!(matches!(
        widget.determine_tag_type("p:john"),
        TagType::Person
    ));
    assert!(matches!(
        widget.determine_tag_type("!urgent"),
        TagType::OneOff
    ));
}

#[test]
fn widget_navigation_wraps_around() {
    let mut widget = AutocompletionWidget::new();
    widget.select_next();
    widget.select_previous();
    assert_eq!(widget.selected_index(), 0);
    assert_eq!(widget.get_selected(), None);
    widget.update_suggestions("@", &create_test_suggestions());
    assert_eq!(widget.suggestions().len(), 3);
    widget.select_previous();
    assert_eq!(widget.selected_index(), 2);
    assert_eq!(widget.get_selected(), Some(&"@phone".to_string()));
    widget.select_next();
    assert_eq!(widget.selected_index(), 0);
    widget.select_next();
    widget.select_next();
    widget.select_next();
    assert_eq!(widget.selected_index(), 0);
}

#[test]
fn widget_dismissed_and_cleared() {
    let mut widget = AutocompletionWidget::default();
    let tags = create_test_suggestions();
    widget.update_suggestions("call p", &tags);
    assert!(!widget.is_visible());
    assert_eq!(widget.get_tag_type_display(), "Tags");
    widget.update_suggestions("call p:", &tags);
    assert!(widget.is_visible());
    widget.select_next();
    widget.update_suggestions("call p: now", &tags);
    assert!(!widget.is_visible());
    assert_eq!(widget.suggestions().len(), 0);
    assert_eq!(widget.selected_index(), 1);
    assert_eq!(widget.apply_selected("call p:"), None);
    widget.update_suggestions("@", &tags);
    widget.dismiss();
    assert!(!widget.is_visible());
    assert_eq!(widget.selected_index(), 0);
    assert_eq!(widget.get_tag_type_display(), "Tags");
    widget.update_suggestions("", &tags);
    assert!(!widget.is_visible());
}

#[test]
fn widget_tag_beginnings() {
    let widget = AutocompletionWidget::new();
    assert!(widget.is_tag_prefix("@"));
    assert!(widget.is_tag_prefix("+x"));
    assert!(widget.is_tag_prefix("!"));
    assert!(widget.is_tag_prefix("pi"));
    assert!(widget.is_tag_prefix("k:"));
    assert!(!widget.is_tag_prefix("p"));
    assert!(!widget.is_tag_prefix(":"));
    assert!(!widget.is_tag_prefix(""));
    assert!(!widget.is_tag_prefix("word"));
    assert!(matches!(widget.determine_tag_type("pi"), TagType::Mixed));
    assert!(matches!(widget.determine_tag_type(":"), TagType::Mixed));
    assert_eq!(widget.apply_selected("Task @w"), None);
}

#[test]
fn widget_applies_to_the_last_word_only() {
    let mut widget = AutocompletionWidget::new();
    let tags = create_test_suggestions();
    widget.update_suggestions("@w", &tags);
    assert_eq!(
        widget.apply_selected("  see   @home and  @w  "),
        Some(("see @home and @work ".to_string(), 20))
    );
    assert_eq!(widget.apply_selected("@w done"), None);
    let accents = TagSuggestions {
        context: vec!["@café".to_string()],
        project: Vec::new(),
        person: Vec::new(),
        custom: Vec::new(),
        oneoff: Vec::new(),
    };
    widget.update_suggestions("@c", &accents);
    assert_eq!(widget.apply_selected("@c"), Some(("@café ".to_string(), 7)));
}

#[test]
fn suggestions_all_tags_in_order() {
    let tags = create_test_suggestions();
    assert_eq!(
        tags.all_tags(),
        vec![
            "!important",
            "!reminder",
            "+project1",
            "+urgent",
            "@home",
            "@phone",
            "@work",
            "p:alice",
            "p:john",
            "priority:high",
            "status:done",
        ]
    );
}

#[test]
fn suggestions_by_kind_keep_the_order_of_the_kind() {
    let tags = create_test_suggestions();
    assert_eq!(tags.suggestions_for_prefix("@"), vec!["@work", "@home", "@phone"]);
    assert_eq!(tags.suggestions_for_prefix("@H"), vec!["@home"]);
    assert_eq!(tags.suggestions_for_prefix("+"), vec!["+project1", "+urgent"]);
    assert_eq!(tags.suggestions_for_prefix("p:"), vec!["p:john", "p:alice"]);
    assert_eq!(tags.suggestions_for_prefix("!r"), vec!["!reminder"]);
    assert_eq!(tags.suggestions_for_prefix("status:"), vec!["status:done"]);
    // a word that begins with p and holds a colon asks for persons only
    assert_eq!(tags.suggestions_for_prefix("priority:"), Vec::<String>::new());
    // a word of no kind is looked for among all
    assert_eq!(tags.suggestions_for_prefix("p"), vec!["p:alice", "p:john", "priority:high"]);
    assert_eq!(tags.suggestions_for_prefix("S"), vec!["status:done"]);
    assert_eq!(tags.suggestions_for_prefix("").len(), 11);
    assert_eq!(tags.matching_prefix("P:"), vec!["p:alice", "p:john"]);
    assert_eq!(tags.matching_prefix("x"), Vec::<String>::new());
}

#[test]
fn suggestions_all_tags_keeps_repeated_texts() {
    let tags = TagSuggestions {
        context: vec!["b".to_string(), "a".to_string()],
        project: vec!["a".to_string()],
        person: Vec::new(),
        custom: vec!["ab".to_string(), "".to_string()],
        oneoff: vec!["B".to_string()],
    };
    assert_eq!(tags.all_tags(), vec!["", "B", "a", "a", "ab", "b"]);
}

#[test]
fn order_of_a_dictionary() {
    let c = |s: &str| s.chars().collect::<Vec<char>>();
    assert!(lex_less(&c(""), &c("a")));
    assert!(!lex_less(&c("a"), &c("")));
    assert!(!lex_less(&c("a"), &c("a")));
    assert!(lex_less(&c("a"), &c("ab")));
    assert!(lex_less(&c("ab"), &c("b")));
    assert!(lex_less(&c("B"), &c("a")));
    assert!(lex_less(&c("z"), &c("é")));
    assert!(!lex_less(&c("é"), &c("z")));
}

#[test]
fn unique_tags_once_each_and_in_order() {
    let mut doc = OrgDocument::new();
    doc.push_task(Task::from_str("One +webdev @work").unwrap());
    doc.push_task(Task::from_str("Two +webdev p:zoe k:v !x").unwrap());
    doc.push_task(Task::from_str("Three").unwrap());
    doc.push_note(Note::with_tags(
        "N".to_string(),
        Vec::new(),
        TagCollection::from_str("+alpha @work p:amy s:todo est:5min K:V").unwrap(),
    ));
    let tags = doc.collect_unique_tags();
    assert_eq!(tags.project, vec!["+alpha", "+webdev"]);
    assert_eq!(tags.context, vec!["@work"]);
    assert_eq!(tags.person, vec!["p:amy", "p:zoe"]);
    assert_eq!(tags.custom, vec!["k:v"]);
    assert_eq!(tags.oneoff, vec!["!x"]);
    let none = OrgDocument::new().collect_unique_tags();
    assert_eq!(none.all_tags(), Vec::<String>::new());
}
