use orgflow::task::{_is_prefix, _is_suffix};
use orgflow::{Date, FormatError, Priority, Tag, TagCollection, Task};

#[test]
fn task_roundtrip() {
    let expected = [
        "(A) Try to fix a mistake in the code p:freddy".to_string(),
        "x (A) 2025-03-12 Try to fix a mistake in the code".to_string(),
        "x 2025-11-12 Try to fix a mistake in the code p:pes @phone +aid".to_string(),
        // a flawed tag that is met first is taken as a word of the description
        "x 2025-11-12 2022-11-12 Task description rec:+24".to_string(),
        // and so is a flawed date
        "x 2025-44-44 2022-11-12 Task description rec:+24".to_string(),
    ];

    for val in expected {
        println!("{}", val);
        let task = Task::from_str(&val).unwrap();
        let roundtrip = task.to_string();
        assert_eq!(val, roundtrip, "Roundtrip error w/ '{:?}'", task);
    }
}

#[test]
fn task_roundtrip_bad() {
    let expected = [
        "".to_string(),
        "x (A) @phone".to_string(),
        "x 2025-11-12 2022-11-12 Task description p:pes @phone +aid rec:+24".to_string(),
        "x 2025-11-12 2022-11-12 Task description p:pes rec:+24w rec:23o".to_string(),
        "x 2025-11-12 2022-11-12 Task description p:pes rec:+24".to_string(),
        "x x x 2022-11-12 Task description rec:+24".to_string(),
        "x 2026-11-12 2027-11-12 2028-11-12 2029-11-12 Task description rec:+24".to_string(),
    ];

    for val in expected {
        let result = Task::from_str(&val);
        assert!(result.is_err(), "\n{}\n=>\n{:?}\n", val, result);
    }
}

#[test]
fn task_two_dates_are_completion_and_creation() {
    let task = Task::from_str("x 2025-11-12 2022-11-12 Task description").unwrap();
    assert!(task.is_completed());
    assert_eq!(task.completion_date(), &Some(Date::from_str("2025-11-12").unwrap()));
    assert_eq!(task.creation_date(), &Some(Date::from_str("2022-11-12").unwrap()));
    assert_eq!(task.priority_level(), &None);
    assert_eq!(task.description(), "Task description");
    assert_eq!(task.tags(), &None);
}

#[test]
fn task_one_date_is_creation() {
    let task = Task::from_str("2022-11-12 Task description").unwrap();
    assert!(!task.is_completed());
    assert_eq!(task.completion_date(), &None);
    assert_eq!(task.creation_date(), &Some(Date::from_str("2022-11-12").unwrap()));
}

#[test]
fn task_third_date_is_rejected() {
    assert_eq!(
        Task::from_str("x 2026-11-12 2027-11-12 2028-11-12 Task description"),
        Err(FormatError::TooManyDates)
    );
}

#[test]
fn task_second_mark_is_rejected() {
    assert_eq!(
        Task::from_str("x x Task description"),
        Err(FormatError::DuplicateCompletion)
    );
}

#[test]
fn task_errors_each_in_its_case() {
    assert_eq!(Task::from_str(""), Err(FormatError::EmptyInput));
    assert_eq!(Task::from_str("   \t"), Err(FormatError::EmptyInput));
    assert_eq!(Task::from_str("x (A)"), Err(FormatError::MissingDescription));
    assert_eq!(Task::from_str("@phone"), Err(FormatError::MissingDescription));
    assert_eq!(Task::from_str("x (A) @phone @home"), Err(FormatError::MissingDescription));
    assert_eq!(Task::from_str("Call est:5").unwrap().description(), "Call est:5");
    assert_eq!(Task::from_str("Call @mom now"), Err(FormatError::NoTagFound));
    assert_eq!(Task::from_str("Call @mom est:5"), Err(FormatError::MissingUnit));
    // the description is looked for first
    assert_eq!(Task::from_str("x x @phone"), Err(FormatError::MissingDescription));
}

#[test]
fn task_last_priority_counts() {
    let task = Task::from_str("(A) (B) Tidy up").unwrap();
    assert_eq!(task.priority_level(), &Some(Priority::B));
    assert_eq!(task.to_string(), "(B) Tidy up");
}

#[test]
fn task_prefix_in_any_order_is_written_in_one() {
    let task = Task::from_str("2024-01-02 (C) x Tidy up").unwrap();
    assert!(task.is_completed());
    assert_eq!(task.to_string(), "x (C) 2024-01-02 Tidy up");
}

#[test]
fn task_prefix_words_after_the_description_begins_belong_to_it() {
    let task = Task::from_str("Tidy up x (A) 2024-01-02").unwrap();
    assert!(!task.is_completed());
    assert_eq!(task.priority_level(), &None);
    assert_eq!(task.creation_date(), &None);
    assert_eq!(task.description(), "Tidy up x (A) 2024-01-02");
    assert_eq!(task.to_string(), "Tidy up x (A) 2024-01-02");
}

#[test]
fn task_tags_begin_at_the_first_tag() {
    let task = Task::from_str("Fix login bug +webdev @work").unwrap();
    assert_eq!(task.description(), "Fix login bug");
    assert_eq!(
        task.tags(),
        &Some(TagCollection::from_tags(vec![
            Tag::Project("webdev".to_string()),
            Tag::Context("work".to_string()),
        ]))
    );
}

#[test]
fn task_white_space_between_words_is_one_space_when_written() {
    let task = Task::from_str("  x   Tidy \t up    @home   +house ").unwrap();
    assert_eq!(task.description(), "Tidy up");
    assert_eq!(task.to_string(), "x Tidy up @home +house");
}

#[test]
fn task_with_today_has_a_creation_date() {
    let task = Task::with_today("x 2020-01-01 Tidy up @home").unwrap();
    assert_eq!(task.creation_date(), &Some(Date::now()));
    // the one date of the text was the day of creation, which today replaces
    assert_eq!(task.completion_date(), &None);
    assert!(task.is_completed());
    assert_eq!(task.description(), "Tidy up");
    assert_eq!(Task::with_today("@home"), Err(FormatError::MissingDescription));
    assert_eq!(Task::with_today(""), Err(FormatError::EmptyInput));
}

#[test]
fn task_with_date_keeps_all_but_the_creation_date() {
    let day = Date::from_str("2031-05-06").unwrap();
    let task = Task::with_date("(B) 2020-02-02 2020-01-01 Tidy up @home", day).unwrap();
    assert_eq!(task.to_string(), "(B) 2020-02-02 2031-05-06 Tidy up @home");
    let plain = Task::with_date("Tidy up", day).unwrap();
    assert_eq!(plain.to_string(), "2031-05-06 Tidy up");
}

#[test]
fn task_by_description() {
    let task = Task::with_task("Water the plants".to_string());
    assert_eq!(task.description(), "Water the plants");
    assert!(!task.is_completed());
    assert_eq!(task.priority_level(), &None);
    assert_eq!(task.completion_date(), &None);
    assert_eq!(task.creation_date(), &Some(Date::now()));
    assert_eq!(task.tags(), &None);
    let empty = Task::new();
    assert_eq!(empty.description(), "");
    assert_eq!(Task::default().description(), "");
}

#[test]
fn task_created_on_a_day() {
    let day = Date::from_str("2031-05-06").unwrap();
    let task = Task::created_on("Water the plants".to_string(), day);
    assert_eq!(task.to_string(), "2031-05-06 Water the plants");
    assert_eq!(Task::from_str(&task.to_string()), Ok(task));
}

#[test]
fn task_toggle_completion_flips_the_mark_only() {
    let mut task = Task::from_str("(A) 2024-01-02 Tidy up @home").unwrap();
    task.toggle_completion();
    assert_eq!(task.to_string(), "x (A) 2024-01-02 Tidy up @home");
    task.toggle_completion();
    assert_eq!(task.to_string(), "(A) 2024-01-02 Tidy up @home");
}

#[test]
fn task_word_classes() {
    assert!(_is_prefix("x"));
    assert!(_is_prefix("(A)"));
    assert!(_is_prefix("2024-01-09"));
    assert!(!_is_prefix("X"));
    assert!(!_is_prefix("(D)"));
    assert!(!_is_prefix("2024-13-09"));
    assert!(!_is_prefix(""));
    assert!(_is_suffix("@home"));
    assert!(_is_suffix("k:v"));
    assert!(!_is_suffix("rec:+24"));
    assert!(!_is_suffix("home"));
}
