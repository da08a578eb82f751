use orgflow::tags::estimate::{get_u64_or_err, TaskEstimate};
use orgflow::tags::guid::Guid;
use orgflow::tags::recurrence::TaskRecurrence;
use orgflow::tags::state::TaskState;
use orgflow::{Date, FormatError, Tag, TagCollection};

#[test]
fn mod_roundtrip() {
    let expected = ["+project1 p:mueller poor:speed".to_string()];

    for val in expected {
        let result = TagCollection::from_str(&val).unwrap();
        let expected = TagCollection::from_tags(vec![
            Tag::Project("project1".to_string()),
            Tag::Person("mueller".to_string()),
            Tag::Custom("poor".to_string(), "speed".to_string()),
        ]);

        assert_eq!(result, expected);
        let roundtrip: String = expected.to_string();
        assert_eq!(val, roundtrip);
    }
}

#[test]
fn mod_roundtrip_bad() {
    let expected = [
        "Hello".to_string(),
        "This is a task".to_string(),
        "h: sdfasd dsf".to_string(),
        "@ sdfasd dsf".to_string(),
        "+sdfasd dsf".to_string(),
        " ".to_string(),
        "".to_string(),
        "          ".to_string(),
    ];

    for val in expected {
        let result = TagCollection::from_str(&val);
        assert!(result.is_err(), "'{}'", result.unwrap().to_string());
    }
}

#[test]
fn empty_tag() {
    let result = Tag::from_str(" ");
    assert!(result.is_err());
    let result = Tag::from_str("");
    assert!(result.is_err());
    let result = Tag::from_str("       ");
    assert!(result.is_err());
}

#[test]
fn recurrence_roundtrip() {
    let expected = [
        "42w".to_string(),
        "21d".to_string(),
        "1d".to_string(),
        "9y".to_string(),
        "2w".to_string(),
        "7d".to_string(),
    ];

    for val in expected {
        let roundtrip: String = TaskRecurrence::from_str(&val).unwrap().to_string();
        assert_eq!(val, roundtrip);
    }
}

#[test]
fn recurrence_roundtrip_bad() {
    let expected = [
        "42min".to_string(),
        "21min".to_string(),
        "1sasdf".to_string(),
        "9ss".to_string(),
        "2asda".to_string(),
        ".4d".to_string(),
        ".4w".to_string(),
        "123.24y".to_string(),
        ".4w".to_string(),
    ];

    for val in expected {
        let result = TaskRecurrence::from_str(&val);
        assert!(result.is_err());
    }
}

#[test]
fn state_roundtrip() {
    let expected = [
        "todo".to_string(),
        "cancelled(Problem with customer())".to_string(),
        "wait(Problem with customer)".to_string(),
        "wait()".to_string(),
        "cancelled(Wrong)".to_string(),
        "done".to_string(),
    ];

    for val in expected {
        let roundtrip: String = TaskState::from_str(&val).unwrap().to_string();
        assert_eq!(val, roundtrip);
    }
}

#[test]
fn state_roundtrip_bad() {
    let expected = [
        "waiting".to_string(),
        "done(Wrong)".to_string(),
        "".to_string(),
    ];

    for val in expected {
        let roundtrip = TaskState::from_str(&val);
        assert!(roundtrip.is_err());
    }
}

#[test]
fn estimate_roundtrip() {
    let expected = [
        "13min".to_string(),
        "120min".to_string(),
        "11min".to_string(),
        "114min".to_string(),
        "121min".to_string(),
    ];
    for val in expected {
        let result: String = TaskEstimate::from_str(&val).unwrap().to_string();
        assert_eq!(result, val)
    }
}

#[test]
fn estimate_roundtrip_bad() {
    let expected = [
        "213.12min".to_string(),
        "31.1min".to_string(),
        ".1min".to_string(),
        "213".to_string(),
        "2sec".to_string(),
        "23weeks".to_string(),
        "21h".to_string(),
    ];
    for val in expected {
        let result = TaskEstimate::from_str(&val);
        assert!(result.is_err())
    }
}

#[test]
fn state_values() {
    assert_eq!(TaskState::from_str("todo"), Ok(TaskState::Todo));
    assert_eq!(TaskState::from_str("next"), Ok(TaskState::Next));
    assert_eq!(TaskState::from_str("done"), Ok(TaskState::Done));
    assert_eq!(TaskState::from_str("hold(a)"), Ok(TaskState::Hold("a".to_string())));
    assert_eq!(TaskState::from_str("wait()"), Ok(TaskState::Wait(String::new())));
    // the comment is all that stands between the first ( and the last )
    assert_eq!(
        TaskState::from_str("hold(hold(x))"),
        Ok(TaskState::Hold("hold(x)".to_string()))
    );
    assert_eq!(TaskState::from_str("hold(hold(x))").unwrap().to_string(), "hold(hold(x))");
    assert_eq!(TaskState::from_str("hold("), Err(FormatError::BadState));
    assert_eq!(TaskState::from_str("Todo"), Err(FormatError::BadState));
    assert_eq!(TaskState::default(), TaskState::Todo);
}

#[test]
fn estimate_values_and_errors() {
    assert_eq!(TaskEstimate::from_str("45min"), Ok(TaskEstimate::new(45)));
    assert_eq!(TaskEstimate::from_str("0min"), Ok(TaskEstimate::new(0)));
    assert_eq!(TaskEstimate::new(90).to_string(), "90min");
    assert_eq!(TaskEstimate::from_str("+5min").unwrap().to_string(), "5min");
    assert_eq!(TaskEstimate::from_str("007min").unwrap().to_string(), "7min");
    assert_eq!(
        TaskEstimate::from_str("18446744073709551615min").unwrap().to_string(),
        "18446744073709551615min"
    );
    assert_eq!(
        TaskEstimate::from_str("18446744073709551616min"),
        Err(FormatError::BadNumber)
    );
    assert_eq!(TaskEstimate::from_str("min"), Err(FormatError::BadNumber));
    assert_eq!(TaskEstimate::from_str("1min2min"), Err(FormatError::BadNumber));
    assert_eq!(TaskEstimate::from_str("12"), Err(FormatError::MissingUnit));
    assert_eq!(TaskEstimate::from_str("-5min"), Err(FormatError::BadNumber));
}

#[test]
fn quantity_before_a_unit() {
    assert_eq!(get_u64_or_err("42w", "w"), Ok(42));
    assert_eq!(get_u64_or_err("42w", "d"), Err(FormatError::MissingUnit));
    assert_eq!(get_u64_or_err("w", "w"), Err(FormatError::BadNumber));
    assert_eq!(get_u64_or_err("4 2w", "w"), Err(FormatError::BadNumber));
    assert_eq!(get_u64_or_err("12", ""), Ok(12));
}

#[test]
fn recurrence_keeps_years_as_weeks() {
    // nine years are 468 weeks, and are written as nine years again
    let nine = TaskRecurrence::from_str("9y").unwrap();
    assert_eq!(nine.to_string(), "9y");
    assert_ne!(nine, TaskRecurrence::from_str("468w").unwrap());
    assert_eq!(TaskRecurrence::from_str("468w").unwrap().to_string(), "468w");
    assert_eq!(TaskRecurrence::from_str("0y").unwrap().to_string(), "0y");
    assert_eq!(TaskRecurrence::from_str("+3d").unwrap().to_string(), "3d");
    assert_eq!(TaskRecurrence::from_str("010w").unwrap().to_string(), "10w");
}

#[test]
fn recurrence_bounds() {
    assert_eq!(
        TaskRecurrence::from_str("106751991167d").unwrap().to_string(),
        "106751991167d"
    );
    assert_eq!(TaskRecurrence::from_str("106751991168d"), Err(FormatError::TooLong));
    assert_eq!(
        TaskRecurrence::from_str("15250284452w").unwrap().to_string(),
        "15250284452w"
    );
    assert_eq!(TaskRecurrence::from_str("15250284453w"), Err(FormatError::TooLong));
    assert_eq!(
        TaskRecurrence::from_str("293274701y").unwrap().to_string(),
        "293274701y"
    );
    assert_eq!(TaskRecurrence::from_str("293274702y"), Err(FormatError::TooLong));
    assert_eq!(TaskRecurrence::from_str(""), Err(FormatError::MissingUnit));
    assert_eq!(TaskRecurrence::from_str("5m"), Err(FormatError::MissingUnit));
    assert_eq!(TaskRecurrence::from_str("d"), Err(FormatError::BadNumber));
    assert_eq!(
        TaskRecurrence::from_str("99999999999999999999d"),
        Err(FormatError::BadNumber)
    );
}

#[test]
fn tag_kinds_in_their_order() {
    assert_eq!(Tag::from_str("s:todo"), Ok(Tag::Status(TaskState::Todo)));
    assert_eq!(Tag::from_str("est:15min"), Ok(Tag::Estimate(TaskEstimate::new(15))));
    assert_eq!(
        Tag::from_str("rec:+2w"),
        Ok(Tag::StrictRecurrence(TaskRecurrence::from_str("2w").unwrap()))
    );
    assert_eq!(
        Tag::from_str("rec:2w"),
        Ok(Tag::LooseRecurrence(TaskRecurrence::from_str("2w").unwrap()))
    );
    assert_eq!(
        Tag::from_str("t:2024-01-09"),
        Ok(Tag::Threshold(Date::from_str("2024-01-09").unwrap()))
    );
    assert_eq!(
        Tag::from_str("n:a1a2a3a4-b1b2-c1c2-d1d2-d3d4d5d6d7d8"),
        Ok(Tag::Note(Guid::from_str("a1a2a3a4-b1b2-c1c2-d1d2-d3d4d5d6d7d8").unwrap()))
    );
    assert_eq!(Tag::from_str("p:alice"), Ok(Tag::Person("alice".to_string())));
    assert_eq!(Tag::from_str("!soon"), Ok(Tag::OneOff("soon".to_string())));
    assert_eq!(Tag::from_str("@home"), Ok(Tag::Context("home".to_string())));
    assert_eq!(Tag::from_str("+garden"), Ok(Tag::Project("garden".to_string())));
    assert_eq!(
        Tag::from_str("Key:Value"),
        Ok(Tag::Custom("key".to_string(), "value".to_string()))
    );
}

#[test]
fn tag_errors() {
    assert_eq!(Tag::from_str("s:later"), Err(FormatError::BadState));
    assert_eq!(Tag::from_str("est:15"), Err(FormatError::MissingUnit));
    assert_eq!(Tag::from_str("est:xmin"), Err(FormatError::BadNumber));
    assert_eq!(Tag::from_str("rec:+24"), Err(FormatError::MissingUnit));
    assert_eq!(Tag::from_str("rec:23o"), Err(FormatError::MissingUnit));
    assert_eq!(Tag::from_str("rec:d"), Err(FormatError::BadNumber));
    assert_eq!(Tag::from_str("rec:999999999999d"), Err(FormatError::TooLong));
    assert_eq!(Tag::from_str("t:2024-13-01"), Err(FormatError::BadDate));
    assert_eq!(Tag::from_str("n:7d8"), Err(FormatError::BadGuid));
    assert_eq!(Tag::from_str("word"), Err(FormatError::NoTagFound));
    assert_eq!(Tag::from_str(":"), Err(FormatError::NoTagFound));
    assert_eq!(Tag::from_str(""), Err(FormatError::NoTagFound));
}

#[test]
fn tag_takes_what_follows_its_beginning_as_it_is() {
    assert_eq!(Tag::from_str("p:ap:b"), Ok(Tag::Person("ap:b".to_string())));
    assert_eq!(Tag::from_str("p:ap:b").unwrap().to_string(), "p:ap:b");
    assert_eq!(Tag::from_str("@a@b"), Ok(Tag::Context("a@b".to_string())));
    assert_eq!(Tag::from_str("+"), Ok(Tag::Project(String::new())));
    assert_eq!(Tag::from_str("@Work").unwrap().to_string(), "@Work");
    assert_eq!(
        Tag::from_str("a:b:c"),
        Ok(Tag::Custom("a".to_string(), "b:c".to_string()))
    );
    assert_eq!(Tag::from_str("a:"), Ok(Tag::Custom("a".to_string(), String::new())));
    assert_eq!(Tag::from_str(":a"), Ok(Tag::Custom(String::new(), "a".to_string())));
    assert_eq!(Tag::from_str("ÄB:Ö").unwrap().to_string(), "äb:ö");
}

#[test]
fn tag_texts_by_kind() {
    let tags = TagCollection::from_str("@a +b p:c d:e !f @g s:todo +h").unwrap();
    assert_eq!(tags.len(), 8);
    assert!(!tags.is_empty());
    assert_eq!(tags.context_tags(), vec!["@a".to_string(), "@g".to_string()]);
    assert_eq!(tags.project_tags(), vec!["+b".to_string(), "+h".to_string()]);
    assert_eq!(tags.person_tags(), vec!["p:c".to_string()]);
    assert_eq!(tags.custom_tags(), vec!["d:e".to_string()]);
    assert_eq!(tags.oneoff_tags(), vec!["!f".to_string()]);
    assert_eq!(tags.tags().len(), 8);
}

#[test]
fn tag_collection_empty_by_construction_only() {
    let none = TagCollection::new();
    assert!(none.is_empty());
    assert_eq!(none.to_string(), "");
    assert_eq!(none, TagCollection::default());
    assert_eq!(TagCollection::from_str(""), Err(FormatError::EmptyInput));
    assert_eq!(TagCollection::from_str(" \t "), Err(FormatError::EmptyInput));
    assert_eq!(TagCollection::from_str("@a b"), Err(FormatError::NoTagFound));
    assert_eq!(TagCollection::from_str("est:1 @a"), Err(FormatError::MissingUnit));
}

#[test]
fn tag_collection_is_written_with_single_spaces() {
    let tags = TagCollection::from_str("  @a \t +b\n p:c ").unwrap();
    assert_eq!(tags.to_string(), "@a +b p:c");
    assert_eq!(TagCollection::from_str(&tags.to_string()), Ok(tags));
}
