use orgflow::drafts::{extract_tags_from_text, note_from_draft, remove_tags_from_text};
use orgflow::tags::guid::Guid;
use orgflow::{Date, FormatError, Note, Tag, TagCollection};

fn lines(case: &[&str]) -> Vec<String> {
    case.iter().map(|&s| s.to_string()).collect()
}

#[test]
fn note_roundtrip() {
    let cases = vec![
        vec![
            "# Title",
            "> cre:2022-03-03 mod:2021-03-01 guid:a1a2a3a4-b1b2-c1c2-d1d2-d3d4d5d6d7d8 @aid +project",
            "- This is the content",
            "- A lot of data",
        ],
        vec![
            "### Title",
            "> cre:2022-03-03 mod:2021-03-01 guid:a1a2a3a4-b1b2-c1c2-d1d2-d3d4d5d6d7d8 @aid +project",
            "- This is the content",
            "- A lot of data",
        ],
        vec![
            "# Title",
            "> cre:2022-03-03 mod:2021-03-01 guid:a1a2a3a4-b1b2-c1c2-d1d2-d3d4d5d6d7d8",
            "- This is the content",
        ],
    ];
    for case in cases {
        let case: Vec<String> = case.iter().map(|&s| s.to_string()).collect();
        let note = Note::from_vec(case.clone());
        println!("{:?} v {:?}", case, &note);
        let roundtrip: Vec<String> = note.unwrap().to_lines();
        assert_eq!(case, roundtrip);
    }
}

#[test]
fn note_roundtrip_bad() {
    let cases = vec![
        // No content
        vec!["# Title", "> cre:2022-03-03 mod:2021-03-01 @aid +project"],
        // no creation date
        vec![
            "# Title",
            "> mod:2021-03-01 @aid +project",
            "- This is the content",
        ],
        // no lvl info
        vec![
            "Title",
            "> cre:2022-03-03 mod:2021-03-01 @aid +project",
            "- This is the content",
            "- A lot of data",
        ],
        // wrong title lvl format
        vec![
            ">>> Title",
            "> cre:2022-03-03 mod:2021-03-01 @aid +project",
            "- This is the content",
            "- A lot of data",
        ],
        // bad month
        vec![
            "# Title",
            "> cre:2022-13-03 mod:2021-03-01 @aid +project",
            "- This is the content",
            "- A lot of data",
        ],
        // wrong guid format
        vec![
            "# Title",
            "> cre:2022-03-03 mod:2021-03-01 guid:7d8",
            "- This is the content",
        ],
    ];
    for case in cases {
        let case: Vec<String> = case.iter().map(|&s| s.to_string()).collect();
        let note = Note::from_vec(case.clone());
        assert!(note.is_err(), "{:?}", case);
    }
}

const META: &str = "> cre:2022-03-03 mod:2021-03-01 guid:a1a2a3a4-b1b2-c1c2-d1d2-d3d4d5d6d7d8";

#[test]
fn note_needs_a_line_of_content() {
    assert_eq!(Note::from_vec(lines(&["# Title", META])), Err(FormatError::NoteTooShort));
    assert_eq!(Note::from_vec(lines(&[])), Err(FormatError::NoteTooShort));
    let note = Note::from_vec(lines(&["# Title", META, "content"])).unwrap();
    assert!(note.tags().is_empty());
    assert_eq!(note.tags(), &TagCollection::new());
    assert_eq!(note.content(), &vec!["content".to_string()]);
}

#[test]
fn note_fields() {
    let note = Note::from_vec(lines(&[
        "##   Shopping list  ",
        "> cre:2022-03-03 mod:2021-03-01 guid:a1a2a3a4-b1b2-c1c2-d1d2-d3d4d5d6d7d8 @shop !today",
        "  - milk",
        "",
        "\t- eggs",
    ]))
    .unwrap();
    assert_eq!(note.level(), 2);
    assert_eq!(note.title(), "Shopping list");
    assert_eq!(note.creation_date(), &Date::from_str("2022-03-03").unwrap());
    assert_eq!(note.modification_date(), &Date::from_str("2021-03-01").unwrap());
    assert_eq!(
        note.guid(),
        &Guid::from_str("a1a2a3a4-b1b2-c1c2-d1d2-d3d4d5d6d7d8").unwrap()
    );
    assert_eq!(
        note.tags(),
        &TagCollection::from_tags(vec![
            Tag::Context("shop".to_string()),
            Tag::OneOff("today".to_string())
        ])
    );
    assert_eq!(
        note.content(),
        &vec!["  - milk".to_string(), String::new(), "\t- eggs".to_string()]
    );
    assert_eq!(note.to_lines()[0], "## Shopping list");
}

#[test]
fn note_errors_each_in_its_case() {
    let body = "text";
    assert_eq!(Note::from_vec(lines(&["Title", META, body])), Err(FormatError::BadHeading));
    assert_eq!(Note::from_vec(lines(&[" Title", META, body])), Err(FormatError::BadHeading));
    assert_eq!(Note::from_vec(lines(&["#Title", META, body])), Err(FormatError::BadHeading));
    assert_eq!(Note::from_vec(lines(&["#", META, body])), Err(FormatError::BadHeading));
    assert_eq!(
        Note::from_vec(lines(&["# T", "cre:2022-03-03 mod:2021-03-01", body])),
        Err(FormatError::BadMetadata)
    );
    assert_eq!(
        Note::from_vec(lines(&["# T", "> 2022-03-03 mod:2021-03-01", body])),
        Err(FormatError::BadMetadata)
    );
    assert_eq!(
        Note::from_vec(lines(&["# T", "> cre:2022-03-03", body])),
        Err(FormatError::BadMetadata)
    );
    assert_eq!(
        Note::from_vec(lines(&["# T", "> cre:2022-03-03 mod:2021-03-01", body])),
        Err(FormatError::BadMetadata)
    );
    assert_eq!(
        Note::from_vec(lines(&["# T", "> cre:2022-03-33 mod:2021-03-01", body])),
        Err(FormatError::BadDate)
    );
    assert_eq!(
        Note::from_vec(lines(&["# T", "> cre:2022-03-03 mod:2021-02-30 guid:x", body])),
        Err(FormatError::BadDate)
    );
    assert_eq!(
        Note::from_vec(lines(&["# T", "> cre:2022-03-03 mod:2021-03-01 guid:7d8", body])),
        Err(FormatError::BadGuid)
    );
    assert_eq!(
        Note::from_vec(lines(&[
            "# T",
            "> cre:2022-03-03 mod:2021-03-01 guid:a1a2a3a4-b1b2-c1c2-d1d2-d3d4d5d6d7d8 word",
            body
        ])),
        Err(FormatError::NoTagFound)
    );
}

#[test]
fn note_with_an_empty_title() {
    let note = Note::from_vec(lines(&["# ", META, "text"])).unwrap();
    assert_eq!(note.title(), "");
    assert_eq!(note.level(), 1);
    assert_eq!(note.to_lines(), lines(&["# ", META, "text"]));
}

#[test]
fn note_by_construction_may_lack_content() {
    let note = Note::with("  A title ".to_string(), Vec::new());
    assert_eq!(note.level(), 3);
    assert_eq!(note.title(), "  A title ");
    assert!(note.tags().is_empty());
    assert_eq!(note.creation_date(), &Date::now());
    assert_eq!(note.modification_date(), &Date::now());
    let written = note.to_lines();
    assert_eq!(written.len(), 2);
    assert_eq!(written[0], "### A title");
    assert!(written[1].starts_with("> cre:"));
    assert!(!written[1].ends_with(' '));
    // what is written cannot be read back: a line of content is missing
    assert_eq!(Note::from_vec(written), Err(FormatError::NoteTooShort));
    assert_ne!(note.guid(), Note::new().guid());
}

#[test]
fn note_constructors() {
    let content = vec!["one".to_string(), "two".to_string()];
    let note = Note::with_content(content.clone());
    assert_eq!(note.title(), "");
    assert_eq!(note.content(), &content);
    let tags = TagCollection::from_str("@a +b").unwrap();
    let tagged = Note::with_tags("T".to_string(), content.clone(), tags.clone());
    assert_eq!(tagged.tags(), &tags);
    let written = tagged.to_lines();
    assert!(written[1].ends_with(" @a +b"));
    assert_eq!(Note::from_vec(written), Ok(tagged));
    assert_eq!(Note::new().content().len(), 0);
    assert_eq!(Note::default().level(), 3);
}

#[test]
fn note_from_its_parts() {
    let note = Note::from_parts(
        2,
        "Title".to_string(),
        Date::from_str("2022-03-03").unwrap(),
        Date::from_str("2021-03-01").unwrap(),
        Guid::from_str("a1a2a3a4-b1b2-c1c2-d1d2-d3d4d5d6d7d8").unwrap(),
        TagCollection::new(),
        vec!["text".to_string()],
    );
    assert_eq!(note.to_lines(), lines(&["## Title", META, "text"]));
    assert_eq!(Note::from_vec(note.to_lines()), Ok(note));
}

#[test]
fn draft_tags_are_taken_out() {
    assert_eq!(
        extract_tags_from_text("Plan the trip +travel with p:anna soon"),
        vec![Tag::Project("travel".to_string()), Tag::Person("anna".to_string())]
    );
    assert_eq!(
        remove_tags_from_text("Plan  the trip +travel with p:anna soon"),
        "Plan the trip with soon"
    );
    assert_eq!(extract_tags_from_text("no tags here"), Vec::<Tag>::new());
    assert_eq!(remove_tags_from_text("@a +b"), "");
}

#[test]
fn draft_becomes_a_note() {
    let content = vec![
        "first line @home".to_string(),
        "   ".to_string(),
        "+garden".to_string(),
        "last line".to_string(),
    ];
    let note = note_from_draft("Weekend +plans", &content).unwrap();
    assert_eq!(note.title(), "Weekend");
    assert_eq!(note.level(), 3);
    assert_eq!(
        note.content(),
        &vec!["first line".to_string(), "last line".to_string()]
    );
    assert_eq!(
        note.tags(),
        &TagCollection::from_tags(vec![
            Tag::Project("plans".to_string()),
            Tag::Context("home".to_string()),
            Tag::Project("garden".to_string()),
        ])
    );
}

#[test]
fn draft_without_words_is_no_note() {
    assert_eq!(note_from_draft("", &Vec::new()), None);
    assert_eq!(note_from_draft("  ", &vec![" ".to_string(), String::new()]), None);
    let untitled = note_from_draft("", &vec!["text".to_string()]).unwrap();
    assert_eq!(untitled.title(), "Untitled Note");
    let only_tags = note_from_draft("@a", &Vec::new()).unwrap();
    assert_eq!(only_tags.title(), "Untitled Note");
    assert_eq!(only_tags.tags().len(), 1);
}
