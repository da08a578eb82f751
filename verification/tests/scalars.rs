use orgflow::tags::guid::Guid;
use orgflow::{Date, FormatError, Priority};

#[test]
fn dates_roundtrip() {
    let expected = [
        "2024-01-09".to_string(),
        "2002-12-14".to_string(),
        "2012-11-02".to_string(),
        "1928-01-21".to_string(),
        "1983-11-23".to_string(),
    ];
    for val in expected {
        let result: String = Date::from_str(&val).unwrap().to_string();
        assert_eq!(result, val)
    }
}

#[test]
fn dates_roundtrip_bad() {
    let expected = [
        "2029-14-09".to_string(),
        "2024/01/09".to_string(),
        "2024".to_string(),
    ];
    for val in expected {
        let result = Date::from_str(&val);
        assert!(result.is_err())
    }
}

#[test]
fn priority_roundtrip() {
    let expected = ["(A)".to_string(), "(C)".to_string(), "(B)".to_string()];

    for val in expected {
        let result: String = Priority::from_str(&val).unwrap().to_string();
        assert_eq!(val, result)
    }
}

#[test]
fn priority_roundtrip_bad() {
    let expected = ["".to_string(), "(D)".to_string()];

    for val in expected {
        let result = Priority::from_str(&val);
        assert!(result.is_err())
    }
}

#[test]
fn guid_roundtrip() {
    let expected = ["a1a2a3a4-b1b2-c1c2-d1d2-d3d4d5d6d7d8".to_string()];
    for val in expected {
        let result: String = Guid::from_str(&val).unwrap().to_string();
        assert_eq!(result, val)
    }
}

#[test]
fn guid_roundtrip_bad() {
    let expected = [
        "2029-14-09".to_string(),
        "2024/01/09".to_string(),
        "2024".to_string(),
    ];
    for val in expected {
        let result = Guid::from_str(&val);
        assert!(result.is_err())
    }
}

#[test]
fn priority_values_and_error() {
    assert_eq!(Priority::from_str("(A)"), Ok(Priority::A));
    assert_eq!(Priority::from_str("(B)"), Ok(Priority::B));
    assert_eq!(Priority::from_str("(C)"), Ok(Priority::C));
    assert_eq!(Priority::from_str("(D)"), Err(FormatError::BadPriority));
    assert_eq!(Priority::from_str("A"), Err(FormatError::BadPriority));
    assert_eq!(Priority::from_str(" (A)"), Err(FormatError::BadPriority));
}

#[test]
fn date_rejects_days_that_do_not_exist() {
    assert_eq!(Date::from_str("2023-02-29"), Err(FormatError::BadDate));
    assert!(Date::from_str("2024-02-29").is_ok());
    assert_eq!(Date::from_str("1900-02-29"), Err(FormatError::BadDate));
    assert!(Date::from_str("2000-02-29").is_ok());
    assert_eq!(Date::from_str("2024-04-31"), Err(FormatError::BadDate));
    assert_eq!(Date::from_str("2024-00-10"), Err(FormatError::BadDate));
    assert_eq!(Date::from_str("2024-01-00"), Err(FormatError::BadDate));
    assert_eq!(Date::from_str(""), Err(FormatError::BadDate));
}

#[test]
fn date_is_written_with_leading_zeros() {
    assert_eq!(Date::from_str("0987-06-05").unwrap().to_string(), "0987-06-05");
    assert_eq!(Date::from_str("0001-01-01").unwrap().to_string(), "0001-01-01");
    assert_eq!(Date::from_str("9999-12-31").unwrap().to_string(), "9999-12-31");
    // a shorter month is read, and written in two digits
    assert_eq!(Date::from_str("2024-1-9").unwrap().to_string(), "2024-01-09");
}

#[test]
fn date_of_today_reads_back() {
    let today = Date::now();
    let text = today.to_string();
    assert_eq!(text.len(), 10);
    assert_eq!(Date::from_str(&text), Ok(today));
    assert_eq!(Date::default(), today);
}

#[test]
fn equal_dates_compare_equal() {
    let a = Date::from_str("2025-11-12").unwrap();
    let b = Date::from_str("2025-11-12").unwrap();
    let c = Date::from_str("2022-11-12").unwrap();
    assert_eq!(a, b);
    assert_ne!(a, c);
}

#[test]
fn guid_is_written_in_lower_case() {
    let upper = "A1A2A3A4-B1B2-C1C2-D1D2-D3D4D5D6D7D8";
    let g = Guid::from_str(upper).unwrap();
    assert_eq!(g.to_string(), "a1a2a3a4-b1b2-c1c2-d1d2-d3d4d5d6d7d8");
    assert_eq!(g, Guid::from_str("a1a2a3a4-b1b2-c1c2-d1d2-d3d4d5d6d7d8").unwrap());
    assert_eq!(
        Guid::from_str("00000000-0000-0000-0000-000000000000").unwrap().to_string(),
        "00000000-0000-0000-0000-000000000000"
    );
    assert_eq!(
        Guid::from_str("0123abcd-4567-89ef-fedc-ba9876543210").unwrap().to_string(),
        "0123abcd-4567-89ef-fedc-ba9876543210"
    );
}

#[test]
fn guid_requires_the_hyphenated_form() {
    assert_eq!(
        Guid::from_str("a1a2a3a4b1b2c1c2d1d2d3d4d5d6d7d8"),
        Err(FormatError::BadGuid)
    );
    assert_eq!(
        Guid::from_str("{a1a2a3a4-b1b2-c1c2-d1d2-d3d4d5d6d7d8}"),
        Err(FormatError::BadGuid)
    );
    assert_eq!(
        Guid::from_str("a1a2a3a4-b1b2-c1c2-d1d2-d3d4d5d6d7dg"),
        Err(FormatError::BadGuid)
    );
    assert_eq!(
        Guid::from_str("a1a2a3a4-b1b2-c1c2-d1d2+d3d4d5d6d7d8"),
        Err(FormatError::BadGuid)
    );
    assert_eq!(Guid::from_str(""), Err(FormatError::BadGuid));
}

#[test]
fn fresh_guids_are_marked_as_random() {
    for _ in 0..64 {
        let text = Guid::new().to_string();
        let chars: Vec<char> = text.chars().collect();
        assert_eq!(chars[14], '4', "{}", text);
        assert!(matches!(chars[19], '8' | '9' | 'a' | 'b'), "{}", text);
    }
}

#[test]
fn fresh_guids_differ_and_read_back() {
    let a = Guid::new();
    let b = Guid::new();
    assert_ne!(a, b);
    assert_eq!(Guid::from_str(&a.to_string()), Ok(a));
    assert_eq!(a.to_string().len(), 36);
}
