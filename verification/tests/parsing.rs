use cfgloader::{parse_scalar, parse_vec, CfgError, ParseCause};

#[test]
fn scalar_u16_is_parsed() {
    let v: u16 = parse_scalar::<u16>("PORT", "8080".to_string()).unwrap();
    assert_eq!(v, 8080);
}

#[test]
fn scalar_parse_error_carries_key_value_and_type() {
    let e = parse_scalar::<u16>("PORT", "80a".to_string()).unwrap_err();
    assert_eq!(
        e,
        CfgError::ParseError {
            key: "PORT".to_string(),
            value: "80a".to_string(),
            ty: "u16".to_string(),
            source: ParseCause::InvalidDigit,
        }
    );
}

#[test]
fn list_round_trip_drops_empty_segments_and_trims() {
    let v: Vec<String> = parse_vec::<String>("L", "a, b ,,c".to_string(), ",").unwrap();
    assert_eq!(v, vec!["a".to_string(), "b".to_string(), "c".to_string()]);
}

#[test]
fn empty_delimiter_yields_empty_list() {
    let v: Vec<String> = parse_vec::<String>("L", "a,b".to_string(), "").unwrap();
    assert!(v.is_empty());
}

#[test]
fn scalar_text_is_parsed_as_it_stands() {
    assert_eq!(parse_scalar::<String>("K", " a ".to_string()), Ok(" a ".to_string()));
    assert_eq!(parse_scalar::<bool>("K", "true".to_string()), Ok(true));
    assert_eq!(parse_scalar::<char>("K", "x".to_string()), Ok('x'));
    assert_eq!(parse_scalar::<i32>("K", "-17".to_string()), Ok(-17));
    let e = parse_scalar::<u16>("K", " 80 ".to_string()).unwrap_err();
    assert_eq!(
        e,
        CfgError::ParseError {
            key: "K".to_string(),
            value: " 80 ".to_string(),
            ty: "u16".to_string(),
            source: ParseCause::InvalidDigit,
        }
    );
}

#[test]
fn scalar_parse_errors_name_the_cause_of_each_type() {
    let cause = |e: CfgError| match e {
        CfgError::ParseError { source, .. } => source,
        _ => panic!("no parse error"),
    };
    assert_eq!(cause(parse_scalar::<u8>("K", "300".to_string()).unwrap_err()), ParseCause::PosOverflow);
    assert_eq!(cause(parse_scalar::<i8>("K", "-300".to_string()).unwrap_err()), ParseCause::NegOverflow);
    assert_eq!(cause(parse_scalar::<u8>("K", "".to_string()).unwrap_err()), ParseCause::Empty);
    assert_eq!(cause(parse_scalar::<bool>("K", "yes".to_string()).unwrap_err()), ParseCause::InvalidBool);
    assert_eq!(cause(parse_scalar::<char>("K", "".to_string()).unwrap_err()), ParseCause::EmptyChar);
    assert_eq!(cause(parse_scalar::<char>("K", "xy".to_string()).unwrap_err()), ParseCause::TooManyChars);
}

#[test]
fn list_keeps_order_and_duplicates() {
    let v = parse_vec::<u32>("L", "3,1,3,2,1".to_string(), ",").unwrap();
    assert_eq!(v, vec![3, 1, 3, 2, 1]);
}

#[test]
fn list_of_nothing_but_delimiters_is_empty() {
    let v = parse_vec::<u32>("L", " , ,,".to_string(), ",").unwrap();
    assert!(v.is_empty());
    let v = parse_vec::<u32>("L", "".to_string(), ",").unwrap();
    assert!(v.is_empty());
}

#[test]
fn list_with_a_long_delimiter() {
    let v = parse_vec::<String>("L", "a :: b::c:d".to_string(), "::").unwrap();
    assert_eq!(v, vec!["a".to_string(), "b".to_string(), "c:d".to_string()]);
}

#[test]
fn list_reports_the_first_item_that_fails() {
    let e = parse_vec::<u8>("L", "1, x, 300, y".to_string(), ",").unwrap_err();
    assert_eq!(
        e,
        CfgError::ParseError {
            key: "L".to_string(),
            value: "x".to_string(),
            ty: "u8".to_string(),
            source: ParseCause::InvalidDigit,
        }
    );
    let e = parse_vec::<u8>("L", "1, 300, x".to_string(), ",").unwrap_err();
    assert_eq!(
        e,
        CfgError::ParseError {
            key: "L".to_string(),
            value: "300".to_string(),
            ty: "u8".to_string(),
            source: ParseCause::PosOverflow,
        }
    );
}

#[test]
fn empty_delimiter_never_yields_the_whole_text() {
    for raw in ["", "a", "a,b", "  ", "12"] {
        let v = parse_vec::<String>("L", raw.to_string(), "").unwrap();
        assert_eq!(v, Vec::<String>::new());
    }
    let v = parse_vec::<u8>("L", "not a number".to_string(), "").unwrap();
    assert!(v.is_empty());
}

#[test]
fn list_items_are_clean_texts() {
    let cases = [
        ("a, b ,,c", ","),
        (" , ,x y, ,", ","),
        ("a::b:::c::", "::"),
        ("  lone  ", ";"),
        ("aXbXXc", "X"),
        ("\u{00A0}é |\t| ü\u{3000}", "|"),
    ];
    for (raw, sep) in cases {
        for item in cfgloader::parse::split_items(raw, sep) {
            assert!(!item.is_empty());
            assert_eq!(item, item.trim());
            assert!(!item.contains(sep));
        }
    }
    assert_eq!(cfgloader::parse::split_items("a::b:::c::", "::"), vec!["a", "b", ":c"]);
}
