use cfgloader::{CfgError, Env, ParseCause, Rule};

fn env_of(pairs: &[(&str, &str)]) -> Env {
    let mut env = Env::new();
    for (k, v) in pairs {
        env.set(k.to_string(), v.to_string());
    }
    env
}

fn rule(key: &str, default: Option<&str>, required: bool, delimiter: &str) -> Rule {
    Rule {
        key: key.to_string(),
        default: default.map(|d| d.to_string()),
        required,
        delimiter: delimiter.to_string(),
    }
}

#[test]
fn new_rule_is_optional_without_default_and_cuts_at_commas() {
    assert_eq!(Rule::new("PORT"), rule("PORT", None, false, ","));
}

#[test]
fn scalar_from_source_equals_the_parse_of_its_text() {
    let env = env_of(&[("PORT", "8080"), ("NAME", " app "), ("ON", "true")]);
    assert_eq!(rule("PORT", None, false, ",").bind_scalar::<u16>(&env), Ok(8080));
    assert_eq!(rule("PORT", Some("1"), true, ",").bind_scalar::<u16>(&env), Ok(8080));
    assert_eq!(rule("NAME", None, false, ",").bind_scalar::<String>(&env), Ok(" app ".to_string()));
    assert_eq!(rule("ON", None, true, ",").bind_scalar::<bool>(&env), Ok(true));
}

#[test]
fn scalar_from_source_that_is_no_value_is_a_parse_error() {
    let env = env_of(&[("PORT", "80 80")]);
    assert_eq!(
        rule("PORT", Some("1"), false, ",").bind_scalar::<u16>(&env),
        Err(CfgError::ParseError {
            key: "PORT".to_string(),
            value: "80 80".to_string(),
            ty: "u16".to_string(),
            source: ParseCause::InvalidDigit,
        })
    );
}

#[test]
fn required_without_default_and_without_value_is_missing() {
    let env = env_of(&[("BLANK", "  \t"), ("EMPTY", "")]);
    for key in ["ABSENT", "BLANK", "EMPTY"] {
        assert_eq!(
            rule(key, None, true, ",").bind_scalar::<String>(&env),
            Err(CfgError::MissingEnv(key.to_string()))
        );
        assert_eq!(
            rule(key, None, true, ",").bind_list::<u8>(&env),
            Err(CfgError::MissingEnv(key.to_string()))
        );
    }
}

#[test]
fn default_stands_in_for_an_absent_value() {
    let env = env_of(&[("BLANK", "   ")]);
    assert_eq!(rule("ABSENT", Some("8080"), false, ",").bind_scalar::<u16>(&env), Ok(8080));
    assert_eq!(rule("BLANK", Some("8080"), false, ",").bind_scalar::<u16>(&env), Ok(8080));
    assert_eq!(
        rule("ABSENT", Some("sqlite://test.db"), false, ",").bind_scalar::<String>(&env),
        Ok("sqlite://test.db".to_string())
    );
}

#[test]
fn default_wins_over_required() {
    let env = Env::new();
    assert_eq!(rule("ABSENT", Some("7"), true, ",").bind_scalar::<u8>(&env), Ok(7));
    assert_eq!(rule("ABSENT", Some("7,8"), true, ",").bind_list::<u8>(&env), Ok(vec![7, 8]));
}

#[test]
fn malformed_default_is_a_parse_error() {
    let env = Env::new();
    assert_eq!(
        rule("PORT", Some("http"), false, ",").bind_scalar::<u16>(&env),
        Err(CfgError::ParseError {
            key: "PORT".to_string(),
            value: "http".to_string(),
            ty: "u16".to_string(),
            source: ParseCause::InvalidDigit,
        })
    );
    assert_eq!(
        rule("PORTS", Some("1;x"), false, ";").bind_list::<u16>(&env),
        Err(CfgError::ParseError {
            key: "PORTS".to_string(),
            value: "x".to_string(),
            ty: "u16".to_string(),
            source: ParseCause::InvalidDigit,
        })
    );
}

#[test]
fn optional_without_default_gets_the_empty_value() {
    let env = env_of(&[("BLANK", " ")]);
    assert_eq!(rule("ABSENT", None, false, ",").bind_scalar::<String>(&env), Ok(String::new()));
    assert_eq!(rule("ABSENT", None, false, ",").bind_scalar::<u32>(&env), Ok(0));
    assert_eq!(rule("ABSENT", None, false, ",").bind_scalar::<bool>(&env), Ok(false));
    assert_eq!(rule("BLANK", None, false, ",").bind_scalar::<i64>(&env), Ok(0));
    assert_eq!(rule("ABSENT", None, false, ",").bind_list::<String>(&env), Ok(vec![]));
}

#[test]
fn list_from_source_is_cut_at_the_delimiter() {
    let env = env_of(&[("FEATURES", "auth, logging ,,metrics"), ("PORTS", "1|2|3")]);
    assert_eq!(
        rule("FEATURES", Some("foo,bar"), false, ",").bind_list::<String>(&env),
        Ok(vec!["auth".to_string(), "logging".to_string(), "metrics".to_string()])
    );
    assert_eq!(rule("PORTS", None, false, "|").bind_list::<u8>(&env), Ok(vec![1, 2, 3]));
    assert_eq!(rule("PORTS", None, false, "").bind_list::<u8>(&env), Ok(vec![]));
}

#[test]
fn list_default_is_cut_like_a_value() {
    let env = Env::new();
    assert_eq!(
        rule("FEATURES", Some("foo,bar"), false, ",").bind_list::<String>(&env),
        Ok(vec!["foo".to_string(), "bar".to_string()])
    );
}
