use cfgloader::{CfgError, ParseCause};

#[test]
fn missing_key_in_words() {
    let e = CfgError::MissingEnv("APP_NAME".to_string());
    assert_eq!(e.message(), "missing required env: APP_NAME");
    assert_eq!(e.source_message(), None);
}

#[test]
fn parse_error_in_words() {
    let e = CfgError::ParseError {
        key: "PORT".to_string(),
        value: "80a".to_string(),
        ty: "u16".to_string(),
        source: ParseCause::InvalidDigit,
    };
    assert_eq!(e.message(), "failed to parse env PORT value `80a` into u16");
    assert_eq!(e.source_message(), Some("invalid digit found in string".to_string()));
}

#[test]
fn load_error_in_words() {
    let e = CfgError::LoadError {
        msg: "failed to load .env file".to_string(),
        source: "permission denied".to_string(),
    };
    assert_eq!(e.message(), "failed to load env: failed to load .env file");
    assert_eq!(e.source_message(), Some("permission denied".to_string()));
}

#[test]
fn causes_read_as_the_standard_errors_do() {
    assert_eq!(ParseCause::Empty.message(), "".parse::<u8>().unwrap_err().to_string());
    assert_eq!(ParseCause::InvalidDigit.message(), "x".parse::<u8>().unwrap_err().to_string());
    assert_eq!(ParseCause::PosOverflow.message(), "256".parse::<u8>().unwrap_err().to_string());
    assert_eq!(ParseCause::NegOverflow.message(), "-129".parse::<i8>().unwrap_err().to_string());
    assert_eq!(ParseCause::InvalidBool.message(), "x".parse::<bool>().unwrap_err().to_string());
    assert_eq!(ParseCause::EmptyChar.message(), "".parse::<char>().unwrap_err().to_string());
    assert_eq!(ParseCause::TooManyChars.message(), "ab".parse::<char>().unwrap_err().to_string());
    assert_eq!(ParseCause::Invalid.message(), "invalid value");
}
