use cfgloader::number::parse_int;
use cfgloader::{ParseCause, Scalar};

#[test]
fn unsigned_integers_are_read() {
    assert_eq!(<u8 as Scalar>::parse("0"), Ok(0));
    assert_eq!(<u8 as Scalar>::parse("255"), Ok(255));
    assert_eq!(<u8 as Scalar>::parse("+7"), Ok(7));
    assert_eq!(<u8 as Scalar>::parse("007"), Ok(7));
    assert_eq!(<u16 as Scalar>::parse("65535"), Ok(65535));
    assert_eq!(<u32 as Scalar>::parse("4294967295"), Ok(u32::MAX));
    assert_eq!(<u64 as Scalar>::parse("18446744073709551615"), Ok(u64::MAX));
    assert_eq!(
        <u128 as Scalar>::parse("340282366920938463463374607431768211455"),
        Ok(u128::MAX)
    );
    assert_eq!(<usize as Scalar>::parse("12"), Ok(12));
}

#[test]
fn signed_integers_are_read() {
    assert_eq!(<i8 as Scalar>::parse("-128"), Ok(-128));
    assert_eq!(<i8 as Scalar>::parse("127"), Ok(127));
    assert_eq!(<i8 as Scalar>::parse("-0"), Ok(0));
    assert_eq!(<i16 as Scalar>::parse("-32768"), Ok(i16::MIN));
    assert_eq!(<i32 as Scalar>::parse("+2147483647"), Ok(i32::MAX));
    assert_eq!(<i64 as Scalar>::parse("-9223372036854775808"), Ok(i64::MIN));
    assert_eq!(
        <i128 as Scalar>::parse("-170141183460469231731687303715884105728"),
        Ok(i128::MIN)
    );
    assert_eq!(<isize as Scalar>::parse("-5"), Ok(-5));
}

#[test]
fn integer_refusals_name_their_cause() {
    assert_eq!(<u8 as Scalar>::parse(""), Err(ParseCause::Empty));
    assert_eq!(<u8 as Scalar>::parse("+"), Err(ParseCause::InvalidDigit));
    assert_eq!(<u8 as Scalar>::parse("-"), Err(ParseCause::InvalidDigit));
    assert_eq!(<i8 as Scalar>::parse("-"), Err(ParseCause::InvalidDigit));
    assert_eq!(<u8 as Scalar>::parse("-1"), Err(ParseCause::InvalidDigit));
    assert_eq!(<u8 as Scalar>::parse(" 1"), Err(ParseCause::InvalidDigit));
    assert_eq!(<u8 as Scalar>::parse("1 "), Err(ParseCause::InvalidDigit));
    assert_eq!(<u8 as Scalar>::parse("1_0"), Err(ParseCause::InvalidDigit));
    assert_eq!(<u8 as Scalar>::parse("256"), Err(ParseCause::PosOverflow));
    assert_eq!(<i8 as Scalar>::parse("128"), Err(ParseCause::PosOverflow));
    assert_eq!(<i8 as Scalar>::parse("-129"), Err(ParseCause::NegOverflow));
    assert_eq!(<u8 as Scalar>::parse("2560x"), Err(ParseCause::PosOverflow));
    assert_eq!(<u8 as Scalar>::parse("25x6"), Err(ParseCause::InvalidDigit));
    assert_eq!(<u8 as Scalar>::parse("٣"), Err(ParseCause::InvalidDigit));
}

fn std_cause(kind: &std::num::IntErrorKind) -> ParseCause {
    match kind {
        std::num::IntErrorKind::Empty => ParseCause::Empty,
        std::num::IntErrorKind::InvalidDigit => ParseCause::InvalidDigit,
        std::num::IntErrorKind::PosOverflow => ParseCause::PosOverflow,
        std::num::IntErrorKind::NegOverflow => ParseCause::NegOverflow,
        _ => ParseCause::Invalid,
    }
}

#[test]
fn integers_agree_with_the_standard_parser() {
    let samples = [
        "", "0", "1", "-1", "+1", "+", "-", "--1", "+-1", "00", "000128", "127", "128", "-128",
        "-129", "255", "256", "32767", "32768", "-32768", "-32769", "65535", "65536", "2147483647",
        "2147483648", "-2147483648", "-2147483649", "4294967295", "4294967296",
        "9223372036854775807", "9223372036854775808", "-9223372036854775808",
        "-9223372036854775809", "18446744073709551615", "18446744073709551616",
        "170141183460469231731687303715884105727", "170141183460469231731687303715884105728",
        "-170141183460469231731687303715884105728", "-170141183460469231731687303715884105729",
        "340282366920938463463374607431768211455", "340282366920938463463374607431768211456",
        "99999999999999999999999999999999999999999999", "-99999999999999999999999999999999999999999",
        "12a", "a12", "1 2", " 12", "12 ", "1.5", "0x10", "1e3", "9999999999x", "999x", "٣", "１２",
        "+0", "-0", "+00", "-000",
    ];
    for s in samples {
        assert_eq!(<u8 as Scalar>::parse(s), s.parse::<u8>().map_err(|e| std_cause(e.kind())), "u8 {s:?}");
        assert_eq!(<u16 as Scalar>::parse(s), s.parse::<u16>().map_err(|e| std_cause(e.kind())), "u16 {s:?}");
        assert_eq!(<u32 as Scalar>::parse(s), s.parse::<u32>().map_err(|e| std_cause(e.kind())), "u32 {s:?}");
        assert_eq!(<u64 as Scalar>::parse(s), s.parse::<u64>().map_err(|e| std_cause(e.kind())), "u64 {s:?}");
        assert_eq!(<u128 as Scalar>::parse(s), s.parse::<u128>().map_err(|e| std_cause(e.kind())), "u128 {s:?}");
        assert_eq!(<usize as Scalar>::parse(s), s.parse::<usize>().map_err(|e| std_cause(e.kind())), "usize {s:?}");
        assert_eq!(<i8 as Scalar>::parse(s), s.parse::<i8>().map_err(|e| std_cause(e.kind())), "i8 {s:?}");
        assert_eq!(<i16 as Scalar>::parse(s), s.parse::<i16>().map_err(|e| std_cause(e.kind())), "i16 {s:?}");
        assert_eq!(<i32 as Scalar>::parse(s), s.parse::<i32>().map_err(|e| std_cause(e.kind())), "i32 {s:?}");
        assert_eq!(<i64 as Scalar>::parse(s), s.parse::<i64>().map_err(|e| std_cause(e.kind())), "i64 {s:?}");
        assert_eq!(<i128 as Scalar>::parse(s), s.parse::<i128>().map_err(|e| std_cause(e.kind())), "i128 {s:?}");
        assert_eq!(<isize as Scalar>::parse(s), s.parse::<isize>().map_err(|e| std_cause(e.kind())), "isize {s:?}");
    }
}

#[test]
fn parse_int_hands_out_sign_and_magnitude() {
    let m = parse_int("-12", true, 128, 127).unwrap();
    assert!(m.negative);
    assert_eq!(m.magnitude, 12);
    let m = parse_int("+12", false, 0, 255).unwrap();
    assert!(!m.negative);
    assert_eq!(m.magnitude, 12);
    assert_eq!(parse_int("-12", false, 0, 255).err(), Some(ParseCause::InvalidDigit));
}

#[test]
fn booleans_are_true_or_false_exactly() {
    assert_eq!(<bool as Scalar>::parse("true"), Ok(true));
    assert_eq!(<bool as Scalar>::parse("false"), Ok(false));
    for s in ["", "True", "TRUE", "1", "0", "yes", " true", "true ", "truee", "fals"] {
        assert_eq!(<bool as Scalar>::parse(s), Err(ParseCause::InvalidBool));
        assert!(s.parse::<bool>().is_err());
    }
}

#[test]
fn characters_are_texts_of_one_character() {
    assert_eq!(<char as Scalar>::parse("a"), Ok('a'));
    assert_eq!(<char as Scalar>::parse("é"), Ok('é'));
    assert_eq!(<char as Scalar>::parse(""), Err(ParseCause::EmptyChar));
    assert_eq!(<char as Scalar>::parse("ab"), Err(ParseCause::TooManyChars));
}

#[test]
fn strings_pass_through() {
    assert_eq!(<String as Scalar>::parse(" a b "), Ok(" a b ".to_string()));
    assert_eq!(<String as Scalar>::parse(""), Ok(String::new()));
}

#[test]
fn empty_values_are_the_defaults_of_the_types() {
    assert_eq!(<String as Scalar>::empty(), String::default());
    assert_eq!(<bool as Scalar>::empty(), bool::default());
    assert_eq!(<char as Scalar>::empty(), char::default());
    assert_eq!(<u8 as Scalar>::empty(), u8::default());
    assert_eq!(<i64 as Scalar>::empty(), i64::default());
    assert_eq!(<u128 as Scalar>::empty(), u128::default());
    assert_eq!(<isize as Scalar>::empty(), isize::default());
}

#[test]
fn names_are_the_names_of_the_types() {
    assert_eq!(<String as Scalar>::name(), "alloc::string::String");
    assert_eq!(<bool as Scalar>::name(), "bool");
    assert_eq!(<char as Scalar>::name(), "char");
    assert_eq!(<u8 as Scalar>::name(), "u8");
    assert_eq!(<u16 as Scalar>::name(), "u16");
    assert_eq!(<u32 as Scalar>::name(), "u32");
    assert_eq!(<u64 as Scalar>::name(), "u64");
    assert_eq!(<u128 as Scalar>::name(), "u128");
    assert_eq!(<usize as Scalar>::name(), "usize");
    assert_eq!(<i8 as Scalar>::name(), "i8");
    assert_eq!(<i16 as Scalar>::name(), "i16");
    assert_eq!(<i32 as Scalar>::name(), "i32");
    assert_eq!(<i64 as Scalar>::name(), "i64");
    assert_eq!(<i128 as Scalar>::name(), "i128");
    assert_eq!(<isize as Scalar>::name(), "isize");
}
