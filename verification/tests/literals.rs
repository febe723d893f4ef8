use rsclp::literal::{
    is_boolean_literal, is_floating_point_literal, is_integer_literal, parse_decimal,
    parse_signed, parse_unsigned,
};
use rsclp::text::{find_char, from_chars, to_chars};
use rsclp::{FPointValue, OptionValue};

const SAMPLES: [&str; 76] = [
    "", " ", "+", "-", ".", "+.", "-.", "e", "e5", "E+5", "0", "7", "007", "-0", "+0", "-12",
    "+12", "12 ", " 12", "1_000", "0x10", "1e5", "1E5", "1e+5", "1e-5", "1e", "1e+", "1e-",
    "1e5.0", "1.e5", ".5e5", ".e5", "5.", ".5", "5.5", "5.5.5", "123.3", "-123.3", "+.5",
    "-5.", "--5", "+-5", "inf", "INF", "Inf", "-inf", "+inf", "infinity", "INFINITY",
    "InFiNiTy", "-infinity", "infinit", "infinityy", "nan", "NaN", "NAN", "-nan", "+nan",
    "nano", "na", "true", "false", "True", "TRUE", "truee", "tru", "yes", "1f", "f1",
    "170141183460469231731687303715884105727", "170141183460469231731687303715884105728",
    "-170141183460469231731687303715884105728", "-170141183460469231731687303715884105729",
    "340282366920938463463374607431768211455", "340282366920938463463374607431768211456",
    "99999999999999999999999999999999999999999999999999",
];

#[test]
fn boolean_grammar_agrees_with_std() {
    for s in SAMPLES {
        assert_eq!(is_boolean_literal(&to_chars(s)), s.parse::<bool>().is_ok(), "{:?}", s);
        assert_eq!(bool::from_text(s), s.parse::<bool>().ok(), "{:?}", s);
    }
}

#[test]
fn integer_grammar_agrees_with_std() {
    for s in SAMPLES {
        assert_eq!(is_integer_literal(&to_chars(s)), s.parse::<i128>().is_ok(), "{:?}", s);
        assert_eq!(i128::from_text(s), s.parse::<i128>().ok(), "{:?}", s);
        assert_eq!(i64::from_text(s), s.parse::<i64>().ok(), "{:?}", s);
        assert_eq!(i32::from_text(s), s.parse::<i32>().ok(), "{:?}", s);
        assert_eq!(i16::from_text(s), s.parse::<i16>().ok(), "{:?}", s);
        assert_eq!(i8::from_text(s), s.parse::<i8>().ok(), "{:?}", s);
        assert_eq!(u128::from_text(s), s.parse::<u128>().ok(), "{:?}", s);
        assert_eq!(u64::from_text(s), s.parse::<u64>().ok(), "{:?}", s);
        assert_eq!(u32::from_text(s), s.parse::<u32>().ok(), "{:?}", s);
        assert_eq!(u16::from_text(s), s.parse::<u16>().ok(), "{:?}", s);
        assert_eq!(u8::from_text(s), s.parse::<u8>().ok(), "{:?}", s);
    }
}

#[test]
fn narrow_integer_bounds_agree_with_std() {
    for s in [
        "127", "128", "-128", "-129", "255", "256", "32767", "32768", "-32768", "-32769",
        "65535", "65536", "2147483647", "2147483648", "-2147483648", "-2147483649",
        "4294967295", "4294967296", "9223372036854775807", "9223372036854775808",
        "-9223372036854775808", "-9223372036854775809", "18446744073709551615",
        "18446744073709551616", "+255", "-0", "+0", "000000000000000000000000000000000000000001",
    ] {
        assert_eq!(i8::from_text(s), s.parse::<i8>().ok(), "{:?}", s);
        assert_eq!(u8::from_text(s), s.parse::<u8>().ok(), "{:?}", s);
        assert_eq!(i16::from_text(s), s.parse::<i16>().ok(), "{:?}", s);
        assert_eq!(u16::from_text(s), s.parse::<u16>().ok(), "{:?}", s);
        assert_eq!(i32::from_text(s), s.parse::<i32>().ok(), "{:?}", s);
        assert_eq!(u32::from_text(s), s.parse::<u32>().ok(), "{:?}", s);
        assert_eq!(i64::from_text(s), s.parse::<i64>().ok(), "{:?}", s);
        assert_eq!(u64::from_text(s), s.parse::<u64>().ok(), "{:?}", s);
        assert_eq!(i128::from_text(s), s.parse::<i128>().ok(), "{:?}", s);
        assert_eq!(u128::from_text(s), s.parse::<u128>().ok(), "{:?}", s);
    }
}

#[test]
fn floating_point_grammar_agrees_with_std() {
    for s in SAMPLES {
        assert_eq!(
            is_floating_point_literal(&to_chars(s)),
            s.parse::<f64>().is_ok(),
            "{:?}",
            s
        );
        assert_eq!(
            is_floating_point_literal(&to_chars(s)),
            s.parse::<f32>().is_ok(),
            "{:?}",
            s
        );
    }
}

#[test]
fn floating_point_value_keeps_its_text() {
    let value = FPointValue::from_text("2.5E-10").unwrap();
    assert_eq!(value.as_str(), "2.5E-10");
    assert_eq!(value.as_str().parse::<f64>().unwrap(), 2.5e-10);
    assert_eq!(FPointValue::from_text("two"), None);
}

#[test]
fn string_value_is_the_text() {
    assert_eq!(String::from_text("any text, 12"), Some("any text, 12".to_string()));
    assert_eq!(String::from_text(""), Some(String::new()));
}

#[test]
fn parse_decimal_gives_sign_and_magnitude() {
    assert_eq!(parse_decimal(&to_chars("-12")), Some((true, 12)));
    assert_eq!(parse_decimal(&to_chars("+12")), Some((false, 12)));
    assert_eq!(parse_decimal(&to_chars("12")), Some((false, 12)));
    assert_eq!(parse_decimal(&to_chars("-0")), Some((true, 0)));
    assert_eq!(
        parse_decimal(&to_chars("340282366920938463463374607431768211455")),
        Some((false, u128::MAX))
    );
    assert_eq!(parse_decimal(&to_chars("340282366920938463463374607431768211456")), None);
    assert_eq!(parse_decimal(&to_chars("12a")), None);
    assert_eq!(parse_decimal(&to_chars("-")), None);
    assert_eq!(parse_decimal(&to_chars("")), None);
}

#[test]
fn parse_signed_and_unsigned_respect_their_bounds() {
    assert_eq!(parse_signed(&to_chars("-5"), -5, 5), Some(-5));
    assert_eq!(parse_signed(&to_chars("-6"), -5, 5), None);
    assert_eq!(parse_signed(&to_chars("5"), -5, 5), Some(5));
    assert_eq!(parse_signed(&to_chars("6"), -5, 5), None);
    assert_eq!(parse_signed(&to_chars("3"), 4, 5), None);
    assert_eq!(parse_signed(&to_chars("-3"), -9, -4), None);
    assert_eq!(parse_signed(&to_chars("-4"), -9, -4), Some(-4));
    assert_eq!(parse_signed(&to_chars("0"), 1, 0), None);
    assert_eq!(parse_unsigned(&to_chars("6"), 6), Some(6));
    assert_eq!(parse_unsigned(&to_chars("7"), 6), None);
    assert_eq!(parse_unsigned(&to_chars("-0"), 6), None);
}

#[test]
fn text_helpers() {
    let cs = to_chars("-c=väl=ue");
    assert_eq!(cs, vec!['-', 'c', '=', 'v', 'ä', 'l', '=', 'u', 'e']);
    assert_eq!(find_char(&cs, '='), Some(2));
    assert_eq!(find_char(&cs, 'x'), None);
    assert_eq!(from_chars(&cs, 3, 9), "väl=ue");
    assert_eq!(from_chars(&cs, 3, 3), "");
}
