use wavefront_rs::integer::{append_i64, parse};
use wavefront_rs::number::Number;

fn text_of(n: i64) -> String {
    let mut out = String::new();
    append_i64(&mut out, n);
    out
}

#[test]
fn integer_text_of_zero_and_small_values() {
    assert_eq!(text_of(0), "0");
    assert_eq!(text_of(7), "7");
    assert_eq!(text_of(10), "10");
    assert_eq!(text_of(-1), "-1");
    assert_eq!(text_of(1234567890), "1234567890");
    assert_eq!(text_of(-907), "-907");
}

#[test]
fn integer_text_at_the_limits() {
    assert_eq!(text_of(i64::MAX), "9223372036854775807");
    assert_eq!(text_of(i64::MIN), "-9223372036854775808");
}

#[test]
fn integer_text_is_appended_not_replaced() {
    let mut out = String::from("f ");
    append_i64(&mut out, 42);
    assert_eq!(out, "f 42");
}

#[test]
fn integer_parse_reads_signs_and_leading_zeros() {
    assert_eq!(parse("5"), Some(5));
    assert_eq!(parse("+5"), Some(5));
    assert_eq!(parse("-5"), Some(-5));
    assert_eq!(parse("007"), Some(7));
    assert_eq!(parse("-0"), Some(0));
}

#[test]
fn integer_parse_at_the_limits() {
    assert_eq!(parse("9223372036854775807"), Some(i64::MAX));
    assert_eq!(parse("9223372036854775808"), None);
    assert_eq!(parse("-9223372036854775808"), Some(i64::MIN));
    assert_eq!(parse("-9223372036854775809"), None);
    assert_eq!(parse("99999999999999999999999999"), None);
    assert_eq!(parse("00000000000000000000000001"), Some(1));
}

#[test]
fn integer_parse_refuses_what_is_no_integer() {
    for text in ["", "+", "-", "--1", "+-1", "1.0", "1e3", "1 ", " 1", "1_000", "0x10", "a", "1/2"] {
        assert_eq!(parse(text), None, "{:?}", text);
    }
}

#[test]
fn integer_parse_agrees_with_the_standard_library() {
    let texts = [
        "0", "1", "-1", "+1", "42", "-42", "007", "-007", "+0", "-0", "", "+", "-", "++1", "1+",
        "9223372036854775807", "9223372036854775808", "-9223372036854775808",
        "-9223372036854775809", "18446744073709551616", "1.5", "١٢٣", "１２", "1 2", "12a",
    ];
    for text in texts {
        assert_eq!(parse(text), text.parse::<i64>().ok(), "{:?}", text);
    }
}

#[test]
fn integer_round_trip_on_sample_values() {
    for n in [0, 1, -1, 9, 10, -10, 99, 100, 12345, -98765, i64::MAX, i64::MIN, i64::MAX - 1, i64::MIN + 1] {
        assert_eq!(parse(&text_of(n)), Some(n));
    }
}

#[test]
fn number_accepts_decimals() {
    for text in ["0", "1", "1.0", "-1.5", "+2.25", "1.", ".5", "-.5", "007.100", "1e5", "1E5", "1e+5", "1e-5", "1.5e10", ".5e-3", "1.e2", "123456789012345678901234567890"] {
        let n = Number::parse(text);
        assert!(n.is_some(), "{:?}", text);
        assert_eq!(n.unwrap().as_str(), text);
    }
}

#[test]
fn number_accepts_special_values_in_any_case() {
    for text in ["inf", "INF", "Inf", "infinity", "Infinity", "INFINITY", "nan", "NaN", "NAN", "+inf", "-inf", "-infinity", "+nan", "-nan"] {
        assert!(Number::parse(text).is_some(), "{:?}", text);
    }
}

#[test]
fn number_refuses_malformed_text() {
    for text in ["", "+", "-", ".", "+.", "e5", ".e5", "1e", "1e+", "1e-", "1e5.5", "1..2", "1.2.3", "--1", "+-1", "1 ", " 1", "1,5", "1_0", "0x10", "in", "infinit", "infinityy", "na", "nanx", "inf1", "1inf", "abc", "1f", "1d"] {
        assert!(Number::parse(text).is_none(), "{:?}", text);
    }
}

#[test]
fn number_agrees_with_the_standard_library() {
    let texts = [
        "0", "-0", "+0", "1", "1.0", "1.", ".1", ".", "", "+", "-", "1e1", "1e", "e1", "1e+1",
        "1e-1", "1e+-1", "1E1", "1.5E-7", "+.5", "-.5e2", "inf", "-inf", "+inf", "infinity",
        "-Infinity", "iNf", "nan", "NaN", "-nan", "+NAN", "nanny", "in", "infin", "0x1p3", "1_0",
        "1f32", "١", "１", "1e1e1", "1.2.3", " 1", "1 ", "1e400", "1e-400",
        "179769313486231570000000000000000000000000000000000", "0.000000000000000000000000001",
        "..", "+-1", "-+1", "++1", "1-", "1+", "e", "E", "ee", ".e1", "1.e", "1.e+5", "infinity1",
        "INFINITY", "inFinIty", "inf inity",
    ];
    for text in texts {
        assert_eq!(Number::parse(text).is_some(), text.parse::<f64>().is_ok(), "{:?}", text);
    }
}

#[test]
fn number_keeps_its_literal_and_its_value() {
    let n = Number::parse("4.0").unwrap();
    assert_eq!(n.as_str(), "4.0");
    assert_eq!(n.as_str().parse::<f64>(), Ok(4.0));
    let m = n.clone();
    assert_eq!(m, n);
    assert_ne!(Number::parse("4").unwrap(), n);
}

#[test]
fn number_is_always_a_literal() {
    for text in ["0", "-1.5e3", "NaN", "+inf"] {
        assert!(Number::parse(text).unwrap().is_literal());
    }
}
