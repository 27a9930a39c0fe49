use nophp::ast::{map_get, Value};
use nophp::modules::NpType;
use nophp::text::{i64_decimal, parse_i64, replace_newline_escapes, text_eq, text_less};

#[test]
fn parse_i64_accepts_signed_decimals() {
    assert_eq!(parse_i64("0"), Some(0));
    assert_eq!(parse_i64("+5"), Some(5));
    assert_eq!(parse_i64("-0"), Some(0));
    assert_eq!(parse_i64("9223372036854775807"), Some(i64::MAX));
    assert_eq!(parse_i64("-9223372036854775808"), Some(i64::MIN));
    assert_eq!(parse_i64("007"), Some(7));
}

#[test]
fn parse_i64_rejects_what_str_parse_rejects() {
    for bad in ["", "-", "+", " 1", "1 ", "1_000", "+-1", "12a", "9223372036854775808", "-9223372036854775809", "99999999999999999999999"] {
        assert_eq!(parse_i64(bad), None, "{bad}");
        assert!(bad.parse::<i64>().is_err());
    }
}

#[test]
fn parse_i64_agrees_with_std() {
    for good in ["1", "-17", "+0042", "1234567890123"] {
        assert_eq!(parse_i64(good), good.parse::<i64>().ok());
    }
}

#[test]
fn decimal_text_of_numbers() {
    assert_eq!(i64_decimal(0), "0");
    assert_eq!(i64_decimal(-42), "-42");
    assert_eq!(i64_decimal(i64::MIN), "-9223372036854775808");
    assert_eq!(i64_decimal(i64::MAX), "9223372036854775807");
}

#[test]
fn decimal_roundtrip() {
    for n in [0, 1, -1, 10, -100, 123456789, i64::MIN, i64::MAX] {
        assert_eq!(parse_i64(&i64_decimal(n)), Some(n));
    }
}

#[test]
fn newline_escapes_are_replaced_left_to_right() {
    assert_eq!(replace_newline_escapes("a\\nb"), "a\nb");
    assert_eq!(replace_newline_escapes("\\\\n"), "\\\n");
    assert_eq!(replace_newline_escapes("\\"), "\\");
    assert_eq!(replace_newline_escapes("plain"), "plain");
    assert_eq!(replace_newline_escapes("\\n\\n"), "\n\n");
    assert_eq!(replace_newline_escapes("x\\n\\n"), "x\\n\\n".replace("\\n", "\n"));
}

#[test]
fn np_type_to_string() {
    assert_eq!(NpType::String("a\\nb".to_string()).to_string(), "a\nb");
    assert_eq!(NpType::Number(-3).to_string(), "-3");
}

#[test]
fn text_comparisons() {
    assert!(text_eq("abc", "abc"));
    assert!(!text_eq("abc", "abd"));
    assert!(!text_eq("ab", "abc"));
    assert!(text_less("ab", "abc"));
    assert!(text_less("abc", "abd"));
    assert!(!text_less("abd", "abc"));
    assert!(!text_less("abc", "abc"));
    assert!(text_less("", "a"));
    assert!(text_less("Z", "a"));
}

#[test]
fn map_get_finds_the_first_entry() {
    let m = vec![
        ("a".to_string(), Value::Bool(true)),
        ("b".to_string(), Value::Null),
        ("a".to_string(), Value::Bool(false)),
    ];
    assert!(matches!(map_get(&m, "a"), Some(Value::Bool(true))));
    assert!(matches!(map_get(&m, "b"), Some(Value::Null)));
    assert!(map_get(&m, "c").is_none());
}

#[test]
fn value_accessors() {
    let v = Value::Object(vec![("k".to_string(), Value::String("s".to_string()))]);
    assert_eq!(v.get("k").and_then(|x| x.as_str()), Some("s"));
    assert!(v.as_array().is_none());
    assert!(v.as_object().is_some());
    assert!(Value::Array(vec![]).get("k").is_none());
    let copy = v.duplicate();
    assert!(matches!(copy.get("k"), Some(Value::String(s)) if s == "s"));
}
