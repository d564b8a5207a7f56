use quickwit_query::compiled::TypedValue;
use quickwit_query::errors::ValueKind;
use quickwit_query::literal::{is_finite_key, parse_bool, parse_i64, parse_u64, JsonLiteral};
use quickwit_query::query_ast::NotNaNf32;

#[test]
fn u64_text_follows_from_str() {
    assert_eq!(parse_u64("0"), Some(0));
    assert_eq!(parse_u64("+42"), Some(42));
    assert_eq!(parse_u64("18446744073709551615"), Some(u64::MAX));
    assert_eq!(parse_u64("18446744073709551616"), None);
    assert_eq!(parse_u64(""), None);
    assert_eq!(parse_u64("+"), None);
    assert_eq!(parse_u64("-1"), None);
    assert_eq!(parse_u64("12a"), None);
    assert_eq!(parse_u64(" 1"), None);
}

#[test]
fn i64_text_follows_from_str() {
    assert_eq!(parse_i64("-7"), Some(-7));
    assert_eq!(parse_i64("+7"), Some(7));
    assert_eq!(parse_i64("-0"), Some(0));
    assert_eq!(parse_i64("9223372036854775807"), Some(i64::MAX));
    assert_eq!(parse_i64("9223372036854775808"), None);
    assert_eq!(parse_i64("-9223372036854775808"), Some(i64::MIN));
    assert_eq!(parse_i64("-9223372036854775809"), None);
    assert_eq!(parse_i64("-"), None);
    assert_eq!(parse_i64("1.5"), None);
}

#[test]
fn bool_text_is_exact() {
    assert_eq!(parse_bool("true"), Some(true));
    assert_eq!(parse_bool("false"), Some(false));
    assert_eq!(parse_bool("True"), None);
    assert_eq!(parse_bool("1"), None);
    assert_eq!(parse_bool(""), None);
}

#[test]
fn finite_keys() {
    assert!(is_finite_key(tantivy::f64_to_u64(1.5)));
    assert!(is_finite_key(tantivy::f64_to_u64(-0.0)));
    assert!(!is_finite_key(tantivy::f64_to_u64(f64::INFINITY)));
    assert!(!is_finite_key(tantivy::f64_to_u64(f64::NEG_INFINITY)));
    assert!(!is_finite_key(tantivy::f64_to_u64(f64::NAN)));
}

#[test]
fn literals_take_the_field_type() {
    let n = JsonLiteral::Number("7".to_string());
    assert!(matches!(n.interpret(ValueKind::U64), Some(TypedValue::U64(7))));
    assert!(matches!(n.interpret(ValueKind::I64), Some(TypedValue::I64(7))));
    assert!(n.interpret(ValueKind::Str).is_none());
    assert!(n.interpret(ValueKind::Bool).is_none());
    let f = JsonLiteral::Number("7.5".to_string());
    assert!(f.interpret(ValueKind::U64).is_none());
    let key = tantivy::f64_to_u64(7.5);
    assert!(matches!(f.interpret(ValueKind::F64), Some(TypedValue::F64(k)) if k == key));
    let inf = JsonLiteral::String("inf".to_string());
    assert!(inf.interpret(ValueKind::F64).is_none());
    let b = JsonLiteral::Bool(true);
    assert!(matches!(b.interpret(ValueKind::Bool), Some(TypedValue::Bool(true))));
    assert!(b.interpret(ValueKind::U64).is_none());
    let s = JsonLiteral::String("false".to_string());
    assert!(matches!(s.interpret(ValueKind::Bool), Some(TypedValue::Bool(false))));
    let ip = JsonLiteral::String("::1".to_string());
    assert!(matches!(ip.interpret(ValueKind::IpAddr), Some(TypedValue::IpAddr(1))));
    let bad_ip = JsonLiteral::String("1.2.3".to_string());
    assert!(bad_ip.interpret(ValueKind::IpAddr).is_none());
    let date = JsonLiteral::String("1970-01-01T00:00:01+01:00".to_string());
    assert!(matches!(date.interpret(ValueKind::Date), Some(TypedValue::Date(-3_599_000_000_000))));
    let bad_date = JsonLiteral::String("2023-01-10".to_string());
    assert!(bad_date.interpret(ValueKind::Date).is_none());
}

#[test]
fn nan_boost_is_refused() {
    assert!(NotNaNf32::from_bits(f32::NAN.to_bits()).is_none());
    assert!(NotNaNf32::from_bits(2.0f32.to_bits()).is_some());
    assert!(NotNaNf32::from_bits(f32::INFINITY.to_bits()).is_some());
}
