//! Unit tests for the value model, the containers, and the string helpers.

use webjvm::strutil::{
    decode_utf16_units, encode_utf16_str, i32_to_string, str_ends_with, str_eq, str_find_char,
};
use webjvm::value::{JavaValue, JavaValueVec};

#[test]
fn category_1_round_trip() {
    let mut v = JavaValueVec::new();
    v.push(JavaValue::Int(42));
    assert!(matches!(v.pop(), Some(JavaValue::Int(42))));
    assert_eq!(v.len(), 0);
}

#[test]
fn category_2_round_trip_keeps_sentinel_discipline() {
    let mut v = JavaValueVec::new();
    v.push(JavaValue::Long(7));
    // the value plus its upper-half sentinel
    assert_eq!(v.len(), 2);
    assert!(matches!(v.last(), Some(JavaValue::Internal { is_higher_bits: true, .. })));
    assert!(matches!(v.last_full(), Some(JavaValue::Long(7))));
    assert!(matches!(v.pop_full(), Some(JavaValue::Long(7))));
    assert_eq!(v.len(), 0);
}

#[test]
fn pop_full_takes_category_1_values_singly() {
    let mut v = JavaValueVec::new();
    v.push(JavaValue::Int(1));
    v.push(JavaValue::Double(0x4000_0000_0000_0000));
    assert!(matches!(v.pop_full(), Some(JavaValue::Double(0x4000_0000_0000_0000))));
    assert!(matches!(v.pop_full(), Some(JavaValue::Int(1))));
    assert!(v.pop_full().is_none());
}

#[test]
fn push_exact_skips_the_sentinel() {
    let mut v = JavaValueVec::new();
    v.push_exact(JavaValue::Long(5));
    assert_eq!(v.len(), 1);
}

#[test]
fn reverse_reverses() {
    let mut v = JavaValueVec::new();
    v.push(JavaValue::Int(1));
    v.push(JavaValue::Int(2));
    v.push(JavaValue::Int(3));
    v.reverse();
    assert!(matches!(v.pop(), Some(JavaValue::Int(1))));
    assert!(matches!(v.pop(), Some(JavaValue::Int(2))));
    assert!(matches!(v.pop(), Some(JavaValue::Int(3))));
}

#[test]
fn integral_promotion() {
    assert_eq!(JavaValue::Byte(-3).as_int(), Ok(-3));
    assert_eq!(JavaValue::Short(1000).as_int(), Ok(1000));
    assert_eq!(JavaValue::Char(65).as_int(), Ok(65));
    assert_eq!(JavaValue::Boolean(true).as_int(), Ok(1));
    assert_eq!(JavaValue::Boolean(false).as_int(), Ok(0));
    assert!(JavaValue::Long(1).as_int().is_err());
    assert_eq!(JavaValue::Boolean(true).as_boolean(), Ok(true));
}

#[test]
fn type_defaults_by_descriptor() {
    assert!(matches!(JavaValue::default("I"), Ok(JavaValue::Int(0))));
    assert!(matches!(JavaValue::default("J"), Ok(JavaValue::Long(0))));
    assert!(matches!(JavaValue::default("Z"), Ok(JavaValue::Boolean(false))));
    assert!(matches!(JavaValue::default("Ljava/lang/String;"), Ok(JavaValue::Object(None))));
    assert!(matches!(JavaValue::default("[I"), Ok(JavaValue::Object(None))));
    assert!(JavaValue::default("Q").is_err());
    assert!(JavaValue::default("").is_err());
}

#[test]
fn decimal_rendering() {
    assert_eq!(i32_to_string(0), "0");
    assert_eq!(i32_to_string(5), "5");
    assert_eq!(i32_to_string(-5), "-5");
    assert_eq!(i32_to_string(1234567), "1234567");
    assert_eq!(i32_to_string(i32::MIN), "-2147483648");
    assert_eq!(i32_to_string(i32::MAX), "2147483647");
}

#[test]
fn string_helpers() {
    assert!(str_eq("abc", "abc"));
    assert!(!str_eq("abc", "abd"));
    assert!(!str_eq("abc", "ab"));
    assert_eq!(str_find_char("a(b)", '('), Some(1));
    assert_eq!(str_find_char("ab", '('), None);
    assert!(str_ends_with("Main.class", ".class"));
    assert!(!str_ends_with("Main.clazz", ".class"));
    assert!(!str_ends_with("s", ".class"));
}

#[test]
fn utf16_round_trip() {
    let s = "hello \u{1F600} w\u{00e9}rld";
    let units = encode_utf16_str(s);
    let expected: Vec<u16> = s.encode_utf16().collect();
    assert_eq!(units, expected);
    let back = decode_utf16_units(&units).unwrap();
    assert_eq!(back, s);
}

#[test]
fn utf16_rejects_lone_surrogate() {
    let units = vec![0xD800u16];
    assert!(decode_utf16_units(&units).is_none());
}
