use vcontrol::text::{parse_i64, starts_with, str_eq};
use vcontrol::value::{hex_byte_to_ascii, hex_byte_to_version, rotate_bytes, ByteConversion, Value};

#[test]
fn byte_conversions() {
    assert_eq!(hex_byte_to_ascii(&vec![0x41, 0x30, 0x42, 0x7A]), "ABz");
    assert_eq!(hex_byte_to_ascii(&vec![]), "");
    assert_eq!(hex_byte_to_version(&vec![1, 20, 255, 0]), "1.20.255.0");
    assert_eq!(hex_byte_to_version(&vec![]), "");
    assert_eq!(rotate_bytes(&vec![1, 2, 3]), vec![3, 2, 1]);
}

#[test]
fn value_conversions() {
    match Value::ByteArray(vec![0x31, 0x30, 0x32]).convert_bytes(ByteConversion::HexByteToAsciiByte) {
        Ok(Value::String(s)) => assert_eq!(s, "12"),
        other => panic!("unexpected {:?}", other),
    }
    match Value::ByteArray(vec![2, 5]).convert_bytes(ByteConversion::HexByteToVersion) {
        Ok(Value::String(s)) => assert_eq!(s, "2.5"),
        other => panic!("unexpected {:?}", other),
    }
    match Value::ByteArray(vec![1, 2]).convert_bytes(ByteConversion::RotateBytes) {
        Ok(Value::ByteArray(b)) => assert_eq!(b, vec![2, 1]),
        other => panic!("unexpected {:?}", other),
    }
    assert!(matches!(Value::Int(5).convert_bytes(ByteConversion::RotateBytes), Ok(Value::Int(5))));
    assert!(matches!(Value::Int(5).convert_bytes(ByteConversion::HexByteToVersion), Err(Value::Int(5))));
    assert!(matches!(Value::Empty.convert_bytes(ByteConversion::RotateBytes), Err(Value::Empty)));
}

#[test]
fn integers_from_text() {
    assert_eq!(parse_i64("42"), Some(42));
    assert_eq!(parse_i64("-42"), Some(-42));
    assert_eq!(parse_i64("+7"), Some(7));
    assert_eq!(parse_i64("9223372036854775807"), Some(i64::MAX));
    assert_eq!(parse_i64("-9223372036854775808"), Some(i64::MIN));
    assert_eq!(parse_i64("9223372036854775808"), None);
    assert_eq!(parse_i64("-"), None);
    assert_eq!(parse_i64(""), None);
    assert_eq!(parse_i64("1.5"), None);
    assert_eq!(parse_i64(" 1"), None);
}

#[test]
fn text_comparisons() {
    assert!(str_eq("abc", "abc"));
    assert!(!str_eq("abc", "abd"));
    assert!(starts_with("heating", "heat"));
    assert!(!starts_with("he", "heat"));
}
