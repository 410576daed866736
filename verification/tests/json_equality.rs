use glimta::json::{entries_eq, f64_bits_eq, json_eq, F64Bits, JsonMap, JsonNumber, JsonValue};
use glimta::model::Blind;
use glimta::transport::is_error_status;

fn num(n: u64) -> JsonValue {
    JsonValue::Number(JsonNumber::PosInt(n))
}

fn float(v: f64) -> JsonValue {
    JsonValue::Number(JsonNumber::Float(F64Bits(v.to_bits())))
}

fn obj(entries: Vec<(&str, JsonValue)>) -> JsonValue {
    JsonValue::Object(JsonMap(entries.into_iter().map(|(k, v)| (k.to_string(), v)).collect()))
}

#[test]
fn objects_compare_as_maps_whatever_the_entry_order() {
    let a = obj(vec![("5851", num(42)), ("5712", num(10))]);
    let b = obj(vec![("5712", num(10)), ("5851", num(42))]);
    assert!(json_eq(&a, &b));
    assert_eq!(a, b);

    let nested_a = obj(vec![("3311", JsonValue::Array(vec![a.clone()])), ("9003", num(1))]);
    let nested_b = obj(vec![("9003", num(1)), ("3311", JsonValue::Array(vec![b.clone()]))]);
    assert_eq!(nested_a, nested_b);
}

#[test]
fn objects_with_other_keys_or_values_differ() {
    let a = obj(vec![("5851", num(42)), ("5712", num(10))]);
    assert_ne!(a, obj(vec![("5851", num(42))]));
    assert_ne!(a, obj(vec![("5851", num(42)), ("5712", num(11))]));
    assert_ne!(a, obj(vec![("5851", num(42)), ("5712", num(10)), ("5850", num(1))]));
    assert_ne!(obj(vec![]), obj(vec![("5850", num(1))]));
    assert_eq!(obj(vec![]), obj(vec![]));
}

#[test]
fn arrays_compare_item_by_item() {
    let a = JsonValue::Array(vec![num(1), num(2)]);
    assert_eq!(a, JsonValue::Array(vec![num(1), num(2)]));
    assert_ne!(a, JsonValue::Array(vec![num(2), num(1)]));
    assert_ne!(a, JsonValue::Array(vec![num(1)]));
}

#[test]
fn floats_compare_as_f64() {
    assert!(f64_bits_eq(0.0f64.to_bits(), (-0.0f64).to_bits()));
    assert_eq!(float(0.0), float(-0.0));
    assert_eq!(float(1.5), float(1.5));
    assert_ne!(float(1.5), float(2.0));
    assert!(!f64_bits_eq(f64::NAN.to_bits(), f64::NAN.to_bits()));
    assert_ne!(F64Bits(f64::NAN.to_bits()), F64Bits(f64::NAN.to_bits()));
    assert_ne!(num(1), float(1.0));
    assert_ne!(JsonValue::Number(JsonNumber::NegInt(-1)), float(-1.0));
}

#[test]
fn resources_with_reordered_extra_attributes_are_equal() {
    let first = JsonMap(vec![("9002".to_string(), num(7)), ("9054".to_string(), num(0))]);
    let second = JsonMap(vec![("9054".to_string(), num(0)), ("9002".to_string(), num(7))]);
    assert!(entries_eq(&first.0, &second.0));
    let a = Blind { id: 0, current_position: F64Bits(0.0f64.to_bits()), extra: first };
    let b = Blind { id: 0, current_position: F64Bits((-0.0f64).to_bits()), extra: second };
    assert_eq!(a, b);
}

#[test]
fn error_statuses_are_client_and_server_errors() {
    assert!(!is_error_status(0x41));
    assert!(!is_error_status(0x44));
    assert!(!is_error_status(0x45));
    assert!(!is_error_status(0x5F));
    assert!(is_error_status(0x80));
    assert!(is_error_status(0x84));
    assert!(is_error_status(0xA0));
    assert!(is_error_status(0xFF));
}
