use geocodec::codec::{vec2_from_json, vec2_from_ron};
use geocodec::decode::DecodeError;
use geocodec::model::{Real, Vec2};
use geocodec::vec2seq::{vec2_from_seq_value, vec2_to_seq_text, vec2_to_seq_value};

fn lit(s: &str) -> Real {
    Real(s.to_string())
}

#[test]
fn wrapper_sequence_text() {
    let v = Vec2::new(lit("1.5"), lit("2.5"));
    assert_eq!(vec2_to_seq_text(&v), "[ 1.5, 2.5 ]");
}

#[test]
fn wrapper_value_round_trip() {
    let v = Vec2::new(lit("10.5"), lit("22.3"));
    let tree = vec2_to_seq_value(&v);
    let back = vec2_from_seq_value(&tree).expect("canonical sequence decodes");
    assert_eq!(back, v);
}

#[test]
fn wrapper_text_round_trip_both_formats() {
    let v = Vec2::new(lit("10.5"), lit("22.3"));
    let text = vec2_to_seq_text(&v);
    assert_eq!(vec2_from_json(&text).unwrap(), v);
    assert_eq!(vec2_from_ron(&text).unwrap(), v);
}

#[test]
fn wrapper_wrong_length_in_ron() {
    match vec2_from_ron("[1.0]") {
        Err(DecodeError::InvalidLength(n)) => assert_eq!(n, 1),
        other => panic!("expected invalid length, got {:?}", other),
    }
    match vec2_from_ron("[1.0, 2.0, 3.0]") {
        Err(DecodeError::InvalidLength(n)) => assert_eq!(n, 3),
        other => panic!("expected invalid length, got {:?}", other),
    }
}

#[test]
fn wrapper_type_mismatch() {
    match vec2_from_json("{\"x\": 1.0, \"y\": 2.0}") {
        Err(DecodeError::TypeMismatch(f)) => assert_eq!(f, "Vec2"),
        other => panic!("expected a type mismatch, got {:?}", other),
    }
    match vec2_from_json("[\"a\", 2.0]") {
        Err(DecodeError::TypeMismatch(f)) => assert_eq!(f, "Vec2"),
        other => panic!("expected a type mismatch, got {:?}", other),
    }
}

#[test]
fn wrapper_syntax_error() {
    assert!(matches!(vec2_from_json("[1.0,"), Err(DecodeError::Syntax)));
}
