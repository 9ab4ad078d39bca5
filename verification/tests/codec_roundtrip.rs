use geocodec::codec::{decode_json, decode_ron, vec2_from_json};
use geocodec::decode::{decode_point, DecodeError};
use geocodec::encode::{encode_json, encode_ron};
use geocodec::laws::point_to_value;
use geocodec::model::{Matrix4Remote, Point, Real, Square, Vec2, Vec3, Vector4Remote};

fn lit(s: &str) -> Real {
    Real(s.to_string())
}

fn v2(x: &str, y: &str) -> Vec2 {
    Vec2::new(lit(x), lit(y))
}

fn identity4() -> Matrix4Remote {
    let col = |x: &str, y: &str, z: &str, w: &str| Vector4Remote {
        x: lit(x),
        y: lit(y),
        z: lit(z),
        w: lit(w),
    };
    Matrix4Remote {
        x: col("1", "0", "0", "0"),
        y: col("0", "1", "0", "0"),
        z: col("0", "0", "1", "0"),
        w: col("0", "0", "0", "1"),
    }
}

fn sample_point() -> Point {
    Point {
        x: 10,
        y: 12,
        my_square: Square {
            width: lit("33.45"),
            height: lit("12.35"),
        },
        my_vec: vec![v2("10.5", "22.3"), v2("100.5", "220.3")],
        my_map: vec![(1, v2("1000.5", "202.3"))],
        v3: Vec3 {
            x: lit("10.4"),
            y: lit("5.6"),
            z: lit("33.2"),
        },
        m4: identity4(),
    }
}

fn assert_non_transient_eq(a: &Point, b: &Point) {
    assert_eq!(a.my_square, b.my_square);
    assert_eq!(a.my_vec, b.my_vec);
    assert_eq!(a.my_map, b.my_map);
    assert_eq!(a.v3, b.v3);
    assert_eq!(a.m4, b.m4);
}

#[test]
fn s1_identity_matrix_point_json_round_trip() {
    let p = sample_point();
    let text = encode_json(&p);
    let q = decode_json(text.as_str()).expect("the encoded record decodes");
    assert_eq!(q.x, 0);
    assert_eq!(q.y, 0);
    assert_non_transient_eq(&p, &q);
}

#[test]
fn ron_round_trip() {
    let p = sample_point();
    let text = encode_ron(&p);
    let q = decode_ron(text.as_str()).expect("the encoded record decodes");
    assert_eq!(q.x, 0);
    assert_eq!(q.y, 0);
    assert_non_transient_eq(&p, &q);
}

#[test]
fn value_level_round_trip() {
    let p = sample_point();
    assert!(p.wf_check());
    let tree = point_to_value(&p);
    let q = decode_point(&tree).expect("the canonical tree decodes");
    assert_eq!(q.x, 0);
    assert_eq!(q.y, 0);
    assert_non_transient_eq(&p, &q);
}

#[test]
fn wf_check_rejects_bad_number_text() {
    let mut p = sample_point();
    assert!(p.wf_check());
    p.my_square.width = lit("not a number");
    assert!(!p.wf_check());
    let mut q = sample_point();
    q.my_map = vec![(1, v2("1.5", "2.5")), (1, v2("3.5", "4.5"))];
    assert!(!q.wf_check());
}

#[test]
fn transient_exclusion_in_text() {
    let p = sample_point();
    let json = encode_json(&p);
    let ron = encode_ron(&p);
    // The transient pair never appears as a top-level key.
    assert!(!json.contains("\n  \"x\":"));
    assert!(!json.contains("\n  \"y\":"));
    assert!(!ron.contains("\n  x:"));
    assert!(!ron.contains("\n  y:"));
    // The text does not depend on the transient values at all.
    let mut moved = sample_point();
    moved.x = -7;
    moved.y = 99;
    assert_eq!(json, encode_json(&moved));
    assert_eq!(ron, encode_ron(&moved));
}

#[test]
fn transient_reset() {
    let mut p = sample_point();
    p.x = 123;
    p.y = -456;
    let q = decode_json(encode_json(&p).as_str()).unwrap();
    assert_eq!(q.x, 0);
    assert_eq!(q.y, 0);
}

#[test]
fn emitted_json_is_valid_for_serde() {
    let p = sample_point();
    let text = encode_json(&p);
    let v: serde_json::Value = serde_json::from_str(&text).expect("valid JSON");
    assert_eq!(v["my_square"]["width"].as_f64().unwrap(), 33.45);
    assert_eq!(v["my_map"]["1"]["x"].as_f64().unwrap(), 1000.5);
    assert!(v.get("x").is_none());
    assert!(v.get("y").is_none());
}

#[test]
fn emitted_ron_is_valid_for_ron() {
    let p = sample_point();
    let text = encode_ron(&p);
    let v: ron::Value = ron::from_str(&text).expect("valid RON");
    match v {
        ron::Value::Map(_) => {}
        other => panic!("unexpected RON shape: {:?}", other),
    }
}

#[test]
fn s6_cross_format_agreement() {
    let p = sample_point();
    let from_json = decode_json(encode_json(&p).as_str()).unwrap();
    let from_ron = decode_ron(encode_ron(&p).as_str()).unwrap();
    assert_eq!(from_json, from_ron);
}

#[test]
fn s5_empty_containers_round_trip() {
    let mut p = sample_point();
    p.my_vec = vec![];
    p.my_map = vec![];
    let q = decode_json(encode_json(&p).as_str()).unwrap();
    assert!(q.my_vec.is_empty());
    assert!(q.my_map.is_empty());
    assert_non_transient_eq(&p, &q);
    let r = decode_ron(encode_ron(&p).as_str()).unwrap();
    assert_non_transient_eq(&p, &r);
}

#[test]
fn s2_missing_field_m4() {
    let text = r#"{
        "my_square": { "width": 33.45, "height": 12.35 },
        "my_vec": [],
        "my_map": {},
        "v3": { "x": 10.4, "y": 5.6, "z": 33.2 }
    }"#;
    match decode_json(text) {
        Err(DecodeError::MissingField(f)) => {
            assert_eq!(f, "m4");
        }
        other => panic!("expected a missing field, got {:?}", other),
    }
    let e = decode_json(text).unwrap_err();
    assert_eq!(e.describe(), "missing field m4");
}

#[test]
fn s4_unknown_extra_field_ignored() {
    let p = sample_point();
    let text = encode_json(&p);
    // Splice one extra top-level key in.
    let spliced = text.replacen('{', "{\n  \"foo\": 42,", 1);
    let q = decode_json(&spliced).expect("unknown fields are ignored");
    assert_non_transient_eq(&p, &q);
}

#[test]
fn s3_wrong_vec2_length() {
    match vec2_from_json("[1.0]") {
        Err(DecodeError::InvalidLength(n)) => assert_eq!(n, 1),
        other => panic!("expected invalid length, got {:?}", other),
    }
    match vec2_from_json("[]") {
        Err(DecodeError::InvalidLength(n)) => assert_eq!(n, 0),
        other => panic!("expected invalid length, got {:?}", other),
    }
    match vec2_from_json("[1.0, 2.0, 3.0]") {
        Err(DecodeError::InvalidLength(n)) => assert_eq!(n, 3),
        other => panic!("expected invalid length, got {:?}", other),
    }
    let w = vec2_from_json("[1.5, 2.5]").unwrap();
    assert_eq!(w.x.0, "1.5");
    assert_eq!(w.y.0, "2.5");
}

#[test]
fn syntax_error_is_reported() {
    assert!(matches!(decode_json("not json"), Err(DecodeError::Syntax)));
    assert!(matches!(decode_ron("(unclosed"), Err(DecodeError::Syntax)));
}

#[test]
fn type_mismatch_is_reported() {
    let text = r#"{
        "my_square": 5,
        "my_vec": [],
        "my_map": {},
        "v3": { "x": 1, "y": 2, "z": 3 },
        "m4": { "x": {"x":1,"y":0,"z":0,"w":0}, "y": {"x":0,"y":1,"z":0,"w":0},
                "z": {"x":0,"y":0,"z":1,"w":0}, "w": {"x":0,"y":0,"z":0,"w":1} }
    }"#;
    match decode_json(text) {
        Err(DecodeError::TypeMismatch(f)) => assert_eq!(f, "my_square"),
        other => panic!("expected a type mismatch, got {:?}", other),
    }
}

#[test]
fn ron_integer_map_keys_are_accepted() {
    let text = r#"(
        my_square: ( width: 33.45, height: 12.35 ),
        my_vec: [ ( x: 10.5, y: 22.3 ) ],
        my_map: { 1: ( x: 1000.5, y: 202.3 ), 2: ( x: 7.5, y: 8.5 ) },
        v3: ( x: 10.4, y: 5.6, z: 33.2 ),
        m4: ( x: ( x: 1, y: 0, z: 0, w: 0 ), y: ( x: 0, y: 1, z: 0, w: 0 ),
              z: ( x: 0, y: 0, z: 1, w: 0 ), w: ( x: 0, y: 0, z: 0, w: 1 ) ),
    )"#;
    let p = decode_ron(text).expect("native RON with integer keys decodes");
    assert_eq!(p.my_map.len(), 2);
    assert_eq!(p.my_map[0].0, 1);
    assert_eq!(p.my_map[0].1.x.0, "1000.5");
    assert_eq!(p.my_map[1].0, 2);
}

#[test]
fn compact_and_pretty_inputs_agree() {
    let p = sample_point();
    let pretty = encode_json(&p);
    let compact = pretty.replace('\n', "").replace("  ", " ");
    let a = decode_json(&pretty).unwrap();
    let b = decode_json(&compact).unwrap();
    assert_eq!(a, b);
}

#[test]
fn float_fidelity_bit_for_bit() {
    let values: [f32; 6] = [33.45, 12.35, 0.1, -220.3, 16777216.0, 1.0e-7];
    for v in values {
        let text = format!("{}", v);
        let mut p = sample_point();
        p.my_square.width = Real(text.clone());
        let q = decode_json(encode_json(&p).as_str()).unwrap();
        let back: f32 = q.my_square.width.0.parse().unwrap();
        assert_eq!(v.to_bits(), back.to_bits(), "round trip of {}", text);
        let r = decode_ron(encode_ron(&p).as_str()).unwrap();
        let back_ron: f32 = r.my_square.width.0.parse().unwrap();
        assert_eq!(v.to_bits(), back_ron.to_bits(), "RON round trip of {}", text);
    }
}

#[test]
fn largest_map_key_round_trips() {
    // Mapping order is not part of the contract: compare entries by key.
    let mut p = sample_point();
    p.my_map = vec![(4294967295, v2("1.5", "2.5")), (0, v2("3.5", "4.5"))];
    let q = decode_json(encode_json(&p).as_str()).unwrap();
    let mut expected = p.my_map.clone();
    expected.sort_by_key(|e| e.0);
    let mut got = q.my_map.clone();
    got.sort_by_key(|e| e.0);
    assert_eq!(expected, got);
    let r = decode_ron(encode_ron(&p).as_str()).unwrap();
    let mut got_ron = r.my_map.clone();
    got_ron.sort_by_key(|e| e.0);
    assert_eq!(expected, got_ron);
}
