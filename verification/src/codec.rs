use vstd::prelude::*;

use crate::decode::{DecodeError, ErrV, decode_point, point_of};
use crate::model::{Point, PointV, point_wf};
use crate::value::{Val, ValV, val_view};

verus! {

#[verifier::external_type_specification]
#[verifier::external_body]
pub struct ExJsonValue(serde_json::Value);

#[verifier::external_type_specification]
#[verifier::external_body]
pub struct ExRonValue(ron::Value);

#[verifier::external_type_specification]
#[verifier::external_body]
pub struct ExRonNumber(ron::value::Number);

/// The tree the JSON grammar gives to a text, when the text is
/// well-formed JSON; a function of the text alone.
pub uninterp spec fn json_tree(s: Seq<char>) -> Option<ValV>;

/// The tree the RON grammar gives to a text, when the text is
/// well-formed RON; a function of the text alone.
pub uninterp spec fn ron_tree(s: Seq<char>) -> Option<ValV>;

/// Relies on `serde_json::Number::to_string`, which renders the parsed
/// number from its value alone; each other variant moves its payload.
#[verifier::external_body]
fn val_from_json(v: serde_json::Value) -> Val {
    match v {
        serde_json::Value::Null => Val::Null,
        serde_json::Value::Bool(b) => Val::Bool(b),
        serde_json::Value::Number(n) => Val::Num(n.to_string()),
        serde_json::Value::String(t) => Val::Str(t),
        serde_json::Value::Array(xs) => Val::Arr(xs.into_iter().map(val_from_json).collect()),
        serde_json::Value::Object(m) => Val::Obj(
            m.into_iter().map(|(k, x)| (k, val_from_json(x))).collect(),
        ),
    }
}

/// Relies on `serde_json::from_str::<serde_json::Value>`: it accepts
/// exactly the well-formed JSON texts, whatever their whitespace, and
/// the tree it gives depends on the text alone.
#[verifier::external_body]
fn parse_json_text(s: &str) -> (r: Option<Val>)
    ensures
        (match r {
            Some(v) => json_tree(s@) == Some(val_view(v)),
            None => json_tree(s@) is None,
        }),
{
    match serde_json::from_str::<serde_json::Value>(s) {
        Ok(v) => Some(val_from_json(v)),
        Err(_) => None,
    }
}

/// Relies on `ron::value::Number`: each integer variant renders through
/// its own `to_string`, each float variant through the `Display` of the
/// wrapped value `get` returns.
#[verifier::external_body]
fn num_text_of_ron(n: ron::value::Number) -> String {
    match n {
        ron::value::Number::I8(v) => v.to_string(),
        ron::value::Number::I16(v) => v.to_string(),
        ron::value::Number::I32(v) => v.to_string(),
        ron::value::Number::I64(v) => v.to_string(),
        ron::value::Number::U8(v) => v.to_string(),
        ron::value::Number::U16(v) => v.to_string(),
        ron::value::Number::U32(v) => v.to_string(),
        ron::value::Number::U64(v) => v.to_string(),
        ron::value::Number::F32(v) => format!("{}", v.get()),
        ron::value::Number::F64(v) => format!("{}", v.get()),
        _ => String::new(),
    }
}

/// Relies on `ron::Value`: a mapping key is kept as its text when it is
/// a string, rendered as one when it is a number, and is otherwise a
/// key no schema field or decimal key text ever matches.
#[verifier::external_body]
fn key_text_of_ron(k: ron::Value) -> String {
    match k {
        ron::Value::String(t) => t,
        ron::Value::Number(n) => num_text_of_ron(n),
        _ => String::new(),
    }
}

/// Relies on `ron::Value`: structs and maps both parse to `Map`, so one
/// arm per variant moves the payload into the shared tree shape.
#[verifier::external_body]
fn val_from_ron(v: ron::Value) -> Val {
    match v {
        ron::Value::Bool(b) => Val::Bool(b),
        ron::Value::Char(_) => Val::Other,
        ron::Value::Map(m) => Val::Obj(m.into_iter().map(|(k, x)| (key_text_of_ron(k), val_from_ron(x))).collect()),
        ron::Value::Number(n) => Val::Num(num_text_of_ron(n)),
        ron::Value::Option(Some(b)) => val_from_ron(*b),
        ron::Value::Option(None) => Val::Null,
        ron::Value::String(t) => Val::Str(t),
        ron::Value::Bytes(_) => Val::Other,
        ron::Value::Seq(xs) => Val::Arr(xs.into_iter().map(val_from_ron).collect()),
        ron::Value::Unit => Val::Null,
    }
}

/// Relies on `ron::from_str::<ron::Value>`: it accepts exactly the
/// well-formed RON texts, whatever their whitespace, and the tree it
/// gives depends on the text alone.
#[verifier::external_body]
fn parse_ron_text(s: &str) -> (r: Option<Val>)
    ensures
        (match r {
            Some(v) => ron_tree(s@) == Some(val_view(v)),
            None => ron_tree(s@) is None,
        }),
{
    match ron::from_str::<ron::Value>(s) {
        Ok(v) => Some(val_from_ron(v)),
        Err(_) => None,
    }
}

/// What decoding a JSON text yields: a syntax failure outside the
/// grammar, and otherwise the record its tree stands for.
pub open spec fn json_decode_spec(s: Seq<char>) -> Result<PointV, ErrV> {
    match json_tree(s) {
        None => Err(ErrV::Syntax),
        Some(t) => point_of(t),
    }
}

/// What decoding a RON text yields.
pub open spec fn ron_decode_spec(s: Seq<char>) -> Result<PointV, ErrV> {
    match ron_tree(s) {
        None => Err(ErrV::Syntax),
        Some(t) => point_of(t),
    }
}

/// Reads a record from JSON text, pretty or compact: parse, then the
/// verified schema decode. The transient pair comes back zero and the
/// result is well formed.
pub fn decode_json(s: &str) -> (r: Result<Point, DecodeError>)
    ensures
        (match r {
            Ok(p) => json_decode_spec(s@) == Ok::<PointV, ErrV>(p@) && point_wf(p@) && p.x == 0
                && p.y == 0,
            Err(e) => json_decode_spec(s@) == Err::<PointV, ErrV>(e@),
        }),
{
    match parse_json_text(s) {
        None => Err(DecodeError::Syntax),
        Some(v) => decode_point(&v),
    }
}

/// What decoding a standalone 2-vector from JSON text yields.
pub open spec fn vec2_json_decode_spec(s: Seq<char>) -> Result<crate::model::V2V, ErrV> {
    match json_tree(s) {
        None => Err(ErrV::Syntax),
        Some(t) => crate::vec2seq::vec2_seq_of(t),
    }
}

/// What decoding a standalone 2-vector from RON text yields.
pub open spec fn vec2_ron_decode_spec(s: Seq<char>) -> Result<crate::model::V2V, ErrV> {
    match ron_tree(s) {
        None => Err(ErrV::Syntax),
        Some(t) => crate::vec2seq::vec2_seq_of(t),
    }
}

/// Reads a standalone 2-vector from JSON text in its sequence form.
pub fn vec2_from_json(s: &str) -> (r: Result<crate::model::Vec2, DecodeError>)
    ensures
        (match r {
            Ok(w) => vec2_json_decode_spec(s@) == Ok::<crate::model::V2V, ErrV>(w@),
            Err(e) => vec2_json_decode_spec(s@) == Err::<crate::model::V2V, ErrV>(e@),
        }),
{
    match parse_json_text(s) {
        None => Err(DecodeError::Syntax),
        Some(v) => crate::vec2seq::vec2_from_seq_value(&v),
    }
}

/// Reads a standalone 2-vector from RON text in its sequence form.
pub fn vec2_from_ron(s: &str) -> (r: Result<crate::model::Vec2, DecodeError>)
    ensures
        (match r {
            Ok(w) => vec2_ron_decode_spec(s@) == Ok::<crate::model::V2V, ErrV>(w@),
            Err(e) => vec2_ron_decode_spec(s@) == Err::<crate::model::V2V, ErrV>(e@),
        }),
{
    match parse_ron_text(s) {
        None => Err(DecodeError::Syntax),
        Some(v) => crate::vec2seq::vec2_from_seq_value(&v),
    }
}

/// Reads a record from RON text, pretty or compact.
pub fn decode_ron(s: &str) -> (r: Result<Point, DecodeError>)
    ensures
        (match r {
            Ok(p) => ron_decode_spec(s@) == Ok::<PointV, ErrV>(p@) && point_wf(p@) && p.x == 0
                && p.y == 0,
            Err(e) => ron_decode_spec(s@) == Err::<PointV, ErrV>(e@),
        }),
{
    match parse_ron_text(s) {
        None => Err(DecodeError::Syntax),
        Some(v) => decode_point(&v),
    }
}

} // verus!
