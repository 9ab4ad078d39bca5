use vstd::prelude::*;

use crate::model::{
    M4V, Matrix4Remote, Point, PointV, Real, Square, SquareV, V2V, V3V, V4V, Vec2, Vec3,
    Vector4Remote, m4_wf, point_wf, square_wf, v2_wf, v3_wf, v4_wf,
};
use crate::numtext::{is_num_text, is_number_text, parse_u32, spec_parse_u32};
use crate::value::{Val, ValV, arr_view, lemma_arr_view, lemma_obj_view, obj_view, val_view};

verus! {

/// Why a decode failed: text outside the surface grammar, a required
/// field that was absent, a value of the wrong shape at the named field,
/// or a fixed-length sequence of the wrong element count.
#[derive(Debug, Clone, PartialEq)]
pub enum DecodeError {
    Syntax,
    MissingField(String),
    TypeMismatch(String),
    InvalidLength(usize),
}

/// Mathematical model of a decode failure.
pub enum ErrV {
    Syntax,
    MissingField(Seq<char>),
    TypeMismatch(Seq<char>),
    InvalidLength(int),
}

impl View for DecodeError {
    type V = ErrV;

    open spec fn view(&self) -> ErrV {
        match self {
            DecodeError::Syntax => ErrV::Syntax,
            DecodeError::MissingField(f) => ErrV::MissingField(f@),
            DecodeError::TypeMismatch(f) => ErrV::TypeMismatch(f@),
            DecodeError::InvalidLength(n) => ErrV::InvalidLength(*n as int),
        }
    }
}

impl DecodeError {
    /// The failure rendered for a human, since the error type itself
    /// carries structured data.
    pub fn describe(&self) -> String {
        match self {
            DecodeError::Syntax => String::from_str("syntax error"),
            DecodeError::MissingField(f) => {
                let mut s = String::from_str("missing field ");
                s.append(f.as_str());
                s
            },
            DecodeError::TypeMismatch(f) => {
                let mut s = String::from_str("type mismatch at ");
                s.append(f.as_str());
                s
            },
            DecodeError::InvalidLength(n) => {
                let mut s = String::from_str("invalid length ");
                s.append(crate::numtext::u32_text(*n as u32).as_str());
                s.append(", expected Vec2");
                s
            },
        }
    }
}

// ----- the schema, as functions from value trees to records -----

/// The first entry under `key`, if any.
pub open spec fn obj_get(es: Seq<(Seq<char>, ValV)>, key: Seq<char>) -> Option<ValV>
    decreases es.len(),
{
    if es.len() == 0 {
        None
    } else if es[0].0 == key {
        Some(es[0].1)
    } else {
        obj_get(es.drop_first(), key)
    }
}

/// A number text, or a mismatch at `name`.
pub open spec fn num_of(v: ValV, name: Seq<char>) -> Result<Seq<char>, ErrV> {
    match v {
        ValV::Num(t) => if is_num_text(t) {
            Ok(t)
        } else {
            Err(ErrV::TypeMismatch(name))
        },
        _ => Err(ErrV::TypeMismatch(name)),
    }
}

/// The number text under a required field.
pub open spec fn field_num(es: Seq<(Seq<char>, ValV)>, name: Seq<char>) -> Result<
    Seq<char>,
    ErrV,
> {
    match obj_get(es, name) {
        None => Err(ErrV::MissingField(name)),
        Some(v) => num_of(v, name),
    }
}

pub open spec fn sq_of(v: ValV) -> Result<SquareV, ErrV> {
    match v {
        ValV::Obj(es) => match (field_num(es, "width"@), field_num(es, "height"@)) {
            (Ok(w), Ok(h)) => Ok(SquareV { width: w, height: h }),
            (Err(e), _) => Err(e),
            (_, Err(e)) => Err(e),
        },
        _ => Err(ErrV::TypeMismatch("my_square"@)),
    }
}

/// A 2-vector in its record form `{x, y}`, the shape it takes inside
/// the containers; `name` names the container for a shape mismatch.
pub open spec fn v2_of(v: ValV, name: Seq<char>) -> Result<V2V, ErrV> {
    match v {
        ValV::Obj(es) => match (field_num(es, "x"@), field_num(es, "y"@)) {
            (Ok(x), Ok(y)) => Ok(V2V { x, y }),
            (Err(e), _) => Err(e),
            (_, Err(e)) => Err(e),
        },
        _ => Err(ErrV::TypeMismatch(name)),
    }
}

pub open spec fn v3_of(v: ValV) -> Result<V3V, ErrV> {
    match v {
        ValV::Obj(es) => match (field_num(es, "x"@), field_num(es, "y"@), field_num(es, "z"@)) {
            (Ok(x), Ok(y), Ok(z)) => Ok(V3V { x, y, z }),
            (Err(e), _, _) => Err(e),
            (_, Err(e), _) => Err(e),
            (_, _, Err(e)) => Err(e),
        },
        _ => Err(ErrV::TypeMismatch("v3"@)),
    }
}

pub open spec fn v4_of(v: ValV, name: Seq<char>) -> Result<V4V, ErrV> {
    match v {
        ValV::Obj(es) => match (
            field_num(es, "x"@),
            field_num(es, "y"@),
            field_num(es, "z"@),
            field_num(es, "w"@),
        ) {
            (Ok(x), Ok(y), Ok(z), Ok(w)) => Ok(V4V { x, y, z, w }),
            (Err(e), _, _, _) => Err(e),
            (_, Err(e), _, _) => Err(e),
            (_, _, Err(e), _) => Err(e),
            (_, _, _, Err(e)) => Err(e),
        },
        _ => Err(ErrV::TypeMismatch(name)),
    }
}

/// A required matrix column, itself read through the 4-vector twin.
pub open spec fn field_v4(es: Seq<(Seq<char>, ValV)>, name: Seq<char>) -> Result<V4V, ErrV> {
    match obj_get(es, name) {
        None => Err(ErrV::MissingField(name)),
        Some(v) => v4_of(v, name),
    }
}

pub open spec fn m4_of(v: ValV) -> Result<M4V, ErrV> {
    match v {
        ValV::Obj(es) => match (
            field_v4(es, "x"@),
            field_v4(es, "y"@),
            field_v4(es, "z"@),
            field_v4(es, "w"@),
        ) {
            (Ok(x), Ok(y), Ok(z), Ok(w)) => Ok(M4V { x, y, z, w }),
            (Err(e), _, _, _) => Err(e),
            (_, Err(e), _, _) => Err(e),
            (_, _, Err(e), _) => Err(e),
            (_, _, _, Err(e)) => Err(e),
        },
        _ => Err(ErrV::TypeMismatch("m4"@)),
    }
}

/// The elements of the ordered sequence, in order; the first failing
/// element decides the error.
pub open spec fn v2s_of(elems: Seq<ValV>) -> Result<Seq<V2V>, ErrV>
    decreases elems.len(),
{
    if elems.len() == 0 {
        Ok(Seq::empty())
    } else {
        match v2s_of(elems.drop_last()) {
            Ok(pre) => match v2_of(elems.last(), "my_vec"@) {
                Ok(v) => Ok(pre.push(v)),
                Err(e) => Err(e),
            },
            Err(e) => Err(e),
        }
    }
}

pub open spec fn spec_has_key(s: Seq<(u32, V2V)>, k: u32) -> bool {
    exists|i: int| 0 <= i < s.len() && (#[trigger] s[i]).0 == k
}

/// The mapping entries in input order. A key must be decimal text (or a
/// bare number) naming a 32-bit value; when a key repeats, the first
/// entry stands.
pub open spec fn map_fold(es: Seq<(Seq<char>, ValV)>) -> Result<Seq<(u32, V2V)>, ErrV>
    decreases es.len(),
{
    if es.len() == 0 {
        Ok(Seq::empty())
    } else {
        match map_fold(es.drop_last()) {
            Ok(pre) => match spec_parse_u32(es.last().0) {
                None => Err(ErrV::TypeMismatch("my_map"@)),
                Some(k) => match v2_of(es.last().1, "my_map"@) {
                    Ok(v) => if spec_has_key(pre, k) {
                        Ok(pre)
                    } else {
                        Ok(pre.push((k, v)))
                    },
                    Err(e) => Err(e),
                },
            },
            Err(e) => Err(e),
        }
    }
}

/// A required field of the record.
pub open spec fn field_of(es: Seq<(Seq<char>, ValV)>, name: Seq<char>) -> Result<ValV, ErrV> {
    match obj_get(es, name) {
        None => Err(ErrV::MissingField(name)),
        Some(v) => Ok(v),
    }
}

/// The record a value tree stands for. Unknown fields are ignored; the
/// transient pair decodes to zero whatever the input held.
pub open spec fn point_of(v: ValV) -> Result<PointV, ErrV> {
    match v {
        ValV::Obj(es) => {
            let sq = match field_of(es, "my_square"@) {
                Ok(w) => sq_of(w),
                Err(e) => Err(e),
            };
            let vec = match field_of(es, "my_vec"@) {
                Ok(ValV::Arr(elems)) => v2s_of(elems),
                Ok(_) => Err(ErrV::TypeMismatch("my_vec"@)),
                Err(e) => Err(e),
            };
            let map = match field_of(es, "my_map"@) {
                Ok(ValV::Obj(mes)) => map_fold(mes),
                Ok(_) => Err(ErrV::TypeMismatch("my_map"@)),
                Err(e) => Err(e),
            };
            let v3 = match field_of(es, "v3"@) {
                Ok(w) => v3_of(w),
                Err(e) => Err(e),
            };
            let m4 = match field_of(es, "m4"@) {
                Ok(w) => m4_of(w),
                Err(e) => Err(e),
            };
            match (sq, vec, map, v3, m4) {
                (Ok(sq), Ok(vec), Ok(map), Ok(v3), Ok(m4)) => Ok(
                    PointV { x: 0, y: 0, my_square: sq, my_vec: vec, my_map: map, v3, m4 },
                ),
                (Err(e), _, _, _, _) => Err(e),
                (_, Err(e), _, _, _) => Err(e),
                (_, _, Err(e), _, _) => Err(e),
                (_, _, _, Err(e), _) => Err(e),
                (_, _, _, _, Err(e)) => Err(e),
            }
        },
        _ => Err(ErrV::TypeMismatch("Point"@)),
    }
}

// ----- executable decoders -----

/// Looks a key up among an object's entries: the verified counterpart
/// of `obj_get` on the entries' model.
fn get_field<'a>(es: &'a Vec<(String, Val)>, key: &String) -> (r: Option<&'a Val>)
    ensures
        match r {
            Some(v) => obj_get(obj_view(*es, 0), key@) == Some(val_view(*v)),
            None => obj_get(obj_view(*es, 0), key@) is None,
        },
{
    let ghost ov = obj_view(*es, 0);
    proof {
        lemma_obj_view(*es, 0);
        assert(ov.skip(0) =~= ov);
    }
    let n = es.len();
    let mut i: usize = 0;
    loop
        invariant
            0 <= i <= n,
            n == es@.len(),
            ov == obj_view(*es, 0),
            ov.len() == n,
            forall|j: int| 0 <= j < n ==> ov[j] == (es@[j].0@, val_view(es@[j].1)),
            obj_get(ov, key@) == obj_get(ov.skip(i as int), key@),
        decreases n - i,
    {
        if i >= n {
            proof {
                assert(ov.skip(i as int) =~= Seq::empty());
            }
            return None;
        }
        proof {
            assert(ov.skip(i as int)[0] == ov[i as int]);
        }
        if es[i].0 == *key {
            return Some(&es[i].1);
        }
        proof {
            assert(ov.skip(i as int).drop_first() =~= ov.skip(i as int + 1));
        }
        i = i + 1;
    }
}

/// Reads one number text; the error cites `name`.
pub fn decode_num(v: &Val, name: &str) -> (r: Result<Real, DecodeError>)
    ensures
        match r {
            Ok(t) => num_of(v@, name@) == Ok::<Seq<char>, ErrV>(t.text()) && t.wf(),
            Err(e) => num_of(v@, name@) == Err::<Seq<char>, ErrV>(e@),
        },
{
    match v {
        Val::Num(t) => {
            if is_number_text(t.as_str()) {
                Ok(Real(t.clone()))
            } else {
                Err(DecodeError::TypeMismatch(String::from_str(name)))
            }
        },
        _ => Err(DecodeError::TypeMismatch(String::from_str(name))),
    }
}

/// Reads a required number field of an object.
fn decode_field_num(es: &Vec<(String, Val)>, name: &str) -> (r: Result<Real, DecodeError>)
    ensures
        match r {
            Ok(t) => field_num(obj_view(*es, 0), name@) == Ok::<Seq<char>, ErrV>(t.text())
                && t.wf(),
            Err(e) => field_num(obj_view(*es, 0), name@) == Err::<Seq<char>, ErrV>(e@),
        },
{
    let key = String::from_str(name);
    match get_field(es, &key) {
        None => Err(DecodeError::MissingField(key)),
        Some(v) => decode_num(v, name),
    }
}

/// Decodes the nested simple record.
fn decode_square(v: &Val) -> (r: Result<Square, DecodeError>)
    ensures
        match r {
            Ok(s) => sq_of(v@) == Ok::<SquareV, ErrV>(s@) && square_wf(s@),
            Err(e) => sq_of(v@) == Err::<SquareV, ErrV>(e@),
        },
{
    match v {
        Val::Obj(es) => {
            let width = match decode_field_num(es, "width") {
                Ok(t) => t,
                Err(e) => {
                    return Err(e);
                },
            };
            let height = match decode_field_num(es, "height") {
                Ok(t) => t,
                Err(e) => {
                    return Err(e);
                },
            };
            Ok(Square { width, height })
        },
        _ => Err(DecodeError::TypeMismatch(String::from_str("my_square"))),
    }
}

/// Decodes a 2-vector from its record form; `name` names the container.
fn decode_v2(v: &Val, name: &str) -> (r: Result<Vec2, DecodeError>)
    ensures
        match r {
            Ok(s) => v2_of(v@, name@) == Ok::<V2V, ErrV>(s@) && v2_wf(s@),
            Err(e) => v2_of(v@, name@) == Err::<V2V, ErrV>(e@),
        },
{
    match v {
        Val::Obj(es) => {
            let x = match decode_field_num(es, "x") {
                Ok(t) => t,
                Err(e) => {
                    return Err(e);
                },
            };
            let y = match decode_field_num(es, "y") {
                Ok(t) => t,
                Err(e) => {
                    return Err(e);
                },
            };
            Ok(Vec2 { x, y })
        },
        _ => Err(DecodeError::TypeMismatch(String::from_str(name))),
    }
}

/// Decodes the 3-vector.
fn decode_v3(v: &Val) -> (r: Result<Vec3, DecodeError>)
    ensures
        match r {
            Ok(s) => v3_of(v@) == Ok::<V3V, ErrV>(s@) && v3_wf(s@),
            Err(e) => v3_of(v@) == Err::<V3V, ErrV>(e@),
        },
{
    match v {
        Val::Obj(es) => {
            let x = match decode_field_num(es, "x") {
                Ok(t) => t,
                Err(e) => {
                    return Err(e);
                },
            };
            let y = match decode_field_num(es, "y") {
                Ok(t) => t,
                Err(e) => {
                    return Err(e);
                },
            };
            let z = match decode_field_num(es, "z") {
                Ok(t) => t,
                Err(e) => {
                    return Err(e);
                },
            };
            Ok(Vec3 { x, y, z })
        },
        _ => Err(DecodeError::TypeMismatch(String::from_str("v3"))),
    }
}

/// Decodes one matrix column through the 4-vector twin.
fn decode_v4(v: &Val, name: &str) -> (r: Result<Vector4Remote, DecodeError>)
    ensures
        match r {
            Ok(s) => v4_of(v@, name@) == Ok::<V4V, ErrV>(s@) && v4_wf(s@),
            Err(e) => v4_of(v@, name@) == Err::<V4V, ErrV>(e@),
        },
{
    match v {
        Val::Obj(es) => {
            let x = match decode_field_num(es, "x") {
                Ok(t) => t,
                Err(e) => {
                    return Err(e);
                },
            };
            let y = match decode_field_num(es, "y") {
                Ok(t) => t,
                Err(e) => {
                    return Err(e);
                },
            };
            let z = match decode_field_num(es, "z") {
                Ok(t) => t,
                Err(e) => {
                    return Err(e);
                },
            };
            let w = match decode_field_num(es, "w") {
                Ok(t) => t,
                Err(e) => {
                    return Err(e);
                },
            };
            Ok(Vector4Remote { x, y, z, w })
        },
        _ => Err(DecodeError::TypeMismatch(String::from_str(name))),
    }
}

/// Reads a required column of the matrix.
fn decode_field_v4(es: &Vec<(String, Val)>, name: &str) -> (r: Result<Vector4Remote, DecodeError>)
    ensures
        match r {
            Ok(s) => field_v4(obj_view(*es, 0), name@) == Ok::<V4V, ErrV>(s@) && v4_wf(s@),
            Err(e) => field_v4(obj_view(*es, 0), name@) == Err::<V4V, ErrV>(e@),
        },
{
    let key = String::from_str(name);
    match get_field(es, &key) {
        None => Err(DecodeError::MissingField(key)),
        Some(v) => decode_v4(v, name),
    }
}

/// Decodes the matrix through its twin, column by column.
fn decode_m4(v: &Val) -> (r: Result<Matrix4Remote, DecodeError>)
    ensures
        match r {
            Ok(s) => m4_of(v@) == Ok::<M4V, ErrV>(s@) && m4_wf(s@),
            Err(e) => m4_of(v@) == Err::<M4V, ErrV>(e@),
        },
{
    match v {
        Val::Obj(es) => {
            let x = match decode_field_v4(es, "x") {
                Ok(t) => t,
                Err(e) => {
                    return Err(e);
                },
            };
            let y = match decode_field_v4(es, "y") {
                Ok(t) => t,
                Err(e) => {
                    return Err(e);
                },
            };
            let z = match decode_field_v4(es, "z") {
                Ok(t) => t,
                Err(e) => {
                    return Err(e);
                },
            };
            let w = match decode_field_v4(es, "w") {
                Ok(t) => t,
                Err(e) => {
                    return Err(e);
                },
            };
            Ok(Matrix4Remote { x, y, z, w })
        },
        _ => Err(DecodeError::TypeMismatch(String::from_str("m4"))),
    }
}

/// The model of a vector of 2-vectors.
pub open spec fn vecs_view(vs: Vec<Vec2>) -> Seq<V2V> {
    Seq::new(vs@.len(), |i: int| vs@[i]@)
}

/// Decodes the ordered sequence.
fn decode_vec(elems: &Vec<Val>) -> (r: Result<Vec<Vec2>, DecodeError>)
    ensures
        match r {
            Ok(vs) => v2s_of(arr_view(*elems, 0)) == Ok::<Seq<V2V>, ErrV>(vecs_view(vs))
                && (forall|i: int| 0 <= i < vs@.len() ==> v2_wf(#[trigger] vecs_view(vs)[i])),
            Err(e) => v2s_of(arr_view(*elems, 0)) == Err::<Seq<V2V>, ErrV>(e@),
        },
{
    let ghost av = arr_view(*elems, 0);
    proof {
        lemma_arr_view(*elems, 0);
    }
    let n = elems.len();
    let mut out: Vec<Vec2> = Vec::new();
    proof {
        assert(av.take(0) =~= Seq::<ValV>::empty());
        assert(vecs_view(out) =~= Seq::<V2V>::empty());
    }
    let mut i: usize = 0;
    loop
        invariant
            0 <= i <= n,
            n == elems@.len(),
            av == arr_view(*elems, 0),
            av.len() == n,
            forall|j: int| 0 <= j < n ==> av[j] == val_view(elems@[j]),
            out@.len() == i,
            v2s_of(av.take(i as int)) == Ok::<Seq<V2V>, ErrV>(vecs_view(out)),
            forall|j: int| 0 <= j < i ==> v2_wf(#[trigger] vecs_view(out)[j]),
        decreases n - i,
    {
        if i >= n {
            proof {
                assert(av.take(i as int) =~= av);
            }
            return Ok(out);
        }
        match decode_v2(&elems[i], "my_vec") {
            Ok(v) => {
                let ghost old_out = out;
                out.push(v);
                proof {
                    assert(av.take(i + 1).drop_last() =~= av.take(i as int));
                    assert(av.take(i + 1).last() == av[i as int]);
                    assert(vecs_view(out) =~= vecs_view(old_out).push(v@));
                }
            },
            Err(e) => {
                proof {
                    lemma_v2s_err(av, i as int, e@);
                }
                return Err(e);
            },
        }
        i = i + 1;
    }
}

/// Once an element fails, the whole sequence fails with that error.
proof fn lemma_v2s_err(elems: Seq<ValV>, i: int, e: ErrV)
    requires
        0 <= i < elems.len(),
        v2s_of(elems.take(i)) is Ok,
        v2_of(elems[i], "my_vec"@) == Err::<V2V, ErrV>(e),
    ensures
        v2s_of(elems) == Err::<Seq<V2V>, ErrV>(e),
{
    assert forall|j: int| i < j <= elems.len() implies v2s_of(elems.take(j)) == Err::<
        Seq<V2V>,
        ErrV,
    >(e) by {
        lemma_v2s_err_step(elems, i, j, e);
    }
    assert(elems.take(elems.len() as int) =~= elems);
    assert(v2s_of(elems.take(elems.len() as int)) == Err::<Seq<V2V>, ErrV>(e));
}

proof fn lemma_v2s_err_step(elems: Seq<ValV>, i: int, j: int, e: ErrV)
    requires
        0 <= i < j <= elems.len(),
        v2s_of(elems.take(i)) is Ok,
        v2_of(elems[i], "my_vec"@) == Err::<V2V, ErrV>(e),
    ensures
        v2s_of(elems.take(j)) == Err::<Seq<V2V>, ErrV>(e),
    decreases j,
{
    assert(elems.take(j).drop_last() =~= elems.take(j - 1));
    assert(elems.take(j).last() == elems[j - 1]);
    if j - 1 == i {
        assert(v2s_of(elems.take(j)) == Err::<Seq<V2V>, ErrV>(e));
    } else {
        lemma_v2s_err_step(elems, i, j - 1, e);
    }
}

/// Is this key already bound?
fn has_key(s: &Vec<(u32, Vec2)>, k: u32) -> (r: bool)
    ensures
        r == spec_has_key(mapv_view(*s), k),
{
    let n = s.len();
    let mut i: usize = 0;
    loop
        invariant
            0 <= i <= n,
            n == s@.len(),
            forall|j: int| 0 <= j < i ==> (#[trigger] mapv_view(*s)[j]).0 != k,
        decreases n - i,
    {
        if i >= n {
            return false;
        }
        if s[i].0 == k {
            proof {
                assert((mapv_view(*s)[i as int]).0 == k);
            }
            return true;
        }
        i = i + 1;
    }
}

/// The model of a key/value list.
pub open spec fn mapv_view(vs: Vec<(u32, Vec2)>) -> Seq<(u32, V2V)> {
    Seq::new(vs@.len(), |i: int| (vs@[i].0, vs@[i].1@))
}

/// Decodes the mapping.
fn decode_map(es: &Vec<(String, Val)>) -> (r: Result<Vec<(u32, Vec2)>, DecodeError>)
    ensures
        match r {
            Ok(vs) => map_fold(obj_view(*es, 0)) == Ok::<Seq<(u32, V2V)>, ErrV>(mapv_view(vs))
                && (forall|i: int| 0 <= i < vs@.len() ==> v2_wf((#[trigger] mapv_view(vs)[i]).1))
                && (forall|i: int, j: int|
                0 <= i < j < vs@.len() ==> (#[trigger] mapv_view(vs)[i]).0 != (
                #[trigger] mapv_view(vs)[j]).0),
            Err(e) => map_fold(obj_view(*es, 0)) == Err::<Seq<(u32, V2V)>, ErrV>(e@),
        },
{
    let ghost ov = obj_view(*es, 0);
    proof {
        lemma_obj_view(*es, 0);
    }
    let n = es.len();
    let mut out: Vec<(u32, Vec2)> = Vec::new();
    proof {
        assert(ov.take(0) =~= Seq::<(Seq<char>, ValV)>::empty());
        assert(mapv_view(out) =~= Seq::<(u32, V2V)>::empty());
    }
    let mut i: usize = 0;
    loop
        invariant
            0 <= i <= n,
            n == es@.len(),
            ov == obj_view(*es, 0),
            ov.len() == n,
            forall|j: int| 0 <= j < n ==> ov[j] == (es@[j].0@, val_view(es@[j].1)),
            map_fold(ov.take(i as int)) == Ok::<Seq<(u32, V2V)>, ErrV>(mapv_view(out)),
            forall|j: int| 0 <= j < out@.len() ==> v2_wf((#[trigger] mapv_view(out)[j]).1),
            forall|j: int, l: int|
                0 <= j < l < out@.len() ==> (#[trigger] mapv_view(out)[j]).0 != (
                #[trigger] mapv_view(out)[l]).0,
        decreases n - i,
    {
        if i >= n {
            proof {
                assert(ov.take(i as int) =~= ov);
            }
            return Ok(out);
        }
        proof {
            assert(ov.take(i + 1).drop_last() =~= ov.take(i as int));
            assert(ov.take(i + 1).last() == ov[i as int]);
        }
        let k = match parse_u32(es[i].0.as_str()) {
            Some(k) => k,
            None => {
                proof {
                    lemma_map_err(ov, i as int, ErrV::TypeMismatch("my_map"@));
                }
                return Err(DecodeError::TypeMismatch(String::from_str("my_map")));
            },
        };
        match decode_v2(&es[i].1, "my_map") {
            Ok(v) => {
                let ghost old_out = out;
                if !has_key(&out, k) {
                    out.push((k, v));
                    proof {
                        assert(mapv_view(out) =~= mapv_view(old_out).push((k, v@)));
                    }
                }
            },
            Err(e) => {
                proof {
                    lemma_map_err(ov, i as int, e@);
                }
                return Err(e);
            },
        }
        i = i + 1;
    }
}

/// Once an entry fails, the whole mapping fails with that error.
proof fn lemma_map_err(es: Seq<(Seq<char>, ValV)>, i: int, e: ErrV)
    requires
        0 <= i < es.len(),
        map_fold(es.take(i)) is Ok,
        match spec_parse_u32(es[i].0) {
            None => e == ErrV::TypeMismatch("my_map"@),
            Some(k) => v2_of(es[i].1, "my_map"@) == Err::<V2V, ErrV>(e),
        },
    ensures
        map_fold(es) == Err::<Seq<(u32, V2V)>, ErrV>(e),
{
    assert forall|j: int| i < j <= es.len() implies map_fold(es.take(j)) == Err::<
        Seq<(u32, V2V)>,
        ErrV,
    >(e) by {
        lemma_map_err_step(es, i, j, e);
    }
    assert(es.take(es.len() as int) =~= es);
}

proof fn lemma_map_err_step(es: Seq<(Seq<char>, ValV)>, i: int, j: int, e: ErrV)
    requires
        0 <= i < j <= es.len(),
        map_fold(es.take(i)) is Ok,
        match spec_parse_u32(es[i].0) {
            None => e == ErrV::TypeMismatch("my_map"@),
            Some(k) => v2_of(es[i].1, "my_map"@) == Err::<V2V, ErrV>(e),
        },
    ensures
        map_fold(es.take(j)) == Err::<Seq<(u32, V2V)>, ErrV>(e),
    decreases j,
{
    assert(es.take(j).drop_last() =~= es.take(j - 1));
    assert(es.take(j).last() == es[j - 1]);
    if j - 1 == i {
    } else {
        lemma_map_err_step(es, i, j - 1, e);
    }
}

/// Decodes the record from a value tree: the type-directed core both
/// surface decoders share. Unknown fields are ignored; the transient
/// pair comes back as zero; the result is well formed.
pub fn decode_point(v: &Val) -> (r: Result<Point, DecodeError>)
    ensures
        match r {
            Ok(p) => point_of(v@) == Ok::<PointV, ErrV>(p@) && point_wf(p@) && p.x == 0 && p.y
                == 0,
            Err(e) => point_of(v@) == Err::<PointV, ErrV>(e@),
        },
{
    match v {
        Val::Obj(es) => {
            let sq = match get_field(es, &String::from_str("my_square")) {
                None => {
                    return Err(DecodeError::MissingField(String::from_str("my_square")));
                },
                Some(w) => match decode_square(w) {
                    Ok(s) => s,
                    Err(e) => {
                        return Err(e);
                    },
                },
            };
            let vecs = match get_field(es, &String::from_str("my_vec")) {
                None => {
                    return Err(DecodeError::MissingField(String::from_str("my_vec")));
                },
                Some(w) => match w {
                    Val::Arr(elems) => match decode_vec(elems) {
                        Ok(s) => s,
                        Err(e) => {
                            return Err(e);
                        },
                    },
                    _ => {
                        return Err(DecodeError::TypeMismatch(String::from_str("my_vec")));
                    },
                },
            };
            let map = match get_field(es, &String::from_str("my_map")) {
                None => {
                    return Err(DecodeError::MissingField(String::from_str("my_map")));
                },
                Some(w) => match w {
                    Val::Obj(mes) => match decode_map(mes) {
                        Ok(s) => s,
                        Err(e) => {
                            return Err(e);
                        },
                    },
                    _ => {
                        return Err(DecodeError::TypeMismatch(String::from_str("my_map")));
                    },
                },
            };
            let v3 = match get_field(es, &String::from_str("v3")) {
                None => {
                    return Err(DecodeError::MissingField(String::from_str("v3")));
                },
                Some(w) => match decode_v3(w) {
                    Ok(s) => s,
                    Err(e) => {
                        return Err(e);
                    },
                },
            };
            let m4 = match get_field(es, &String::from_str("m4")) {
                None => {
                    return Err(DecodeError::MissingField(String::from_str("m4")));
                },
                Some(w) => match decode_m4(w) {
                    Ok(s) => s,
                    Err(e) => {
                        return Err(e);
                    },
                },
            };
            let p = Point { x: 0, y: 0, my_square: sq, my_vec: vecs, my_map: map, v3, m4 };
            proof {
                assert(p@.my_vec =~= vecs_view(vecs));
                assert(p@.my_map =~= mapv_view(map));
            }
            Ok(p)
        },
        _ => Err(DecodeError::TypeMismatch(String::from_str("Point"))),
    }
}

} // verus!

