use vstd::prelude::*;

use crate::decode::{DecodeError, ErrV, num_of};
use crate::model::{Real, V2V, Vec2, v2_wf};
use crate::value::{Val, ValV, arr_view, lemma_arr_view, val_view};

verus! {

/// The newtype-wrapper surface form of a 2-vector: a 2-element ordered
/// sequence `[x, y]`. A sequence of any other length is rejected with
/// the invalid-length error citing, as the decoder the wrapper drives
/// would, the position at which the sequence ran out (its length) —
/// strictly, so trailing elements are not ignored.
pub open spec fn vec2_seq_of(v: ValV) -> Result<V2V, ErrV> {
    match v {
        ValV::Arr(elems) => if elems.len() == 0 {
            Err(ErrV::InvalidLength(0))
        } else {
            match num_of(elems[0], "Vec2"@) {
                Err(e) => Err(e),
                Ok(x) => if elems.len() == 1 {
                    Err(ErrV::InvalidLength(1))
                } else {
                    match num_of(elems[1], "Vec2"@) {
                        Err(e) => Err(e),
                        Ok(y) => if elems.len() == 2 {
                            Ok(V2V { x, y })
                        } else {
                            Err(ErrV::InvalidLength(elems.len() as int))
                        },
                    }
                },
            }
        },
        _ => Err(ErrV::TypeMismatch("Vec2"@)),
    }
}

/// Decodes a standalone 2-vector from its sequence form.
pub fn vec2_from_seq_value(v: &Val) -> (r: Result<Vec2, DecodeError>)
    ensures
        (match r {
            Ok(w) => vec2_seq_of(val_view(*v)) == Ok::<V2V, ErrV>(w@) && v2_wf(w@),
            Err(e) => vec2_seq_of(val_view(*v)) == Err::<V2V, ErrV>(e@),
        }),
{
    match v {
        Val::Arr(elems) => {
            proof {
                lemma_arr_view(*elems, 0);
            }
            let n = elems.len();
            if n == 0 {
                return Err(DecodeError::InvalidLength(0));
            }
            let x = match crate::decode::decode_num(&elems[0], "Vec2") {
                Ok(t) => t,
                Err(e) => {
                    return Err(e);
                },
            };
            if n == 1 {
                return Err(DecodeError::InvalidLength(1));
            }
            let y = match crate::decode::decode_num(&elems[1], "Vec2") {
                Ok(t) => t,
                Err(e) => {
                    return Err(e);
                },
            };
            if n != 2 {
                return Err(DecodeError::InvalidLength(n));
            }
            Ok(Vec2 { x, y })
        },
        _ => Err(DecodeError::TypeMismatch(String::from_str("Vec2"))),
    }
}

/// The sequence surface text of a 2-vector, shared by both encodings.
pub open spec fn vec2_seq_text(v: V2V) -> Seq<char> {
    "[ "@ + v.x + ", "@ + v.y + " ]"@
}

/// Writes a standalone 2-vector in its sequence form.
pub fn vec2_to_seq_text(v: &Vec2) -> (r: String)
    ensures
        r@ == vec2_seq_text(v@),
{
    let mut out = String::new();
    out.append("[ ");
    out.append(v.x.0.as_str());
    out.append(", ");
    out.append(v.y.0.as_str());
    out.append(" ]");
    proof {
        assert(out@ =~= vec2_seq_text(v@));
    }
    out
}

/// The canonical sequence tree of a 2-vector; reading it back yields
/// the vector again — the wrapper's round trip.
pub fn vec2_to_seq_value(v: &Vec2) -> (r: Val)
    requires
        v2_wf(v@),
    ensures
        vec2_seq_of(val_view(r)) == Ok::<V2V, ErrV>(v@),
{
    let mut elems: Vec<Val> = Vec::new();
    elems.push(Val::Num(v.x.0.clone()));
    elems.push(Val::Num(v.y.0.clone()));
    let r = Val::Arr(elems);
    proof {
        lemma_arr_view(elems, 0);
        let av = arr_view(elems, 0);
        assert(av[0] == val_view(elems@[0]));
        assert(av[1] == val_view(elems@[1]));
    }
    r
}

} // verus!
