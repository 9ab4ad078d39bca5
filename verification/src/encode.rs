use vstd::prelude::*;

use crate::model::{M4V, Point, PointV, SquareV, V2V, V3V, V4V, Vec2};
use crate::numtext::dec_text;

verus! {

// ----- the exact text each encoding produces -----

/// The 2-vector in its record surface form.
pub open spec fn json_of_v2(v: V2V) -> Seq<char> {
    "{ \"x\": "@ + v.x + ", \"y\": "@ + v.y + " }"@
}

pub open spec fn json_of_square(s: SquareV) -> Seq<char> {
    "{ \"width\": "@ + s.width + ", \"height\": "@ + s.height + " }"@
}

pub open spec fn json_of_v3(v: V3V) -> Seq<char> {
    "{ \"x\": "@ + v.x + ", \"y\": "@ + v.y + ", \"z\": "@ + v.z + " }"@
}

pub open spec fn json_of_v4(v: V4V) -> Seq<char> {
    "{ \"x\": "@ + v.x + ", \"y\": "@ + v.y + ", \"z\": "@ + v.z + ", \"w\": "@ + v.w + " }"@
}

pub open spec fn json_of_m4(m: M4V) -> Seq<char> {
    "{ \"x\": "@ + json_of_v4(m.x) + ", \"y\": "@ + json_of_v4(m.y) + ", \"z\": "@ + json_of_v4(
        m.z,
    ) + ", \"w\": "@ + json_of_v4(m.w) + " }"@
}

/// The sequence elements, comma-separated.
pub open spec fn json_vec_items(s: Seq<V2V>) -> Seq<char>
    decreases s.len(),
{
    if s.len() == 0 {
        Seq::empty()
    } else if s.len() == 1 {
        json_of_v2(s[0])
    } else {
        json_vec_items(s.drop_last()) + ", "@ + json_of_v2(s.last())
    }
}

pub open spec fn json_of_vec(s: Seq<V2V>) -> Seq<char> {
    if s.len() == 0 {
        "[]"@
    } else {
        "[ "@ + json_vec_items(s) + " ]"@
    }
}

/// One mapping entry; the key becomes a quoted decimal string.
pub open spec fn json_map_entry(k: u32, v: V2V) -> Seq<char> {
    "\""@ + dec_text(k as nat) + "\": "@ + json_of_v2(v)
}

pub open spec fn json_map_items(s: Seq<(u32, V2V)>) -> Seq<char>
    decreases s.len(),
{
    if s.len() == 0 {
        Seq::empty()
    } else if s.len() == 1 {
        json_map_entry(s[0].0, s[0].1)
    } else {
        json_map_items(s.drop_last()) + ", "@ + json_map_entry(s.last().0, s.last().1)
    }
}

pub open spec fn json_of_map(s: Seq<(u32, V2V)>) -> Seq<char> {
    if s.len() == 0 {
        "{}"@
    } else {
        "{ "@ + json_map_items(s) + " }"@
    }
}

/// The whole record: one field per line, transient state omitted.
pub open spec fn json_of_point(p: PointV) -> Seq<char> {
    "{\n  \"my_square\": "@ + json_of_square(p.my_square) + ",\n  \"my_vec\": "@ + json_of_vec(
        p.my_vec,
    ) + ",\n  \"my_map\": "@ + json_of_map(p.my_map) + ",\n  \"v3\": "@ + json_of_v3(p.v3)
        + ",\n  \"m4\": "@ + json_of_m4(p.m4) + "\n}"@
}

pub open spec fn ron_of_v2(v: V2V) -> Seq<char> {
    "( x: "@ + v.x + ", y: "@ + v.y + " )"@
}

pub open spec fn ron_of_square(s: SquareV) -> Seq<char> {
    "( width: "@ + s.width + ", height: "@ + s.height + " )"@
}

pub open spec fn ron_of_v3(v: V3V) -> Seq<char> {
    "( x: "@ + v.x + ", y: "@ + v.y + ", z: "@ + v.z + " )"@
}

pub open spec fn ron_of_v4(v: V4V) -> Seq<char> {
    "( x: "@ + v.x + ", y: "@ + v.y + ", z: "@ + v.z + ", w: "@ + v.w + " )"@
}

pub open spec fn ron_of_m4(m: M4V) -> Seq<char> {
    "( x: "@ + ron_of_v4(m.x) + ", y: "@ + ron_of_v4(m.y) + ", z: "@ + ron_of_v4(m.z) + ", w: "@
        + ron_of_v4(m.w) + " )"@
}

pub open spec fn ron_vec_items(s: Seq<V2V>) -> Seq<char>
    decreases s.len(),
{
    if s.len() == 0 {
        Seq::empty()
    } else if s.len() == 1 {
        ron_of_v2(s[0])
    } else {
        ron_vec_items(s.drop_last()) + ", "@ + ron_of_v2(s.last())
    }
}

pub open spec fn ron_of_vec(s: Seq<V2V>) -> Seq<char> {
    if s.len() == 0 {
        "[]"@
    } else {
        "[ "@ + ron_vec_items(s) + " ]"@
    }
}

/// One mapping entry; the key stays a bare integer.
pub open spec fn ron_map_entry(k: u32, v: V2V) -> Seq<char> {
    dec_text(k as nat) + ": "@ + ron_of_v2(v)
}

pub open spec fn ron_map_items(s: Seq<(u32, V2V)>) -> Seq<char>
    decreases s.len(),
{
    if s.len() == 0 {
        Seq::empty()
    } else if s.len() == 1 {
        ron_map_entry(s[0].0, s[0].1)
    } else {
        ron_map_items(s.drop_last()) + ", "@ + ron_map_entry(s.last().0, s.last().1)
    }
}

pub open spec fn ron_of_map(s: Seq<(u32, V2V)>) -> Seq<char> {
    if s.len() == 0 {
        "{}"@
    } else {
        "{ "@ + ron_map_items(s) + " }"@
    }
}

pub open spec fn ron_of_point(p: PointV) -> Seq<char> {
    "(\n  my_square: "@ + ron_of_square(p.my_square) + ",\n  my_vec: "@ + ron_of_vec(p.my_vec)
        + ",\n  my_map: "@ + ron_of_map(p.my_map) + ",\n  v3: "@ + ron_of_v3(p.v3) + ",\n  m4: "@
        + ron_of_m4(p.m4) + "\n)"@
}

// ----- executable emission -----

fn push_json_v2(out: &mut String, v: &Vec2)
    ensures
        final(out)@ == old(out)@ + json_of_v2(v@),
{
    out.append("{ \"x\": ");
    out.append(v.x.0.as_str());
    out.append(", \"y\": ");
    out.append(v.y.0.as_str());
    out.append(" }");
    proof {
        assert(out@ =~= old(out)@ + json_of_v2(v@));
    }
}

fn push_ron_v2(out: &mut String, v: &Vec2)
    ensures
        final(out)@ == old(out)@ + ron_of_v2(v@),
{
    out.append("( x: ");
    out.append(v.x.0.as_str());
    out.append(", y: ");
    out.append(v.y.0.as_str());
    out.append(" )");
    proof {
        assert(out@ =~= old(out)@ + ron_of_v2(v@));
    }
}

fn push_vec(out: &mut String, vs: &Vec<Vec2>, ron: bool)
    ensures
        !ron ==> final(out)@ == old(out)@ + json_of_vec(crate::decode::vecs_view(*vs)),
        ron ==> final(out)@ == old(out)@ + ron_of_vec(crate::decode::vecs_view(*vs)),
{
    let ghost vv = crate::decode::vecs_view(*vs);
    let n = vs.len();
    if n == 0 {
        out.append("[]");
        return ;
    }
    out.append("[ ");
    let mut i: usize = 0;
    while i < n
        invariant
            i <= n,
            n == vs@.len(),
            n > 0,
            vv == crate::decode::vecs_view(*vs),
            vv.len() == n,
            !ron ==> out@ == old(out)@ + "[ "@ + json_vec_items(vv.take(i as int)) + (
            if i == 0 || i == n {
                Seq::<char>::empty()
            } else {
                ", "@
            }),
            ron ==> out@ == old(out)@ + "[ "@ + ron_vec_items(vv.take(i as int)) + (
            if i == 0 || i == n {
                Seq::<char>::empty()
            } else {
                ", "@
            }),
        decreases n - i,
    {
        if ron {
            push_ron_v2(out, &vs[i]);
        } else {
            push_json_v2(out, &vs[i]);
        }
        proof {
            assert(vv.take(i + 1).drop_last() =~= vv.take(i as int));
            assert(vv.take(i + 1).last() == vv[i as int]);
        }
        i = i + 1;
        if i < n {
            out.append(", ");
        }
        proof {
            if !ron {
                assert(out@ =~= old(out)@ + "[ "@ + json_vec_items(vv.take(i as int)) + (
                if i == 0 || i == n {
                    Seq::<char>::empty()
                } else {
                    ", "@
                }));
            } else {
                assert(out@ =~= old(out)@ + "[ "@ + ron_vec_items(vv.take(i as int)) + (
                if i == 0 || i == n {
                    Seq::<char>::empty()
                } else {
                    ", "@
                }));
            }
        }
    }
    out.append(" ]");
    proof {
        assert(vv.take(n as int) =~= vv);
        if !ron {
            assert(out@ =~= old(out)@ + json_of_vec(vv));
        } else {
            assert(out@ =~= old(out)@ + ron_of_vec(vv));
        }
    }
}

#[verifier::rlimit(100)]
fn push_map(out: &mut String, es: &Vec<(u32, Vec2)>, ron: bool)
    ensures
        !ron ==> final(out)@ == old(out)@ + json_of_map(crate::decode::mapv_view(*es)),
        ron ==> final(out)@ == old(out)@ + ron_of_map(crate::decode::mapv_view(*es)),
{
    let ghost mv = crate::decode::mapv_view(*es);
    let n = es.len();
    if n == 0 {
        out.append("{}");
        return ;
    }
    out.append("{ ");
    let mut i: usize = 0;
    while i < n
        invariant
            i <= n,
            n == es@.len(),
            n > 0,
            mv == crate::decode::mapv_view(*es),
            mv.len() == n,
            !ron ==> out@ == old(out)@ + "{ "@ + json_map_items(mv.take(i as int)) + (
            if i == 0 || i == n {
                Seq::<char>::empty()
            } else {
                ", "@
            }),
            ron ==> out@ == old(out)@ + "{ "@ + ron_map_items(mv.take(i as int)) + (
            if i == 0 || i == n {
                Seq::<char>::empty()
            } else {
                ", "@
            }),
        decreases n - i,
    {
        if ron {
            out.append(crate::numtext::u32_text(es[i].0).as_str());
            out.append(": ");
            push_ron_v2(out, &es[i].1);
            proof {
                assert(out@ =~= old(out)@ + "{ "@ + ron_map_items(mv.take(i as int)) + (
                if i == 0 {
                    Seq::<char>::empty()
                } else {
                    ", "@
                }) + ron_map_entry(mv[i as int].0, mv[i as int].1));
            }
        } else {
            out.append("\"");
            out.append(crate::numtext::u32_text(es[i].0).as_str());
            out.append("\": ");
            push_json_v2(out, &es[i].1);
            proof {
                assert(out@ =~= old(out)@ + "{ "@ + json_map_items(mv.take(i as int)) + (
                if i == 0 {
                    Seq::<char>::empty()
                } else {
                    ", "@
                }) + json_map_entry(mv[i as int].0, mv[i as int].1));
            }
        }
        proof {
            assert(mv.take(i + 1).drop_last() =~= mv.take(i as int));
            assert(mv.take(i + 1).last() == mv[i as int]);
        }
        i = i + 1;
        if i < n {
            out.append(", ");
        }
        proof {
            if !ron {
                assert(out@ =~= old(out)@ + "{ "@ + json_map_items(mv.take(i as int)) + (
                if i == 0 || i == n {
                    Seq::<char>::empty()
                } else {
                    ", "@
                }));
            } else {
                assert(out@ =~= old(out)@ + "{ "@ + ron_map_items(mv.take(i as int)) + (
                if i == 0 || i == n {
                    Seq::<char>::empty()
                } else {
                    ", "@
                }));
            }
        }
    }
    out.append(" }");
    proof {
        assert(mv.take(n as int) =~= mv);
        if !ron {
            assert(out@ =~= old(out)@ + json_of_map(mv));
        } else {
            assert(out@ =~= old(out)@ + ron_of_map(mv));
        }
    }
}


fn push_json_square(out: &mut String, sq: &crate::model::Square)
    ensures
        final(out)@ == old(out)@ + json_of_square(sq@),
{
    out.append("{ \"width\": ");
    out.append(sq.width.0.as_str());
    out.append(", \"height\": ");
    out.append(sq.height.0.as_str());
    out.append(" }");
    proof {
        assert(out@ =~= old(out)@ + json_of_square(sq@));
    }
}

fn push_ron_square(out: &mut String, sq: &crate::model::Square)
    ensures
        final(out)@ == old(out)@ + ron_of_square(sq@),
{
    out.append("( width: ");
    out.append(sq.width.0.as_str());
    out.append(", height: ");
    out.append(sq.height.0.as_str());
    out.append(" )");
    proof {
        assert(out@ =~= old(out)@ + ron_of_square(sq@));
    }
}

fn push_json_v3(out: &mut String, v: &crate::model::Vec3)
    ensures
        final(out)@ == old(out)@ + json_of_v3(v@),
{
    out.append("{ \"x\": ");
    out.append(v.x.0.as_str());
    out.append(", \"y\": ");
    out.append(v.y.0.as_str());
    out.append(", \"z\": ");
    out.append(v.z.0.as_str());
    out.append(" }");
    proof {
        assert(out@ =~= old(out)@ + json_of_v3(v@));
    }
}

fn push_ron_v3(out: &mut String, v: &crate::model::Vec3)
    ensures
        final(out)@ == old(out)@ + ron_of_v3(v@),
{
    out.append("( x: ");
    out.append(v.x.0.as_str());
    out.append(", y: ");
    out.append(v.y.0.as_str());
    out.append(", z: ");
    out.append(v.z.0.as_str());
    out.append(" )");
    proof {
        assert(out@ =~= old(out)@ + ron_of_v3(v@));
    }
}

fn push_json_m4(out: &mut String, m: &crate::model::Matrix4Remote)
    ensures
        final(out)@ == old(out)@ + json_of_m4(m@),
{
    out.append("{ \"x\": ");
    push_json_v4(out, &m.x);
    out.append(", \"y\": ");
    push_json_v4(out, &m.y);
    out.append(", \"z\": ");
    push_json_v4(out, &m.z);
    out.append(", \"w\": ");
    push_json_v4(out, &m.w);
    out.append(" }");
    proof {
        assert(out@ =~= old(out)@ + json_of_m4(m@));
    }
}

fn push_ron_m4(out: &mut String, m: &crate::model::Matrix4Remote)
    ensures
        final(out)@ == old(out)@ + ron_of_m4(m@),
{
    out.append("( x: ");
    push_ron_v4(out, &m.x);
    out.append(", y: ");
    push_ron_v4(out, &m.y);
    out.append(", z: ");
    push_ron_v4(out, &m.z);
    out.append(", w: ");
    push_ron_v4(out, &m.w);
    out.append(" )");
    proof {
        assert(out@ =~= old(out)@ + ron_of_m4(m@));
    }
}

/// Writes the record as pretty JSON text: one persisted field per
/// line, nested values on the line of their field, and nothing at all
/// for the transient pair.
#[verifier::rlimit(100)]
pub fn encode_json(p: &Point) -> (r: String)
    ensures
        r@ == json_of_point(p@),
{
    let mut out = String::new();
    out.append("{\n  \"my_square\": ");
    push_json_square(&mut out, &p.my_square);
    out.append(",\n  \"my_vec\": ");
    push_vec(&mut out, &p.my_vec, false);
    out.append(",\n  \"my_map\": ");
    push_map(&mut out, &p.my_map, false);
    out.append(",\n  \"v3\": ");
    push_json_v3(&mut out, &p.v3);
    out.append(",\n  \"m4\": ");
    push_json_m4(&mut out, &p.m4);
    out.append("\n}");
    proof {
        assert(out@ =~= json_of_point(p@));
    }
    out
}

fn push_json_v4(out: &mut String, v: &crate::model::Vector4Remote)
    ensures
        final(out)@ == old(out)@ + json_of_v4(v@),
{
    out.append("{ \"x\": ");
    out.append(v.x.0.as_str());
    out.append(", \"y\": ");
    out.append(v.y.0.as_str());
    out.append(", \"z\": ");
    out.append(v.z.0.as_str());
    out.append(", \"w\": ");
    out.append(v.w.0.as_str());
    out.append(" }");
    proof {
        assert(out@ =~= old(out)@ + json_of_v4(v@));
    }
}

fn push_ron_v4(out: &mut String, v: &crate::model::Vector4Remote)
    ensures
        final(out)@ == old(out)@ + ron_of_v4(v@),
{
    out.append("( x: ");
    out.append(v.x.0.as_str());
    out.append(", y: ");
    out.append(v.y.0.as_str());
    out.append(", z: ");
    out.append(v.z.0.as_str());
    out.append(", w: ");
    out.append(v.w.0.as_str());
    out.append(" )");
    proof {
        assert(out@ =~= old(out)@ + ron_of_v4(v@));
    }
}

/// Writes the record as pretty RON text: parenthesized records with
/// bare field names, bare integer mapping keys, and nothing at all for
/// the transient pair.
#[verifier::rlimit(100)]
pub fn encode_ron(p: &Point) -> (r: String)
    ensures
        r@ == ron_of_point(p@),
{
    let mut out = String::new();
    out.append("(\n  my_square: ");
    push_ron_square(&mut out, &p.my_square);
    out.append(",\n  my_vec: ");
    push_vec(&mut out, &p.my_vec, true);
    out.append(",\n  my_map: ");
    push_map(&mut out, &p.my_map, true);
    out.append(",\n  v3: ");
    push_ron_v3(&mut out, &p.v3);
    out.append(",\n  m4: ");
    push_ron_m4(&mut out, &p.m4);
    out.append("\n)");
    proof {
        assert(out@ =~= ron_of_point(p@));
    }
    out
}

} // verus!
