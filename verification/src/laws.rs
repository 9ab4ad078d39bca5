use vstd::prelude::*;

use crate::codec::{json_decode_spec, json_tree, ron_decode_spec, ron_tree};
use crate::decode::{
    ErrV, field_num, field_v4, m4_of, map_fold, mapv_view, num_of, obj_get, point_of, sq_of,
    spec_has_key, v2_of, v2s_of, v3_of, v4_of, vecs_view,
};
use crate::encode::{json_of_point, ron_of_point};
use crate::model::{
    M4V, Matrix4Remote, Point, PointV, Real, Square, V2V, V4V, Vec2, Vec3, Vector4Remote, m4_wf,
    non_transient_eq, point_wf, square_wf, v2_wf, v3_wf, v4_wf,
};
use crate::numtext::{dec_text, lemma_u32_text_round_trip, spec_parse_u32, u32_text};
use crate::value::{Val, ValV, arr_view, lemma_arr_view, lemma_obj_view, obj_view, val_view};

verus! {

broadcast use vstd::string::group_string_axioms;


/// The schema's field names are pairwise distinct character sequences.
proof fn lemma_keys()
    ensures
        "x"@ != "y"@,
        "x"@ != "z"@,
        "x"@ != "w"@,
        "y"@ != "z"@,
        "y"@ != "w"@,
        "z"@ != "w"@,
        "width"@ != "height"@,
        "my_square"@ != "my_vec"@,
        "my_square"@ != "my_map"@,
        "my_square"@ != "v3"@,
        "my_square"@ != "m4"@,
        "my_vec"@ != "my_map"@,
        "my_vec"@ != "v3"@,
        "my_vec"@ != "m4"@,
        "my_map"@ != "v3"@,
        "my_map"@ != "m4"@,
        "v3"@ != "m4"@,
{
    reveal_strlit("x");
    reveal_strlit("y");
    reveal_strlit("z");
    reveal_strlit("w");
    reveal_strlit("width");
    reveal_strlit("height");
    reveal_strlit("my_square");
    reveal_strlit("my_vec");
    reveal_strlit("my_map");
    reveal_strlit("v3");
    reveal_strlit("m4");
    assert("x"@[0] == 'x' && "y"@[0] == 'y' && "z"@[0] == 'z' && "w"@[0] == 'w');
    assert("width"@.len() == 5 && "height"@.len() == 6);
    assert("my_square"@.len() == 9 && "my_vec"@.len() == 6 && "my_map"@.len() == 6);
    assert("my_vec"@[3] == 'v' && "my_map"@[3] == 'm');
    assert("v3"@.len() == 2 && "m4"@.len() == 2);
    assert("v3"@[0] == 'v' && "m4"@[0] == 'm');
}

/// A lookup finds the entry at `i` when no earlier entry has its key.
proof fn lemma_obj_get_at(es: Seq<(Seq<char>, ValV)>, i: int, key: Seq<char>)
    requires
        0 <= i < es.len(),
        es[i].0 == key,
        forall|j: int| 0 <= j < i ==> (#[trigger] es[j]).0 != key,
    ensures
        obj_get(es, key) == Some(es[i].1),
    decreases i,
{
    if i == 0 {
        assert(obj_get(es, key) == Some(es[0].1));
    } else {
        let t = es.drop_first();
        assert(obj_get(es, key) == obj_get(t, key));
        assert(t[i - 1].0 == key);
        assert forall|j: int| 0 <= j < i - 1 implies (#[trigger] t[j]).0 != key by {
            assert(t[j] == es[j + 1]);
        }
        lemma_obj_get_at(t, i - 1, key);
        assert(t[i - 1] == es[i]);
    }
}

fn real_val(r: &Real) -> (v: Val)
    ensures
        val_view(v) == ValV::Num(r.text()),
{
    Val::Num(r.0.clone())
}

/// The canonical tree of a 2-vector in its record form.
fn v2_val(v: &Vec2) -> (r: Val)
    requires
        v2_wf(v@),
    ensures
        forall|name: Seq<char>| #[trigger] v2_of(val_view(r), name) == Ok::<V2V, ErrV>(v@),
{
    let mut es: Vec<(String, Val)> = Vec::new();
    es.push((String::from_str("x"), real_val(&v.x)));
    es.push((String::from_str("y"), real_val(&v.y)));
    let r = Val::Obj(es);
    proof {
        lemma_keys();
        let ov = obj_view(es, 0);
        lemma_obj_view(es, 0);
        assert(val_view(r) == ValV::Obj(ov));
        assert(ov[0] == (es@[0].0@, val_view(es@[0].1)));
        assert(es@[0].0@ == "x"@);
        assert(ov[0].0 == "x"@);
        assert(ov[1] == (es@[1].0@, val_view(es@[1].1)));
        assert(es@[1].0@ == "y"@);
        assert(ov[1].0 == "y"@);
        lemma_obj_get_at(ov, 0, "x"@);
        lemma_obj_get_at(ov, 1, "y"@);
        assert forall|name: Seq<char>| #[trigger] v2_of(val_view(r), name) == Ok::<V2V, ErrV>(
            v@,
        ) by {
            assert(field_num(ov, "x"@) == Ok::<Seq<char>, ErrV>(v.x.text()));
            assert(field_num(ov, "y"@) == Ok::<Seq<char>, ErrV>(v.y.text()));
        }
    }
    r
}

/// The canonical tree of the nested simple record.
fn square_val(s: &Square) -> (r: Val)
    requires
        square_wf(s@),
    ensures
        sq_of(val_view(r)) == Ok::<crate::model::SquareV, ErrV>(s@),
{
    let mut es: Vec<(String, Val)> = Vec::new();
    es.push((String::from_str("width"), real_val(&s.width)));
    es.push((String::from_str("height"), real_val(&s.height)));
    let r = Val::Obj(es);
    proof {
        lemma_keys();
        let ov = obj_view(es, 0);
        lemma_obj_view(es, 0);
        assert(ov[0] == (es@[0].0@, val_view(es@[0].1)));
        assert(es@[0].0@ == "width"@);
        assert(ov[0].0 == "width"@);
        assert(ov[1] == (es@[1].0@, val_view(es@[1].1)));
        assert(es@[1].0@ == "height"@);
        assert(ov[1].0 == "height"@);
        lemma_obj_get_at(ov, 0, "width"@);
        lemma_obj_get_at(ov, 1, "height"@);
    }
    r
}

/// The canonical tree of the 3-vector.
fn v3_val(v: &Vec3) -> (r: Val)
    requires
        v3_wf(v@),
    ensures
        v3_of(val_view(r)) == Ok::<crate::model::V3V, ErrV>(v@),
{
    let mut es: Vec<(String, Val)> = Vec::new();
    es.push((String::from_str("x"), real_val(&v.x)));
    es.push((String::from_str("y"), real_val(&v.y)));
    es.push((String::from_str("z"), real_val(&v.z)));
    let r = Val::Obj(es);
    proof {
        lemma_keys();
        let ov = obj_view(es, 0);
        lemma_obj_view(es, 0);
        assert(ov[0] == (es@[0].0@, val_view(es@[0].1)));
        assert(es@[0].0@ == "x"@);
        assert(ov[0].0 == "x"@);
        assert(ov[1] == (es@[1].0@, val_view(es@[1].1)));
        assert(es@[1].0@ == "y"@);
        assert(ov[1].0 == "y"@);
        assert(ov[2] == (es@[2].0@, val_view(es@[2].1)));
        assert(es@[2].0@ == "z"@);
        assert(ov[2].0 == "z"@);
        lemma_obj_get_at(ov, 0, "x"@);
        lemma_obj_get_at(ov, 1, "y"@);
        lemma_obj_get_at(ov, 2, "z"@);
    }
    r
}

/// The canonical tree of one matrix column, through the 4-vector twin.
fn v4_val(v: &Vector4Remote) -> (r: Val)
    requires
        v4_wf(v@),
    ensures
        forall|name: Seq<char>| #[trigger] v4_of(val_view(r), name) == Ok::<V4V, ErrV>(v@),
{
    let mut es: Vec<(String, Val)> = Vec::new();
    es.push((String::from_str("x"), real_val(&v.x)));
    es.push((String::from_str("y"), real_val(&v.y)));
    es.push((String::from_str("z"), real_val(&v.z)));
    es.push((String::from_str("w"), real_val(&v.w)));
    let r = Val::Obj(es);
    proof {
        lemma_keys();
        let ov = obj_view(es, 0);
        lemma_obj_view(es, 0);
        assert(ov[0] == (es@[0].0@, val_view(es@[0].1)));
        assert(es@[0].0@ == "x"@);
        assert(ov[0].0 == "x"@);
        assert(ov[1] == (es@[1].0@, val_view(es@[1].1)));
        assert(es@[1].0@ == "y"@);
        assert(ov[1].0 == "y"@);
        assert(ov[2] == (es@[2].0@, val_view(es@[2].1)));
        assert(es@[2].0@ == "z"@);
        assert(ov[2].0 == "z"@);
        assert(ov[3] == (es@[3].0@, val_view(es@[3].1)));
        assert(es@[3].0@ == "w"@);
        assert(ov[3].0 == "w"@);
        assert(ov[0] == (es@[0].0@, val_view(es@[0].1)));
        assert(es@[0].0@ == "x"@);
        assert(ov[0].0 == "x"@);
        assert(ov[1] == (es@[1].0@, val_view(es@[1].1)));
        assert(es@[1].0@ == "y"@);
        assert(ov[1].0 == "y"@);
        assert(ov[2] == (es@[2].0@, val_view(es@[2].1)));
        assert(es@[2].0@ == "z"@);
        assert(ov[2].0 == "z"@);
        lemma_obj_get_at(ov, 0, "x"@);
        lemma_obj_get_at(ov, 1, "y"@);
        lemma_obj_get_at(ov, 2, "z"@);
        lemma_obj_get_at(ov, 3, "w"@);
        assert forall|name: Seq<char>| #[trigger] v4_of(val_view(r), name) == Ok::<V4V, ErrV>(
            v@,
        ) by {
            assert(field_num(ov, "x"@) == Ok::<Seq<char>, ErrV>(v.x.text()));
            assert(field_num(ov, "y"@) == Ok::<Seq<char>, ErrV>(v.y.text()));
            assert(field_num(ov, "z"@) == Ok::<Seq<char>, ErrV>(v.z.text()));
            assert(field_num(ov, "w"@) == Ok::<Seq<char>, ErrV>(v.w.text()));
        }
    }
    r
}

/// The canonical tree of the matrix: a record of four columns.
fn m4_val(m: &Matrix4Remote) -> (r: Val)
    requires
        m4_wf(m@),
    ensures
        m4_of(val_view(r)) == Ok::<M4V, ErrV>(m@),
{
    let mut es: Vec<(String, Val)> = Vec::new();
    es.push((String::from_str("x"), v4_val(&m.x)));
    es.push((String::from_str("y"), v4_val(&m.y)));
    es.push((String::from_str("z"), v4_val(&m.z)));
    es.push((String::from_str("w"), v4_val(&m.w)));
    let r = Val::Obj(es);
    proof {
        lemma_keys();
        let ov = obj_view(es, 0);
        lemma_obj_view(es, 0);
        assert(ov[0] == (es@[0].0@, val_view(es@[0].1)));
        assert(es@[0].0@ == "x"@);
        assert(ov[0].0 == "x"@);
        assert(ov[1] == (es@[1].0@, val_view(es@[1].1)));
        assert(es@[1].0@ == "y"@);
        assert(ov[1].0 == "y"@);
        assert(ov[2] == (es@[2].0@, val_view(es@[2].1)));
        assert(es@[2].0@ == "z"@);
        assert(ov[2].0 == "z"@);
        assert(ov[3] == (es@[3].0@, val_view(es@[3].1)));
        assert(es@[3].0@ == "w"@);
        assert(ov[3].0 == "w"@);
        assert(ov[0] == (es@[0].0@, val_view(es@[0].1)));
        assert(es@[0].0@ == "x"@);
        assert(ov[0].0 == "x"@);
        assert(ov[1] == (es@[1].0@, val_view(es@[1].1)));
        assert(es@[1].0@ == "y"@);
        assert(ov[1].0 == "y"@);
        assert(ov[2] == (es@[2].0@, val_view(es@[2].1)));
        assert(es@[2].0@ == "z"@);
        assert(ov[2].0 == "z"@);
        lemma_obj_get_at(ov, 0, "x"@);
        lemma_obj_get_at(ov, 1, "y"@);
        lemma_obj_get_at(ov, 2, "z"@);
        lemma_obj_get_at(ov, 3, "w"@);
        assert(field_v4(ov, "x"@) == Ok::<V4V, ErrV>(m.x@));
        assert(field_v4(ov, "y"@) == Ok::<V4V, ErrV>(m.y@));
        assert(field_v4(ov, "z"@) == Ok::<V4V, ErrV>(m.z@));
        assert(field_v4(ov, "w"@) == Ok::<V4V, ErrV>(m.w@));
    }
    r
}

/// A sequence whose elements all read back gives the read-back views.
proof fn lemma_v2s_ok(elems: Seq<ValV>, views: Seq<V2V>)
    requires
        elems.len() == views.len(),
        forall|i: int|
            0 <= i < elems.len() ==> v2_of(#[trigger] elems[i], "my_vec"@) == Ok::<V2V, ErrV>(
                views[i],
            ),
    ensures
        v2s_of(elems) == Ok::<Seq<V2V>, ErrV>(views),
    decreases elems.len(),
{
    if elems.len() == 0 {
        assert(views =~= Seq::<V2V>::empty());
    } else {
        lemma_v2s_ok(elems.drop_last(), views.drop_last());
        assert(v2s_of(elems) == Ok::<Seq<V2V>, ErrV>(views.drop_last().push(views.last())));
        assert(views.drop_last().push(views.last()) =~= views);
    }
}

/// The canonical tree of the ordered sequence.
fn vec_val(vs: &Vec<Vec2>) -> (r: Val)
    requires
        forall|i: int| 0 <= i < vs@.len() ==> v2_wf(#[trigger] vecs_view(*vs)[i]),
    ensures
        (match val_view(r) {
            ValV::Arr(elems) => v2s_of(elems) == Ok::<Seq<V2V>, ErrV>(vecs_view(*vs)),
            _ => false,
        }),
{
    let n = vs.len();
    let mut out: Vec<Val> = Vec::new();
    let mut i: usize = 0;
    while i < n
        invariant
            i <= n,
            n == vs@.len(),
            out@.len() == i,
            forall|i0: int| 0 <= i0 < vs@.len() ==> v2_wf(#[trigger] vecs_view(*vs)[i0]),
            forall|j: int, name: Seq<char>|
                0 <= j < i ==> #[trigger] v2_of(val_view(out@[j]), name) == Ok::<V2V, ErrV>(
                    vecs_view(*vs)[j],
                ),
        decreases n - i,
    {
        proof {
            assert(vecs_view(*vs)[i as int] == vs@[i as int]@);
        }
        let t = v2_val(&vs[i]);
        out.push(t);
        i = i + 1;
    }
    let r = Val::Arr(out);
    proof {
        let av = arr_view(out, 0);
        lemma_arr_view(out, 0);
        assert(av.len() == vecs_view(*vs).len());
        assert forall|j: int| 0 <= j < av.len() implies v2_of(#[trigger] av[j], "my_vec"@) == Ok::<
            V2V,
            ErrV,
        >(vecs_view(*vs)[j]) by {
            assert(av[j] == val_view(out@[j]));
        }
        lemma_v2s_ok(av, vecs_view(*vs));
    }
    r
}

/// A mapping whose entries all read back, with distinct keys, gives the
/// read-back entries in order.
proof fn lemma_map_fold_ok(mes: Seq<(Seq<char>, ValV)>, views: Seq<(u32, V2V)>)
    requires
        mes.len() == views.len(),
        forall|i: int|
            0 <= i < mes.len() ==> spec_parse_u32((#[trigger] mes[i]).0) == Some(views[i].0),
        forall|i: int|
            0 <= i < mes.len() ==> v2_of((#[trigger] mes[i]).1, "my_map"@) == Ok::<V2V, ErrV>(
                views[i].1,
            ),
        forall|i: int, j: int|
            0 <= i < j < views.len() ==> (#[trigger] views[i]).0 != (#[trigger] views[j]).0,
    ensures
        map_fold(mes) == Ok::<Seq<(u32, V2V)>, ErrV>(views),
    decreases mes.len(),
{
    if mes.len() == 0 {
        assert(views =~= Seq::<(u32, V2V)>::empty());
    } else {
        lemma_map_fold_ok(mes.drop_last(), views.drop_last());
        let k = views.last().0;
        assert(!spec_has_key(views.drop_last(), k));
        assert(map_fold(mes) == Ok::<Seq<(u32, V2V)>, ErrV>(
            views.drop_last().push(views.last()),
        ));
        assert(views.drop_last().push(views.last()) =~= views);
    }
}

/// The canonical tree of the mapping: keys become decimal text.
fn map_val(es: &Vec<(u32, Vec2)>) -> (r: Val)
    requires
        forall|i: int| 0 <= i < es@.len() ==> v2_wf((#[trigger] mapv_view(*es)[i]).1),
        forall|i: int, j: int|
            0 <= i < j < es@.len() ==> (#[trigger] mapv_view(*es)[i]).0 != (
            #[trigger] mapv_view(*es)[j]).0,
    ensures
        (match val_view(r) {
            ValV::Obj(mes) => map_fold(mes) == Ok::<Seq<(u32, V2V)>, ErrV>(mapv_view(*es)),
            _ => false,
        }),
{
    let n = es.len();
    let mut out: Vec<(String, Val)> = Vec::new();
    let mut i: usize = 0;
    while i < n
        invariant
            i <= n,
            n == es@.len(),
            out@.len() == i,
            forall|i0: int| 0 <= i0 < es@.len() ==> v2_wf((#[trigger] mapv_view(*es)[i0]).1),
            forall|i0: int, j0: int|
                0 <= i0 < j0 < es@.len() ==> (#[trigger] mapv_view(*es)[i0]).0 != (
                #[trigger] mapv_view(*es)[j0]).0,
            forall|j: int|
                0 <= j < i ==> (#[trigger] out@[j]).0@ == dec_text(mapv_view(*es)[j].0 as nat),
            forall|j: int, name: Seq<char>|
                0 <= j < i ==> #[trigger] v2_of(val_view(out@[j].1), name) == Ok::<V2V, ErrV>(
                    mapv_view(*es)[j].1,
                ),
        decreases n - i,
    {
        proof {
            assert(mapv_view(*es)[i as int] == (es@[i as int].0, es@[i as int].1@));
        }
        let key = u32_text(es[i].0);
        let t = v2_val(&es[i].1);
        out.push((key, t));
        i = i + 1;
    }
    let r = Val::Obj(out);
    proof {
        let ov = obj_view(out, 0);
        lemma_obj_view(out, 0);
        let mv = mapv_view(*es);
        assert(ov.len() == mv.len());
        assert forall|j: int| 0 <= j < ov.len() implies spec_parse_u32((#[trigger] ov[j]).0)
            == Some(mv[j].0) by {
            assert(ov[j].0 == out@[j].0@);
            lemma_u32_text_round_trip(mv[j].0);
        }
        assert forall|j: int| 0 <= j < ov.len() implies v2_of((#[trigger] ov[j]).1, "my_map"@)
            == Ok::<V2V, ErrV>(mv[j].1) by {
            assert(ov[j].1 == val_view(out@[j].1));
        }
        lemma_map_fold_ok(ov, mv);
    }
    r
}

/// The canonical value tree of a record: the tree both text encoders
/// write, with the transient pair left out.
///
/// Its contract is the round trip in one line: reading the canonical
/// tree of any well-formed record back through the schema yields the
/// record again, with every persisted field equal — the sequence in
/// its order, the mapping entry for entry — and the transient pair
/// reset to zero.
#[verifier::rlimit(100)]
pub fn point_to_value(p: &Point) -> (r: Val)
    requires
        point_wf(p@),
    ensures
        point_of(val_view(r)) == Ok::<PointV, ErrV>(
            (PointV {
                x: 0,
                y: 0,
                my_square: p@.my_square,
                my_vec: p@.my_vec,
                my_map: p@.my_map,
                v3: p@.v3,
                m4: p@.m4,
            }),
        ),
        (match point_of(val_view(r)) {
            Ok(q) => non_transient_eq(q, p@) && q.x == 0 && q.y == 0,
            Err(_) => false,
        }),
{
    let mut es: Vec<(String, Val)> = Vec::new();
    es.push((String::from_str("my_square"), square_val(&p.my_square)));
    proof {
        assert(vecs_view(p.my_vec) =~= p@.my_vec);
        assert(mapv_view(p.my_map) =~= p@.my_map);
    }
    es.push((String::from_str("my_vec"), vec_val(&p.my_vec)));
    es.push((String::from_str("my_map"), map_val(&p.my_map)));
    es.push((String::from_str("v3"), v3_val(&p.v3)));
    es.push((String::from_str("m4"), m4_val(&p.m4)));
    let r = Val::Obj(es);
    proof {
        lemma_keys();
        let ov = obj_view(es, 0);
        lemma_obj_view(es, 0);
        assert(ov[0] == (es@[0].0@, val_view(es@[0].1)));
        assert(es@[0].0@ == "my_square"@);
        assert(ov[0].0 == "my_square"@);
        assert(ov[1] == (es@[1].0@, val_view(es@[1].1)));
        assert(es@[1].0@ == "my_vec"@);
        assert(ov[1].0 == "my_vec"@);
        assert(ov[2] == (es@[2].0@, val_view(es@[2].1)));
        assert(es@[2].0@ == "my_map"@);
        assert(ov[2].0 == "my_map"@);
        assert(ov[3] == (es@[3].0@, val_view(es@[3].1)));
        assert(es@[3].0@ == "v3"@);
        assert(ov[3].0 == "v3"@);
        assert(ov[4] == (es@[4].0@, val_view(es@[4].1)));
        assert(es@[4].0@ == "m4"@);
        assert(ov[4].0 == "m4"@);
        lemma_obj_get_at(ov, 0, "my_square"@);
        lemma_obj_get_at(ov, 1, "my_vec"@);
        lemma_obj_get_at(ov, 2, "my_map"@);
        lemma_obj_get_at(ov, 3, "v3"@);
        lemma_obj_get_at(ov, 4, "m4"@);
    }
    r
}

/// Transient exclusion: the text either encoder writes depends only on
/// the persisted fields. Two records that agree on everything but the
/// transient pair produce character-for-character the same JSON and the
/// same RON.
pub proof fn lemma_transient_exclusion(a: PointV, b: PointV)
    requires
        a.my_square == b.my_square,
        a.my_vec == b.my_vec,
        a.my_map == b.my_map,
        a.v3 == b.v3,
        a.m4 == b.m4,
    ensures
        json_of_point(a) == json_of_point(b),
        ron_of_point(a) == ron_of_point(b),
{
}

/// Format independence: two texts, one per encoding, that stand for
/// the same value tree decode to the same outcome — the same record or
/// the same error.
pub proof fn lemma_format_independence(sj: Seq<char>, sr: Seq<char>)
    requires
        json_tree(sj) == ron_tree(sr),
    ensures
        json_decode_spec(sj) == ron_decode_spec(sr),
{
}

} // verus!
