use vstd::prelude::*;

verus! {

/// A parsed textual value tree shared by both surface grammars.
///
/// Both decoders work over this one shape, so the record schema is
/// interpreted exactly once, whatever the surface text looked like.
/// `Other` stands for any input construct the schema never speaks of
/// (raw bytes, characters, and the like); the decoder treats it as a
/// value of the wrong shape.
#[derive(Debug, PartialEq)]
pub enum Val {
    Null,
    Bool(bool),
    Num(String),
    Str(String),
    Arr(Vec<Val>),
    Obj(Vec<(String, Val)>),
    Other,
}

/// Mathematical model of a value tree.
pub enum ValV {
    Null,
    Bool(bool),
    Num(Seq<char>),
    Str(Seq<char>),
    Arr(Seq<ValV>),
    Obj(Seq<(Seq<char>, ValV)>),
    Other,
}

/// The model of a tree: every string is replaced by its character sequence.
pub open spec fn val_view(v: Val) -> ValV
    decreases v, 0int,
{
    match v {
        Val::Null => ValV::Null,
        Val::Bool(b) => ValV::Bool(b),
        Val::Num(t) => ValV::Num(t@),
        Val::Str(t) => ValV::Str(t@),
        Val::Arr(vs) => ValV::Arr(arr_view(vs, 0)),
        Val::Obj(es) => ValV::Obj(obj_view(es, 0)),
        Val::Other => ValV::Other,
    }
}

/// Models the elements of `vs` from position `i` on.
pub open spec fn arr_view(vs: Vec<Val>, i: int) -> Seq<ValV>
    decreases vs, vs@.len() - i,
    via arr_view_decreases
{
    if i < 0 || i >= vs@.len() {
        Seq::empty()
    } else {
        seq![val_view(vs[i])] + arr_view(vs, i + 1)
    }
}

#[via_fn]
proof fn arr_view_decreases(vs: Vec<Val>, i: int) {
    if 0 <= i < vs@.len() {
        vstd::std_specs::vec::axiom_vec_index_decreases(vs, i);
    }
}

/// Models the entries of `es` from position `i` on.
pub open spec fn obj_view(es: Vec<(String, Val)>, i: int) -> Seq<(Seq<char>, ValV)>
    decreases es, es@.len() - i,
    via obj_view_decreases
{
    if i < 0 || i >= es@.len() {
        Seq::empty()
    } else {
        seq![(es[i].0@, val_view(es[i].1))] + obj_view(es, i + 1)
    }
}

#[via_fn]
proof fn obj_view_decreases(es: Vec<(String, Val)>, i: int) {
    if 0 <= i < es@.len() {
        vstd::std_specs::vec::axiom_vec_index_decreases(es, i);
    }
}

impl View for Val {
    type V = ValV;

    open spec fn view(&self) -> ValV {
        val_view(*self)
    }
}

/// The tail models have the expected length and elements.
pub proof fn lemma_arr_view(vs: Vec<Val>, i: int)
    requires
        0 <= i <= vs@.len(),
    ensures
        arr_view(vs, i).len() == vs@.len() - i,
        forall|j: int| i <= j < vs@.len() ==> arr_view(vs, i)[j - i] == val_view(vs[j]),
    decreases vs@.len() - i,
{
    if i < vs@.len() {
        lemma_arr_view(vs, i + 1);
    }
}

/// The entry models have the expected length and elements.
pub proof fn lemma_obj_view(es: Vec<(String, Val)>, i: int)
    requires
        0 <= i <= es@.len(),
    ensures
        obj_view(es, i).len() == es@.len() - i,
        forall|j: int| i <= j < es@.len() ==> obj_view(es, i)[j - i] == (
            es[j].0@,
            val_view(es[j].1),
        ),
    decreases es@.len() - i,
{
    if i < es@.len() {
        lemma_obj_view(es, i + 1);
    }
}

} // verus!
