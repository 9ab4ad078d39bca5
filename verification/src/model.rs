use vstd::prelude::*;

use crate::numtext::is_num_text;

verus! {

/// A 32-bit floating-point quantity, carried as its decimal literal text.
///
/// The verified core never computes with floating-point values; it treats
/// a number as the text that names it. A `Real` is well formed when its
/// text lies in the decimal number grammar that both surface encodings
/// share, so the text names exactly one value and both parsers accept it.
#[derive(Debug, Clone, PartialEq)]
pub struct Real(pub String);

impl Real {
    /// The character sequence that names the quantity.
    pub open spec fn text(self) -> Seq<char> {
        self.0@
    }

    /// The text lies in the shared decimal number grammar.
    pub open spec fn wf(self) -> bool {
        is_num_text(self.text())
    }
}

/// A nested simple record: both fields are persisted.
#[derive(Debug, Clone, PartialEq)]
pub struct Square {
    pub width: Real,
    pub height: Real,
}

/// A 2-component vector, the element type of the record's containers.
#[derive(Debug, Clone, PartialEq)]
pub struct Vec2 {
    pub x: Real,
    pub y: Real,
}

impl Vec2 {
    /// Builds the vector from its two components.
    pub fn new(x: Real, y: Real) -> (r: Vec2)
        ensures
            r.x == x,
            r.y == y,
    {
        Vec2 { x, y }
    }
}

/// A 3-component vector, persisted in its natural record form.
#[derive(Debug, Clone, PartialEq)]
pub struct Vec3 {
    pub x: Real,
    pub y: Real,
    pub z: Real,
}

/// The serialization twin of a foreign 4-component vector: a local record
/// whose named fields mirror the foreign value's public structure.
#[derive(Debug, Clone, PartialEq)]
pub struct Vector4Remote {
    pub x: Real,
    pub y: Real,
    pub z: Real,
    pub w: Real,
}

/// The serialization twin of a foreign 4x4 matrix, modelled as four
/// column vectors; each column goes through the `Vector4Remote` twin.
#[derive(Debug, Clone, PartialEq)]
pub struct Matrix4Remote {
    pub x: Vector4Remote,
    pub y: Vector4Remote,
    pub z: Vector4Remote,
    pub w: Vector4Remote,
}

/// The composite record. `x` and `y` are transient: they live on the
/// in-memory value but are omitted from every serialized form, and a
/// decoded record carries zero in both.
#[derive(Debug, Clone, PartialEq)]
pub struct Point {
    pub x: i32,
    pub y: i32,
    pub my_square: Square,
    pub my_vec: Vec<Vec2>,
    pub my_map: Vec<(u32, Vec2)>,
    pub v3: Vec3,
    pub m4: Matrix4Remote,
}

// ----- mathematical models -----

pub struct SquareV {
    pub width: Seq<char>,
    pub height: Seq<char>,
}

pub struct V2V {
    pub x: Seq<char>,
    pub y: Seq<char>,
}

pub struct V3V {
    pub x: Seq<char>,
    pub y: Seq<char>,
    pub z: Seq<char>,
}

pub struct V4V {
    pub x: Seq<char>,
    pub y: Seq<char>,
    pub z: Seq<char>,
    pub w: Seq<char>,
}

pub struct M4V {
    pub x: V4V,
    pub y: V4V,
    pub z: V4V,
    pub w: V4V,
}

pub struct PointV {
    pub x: int,
    pub y: int,
    pub my_square: SquareV,
    pub my_vec: Seq<V2V>,
    pub my_map: Seq<(u32, V2V)>,
    pub v3: V3V,
    pub m4: M4V,
}

impl View for Square {
    type V = SquareV;

    open spec fn view(&self) -> SquareV {
        SquareV { width: self.width.text(), height: self.height.text() }
    }
}

impl View for Vec2 {
    type V = V2V;

    open spec fn view(&self) -> V2V {
        V2V { x: self.x.text(), y: self.y.text() }
    }
}

impl View for Vec3 {
    type V = V3V;

    open spec fn view(&self) -> V3V {
        V3V { x: self.x.text(), y: self.y.text(), z: self.z.text() }
    }
}

impl View for Vector4Remote {
    type V = V4V;

    open spec fn view(&self) -> V4V {
        V4V { x: self.x.text(), y: self.y.text(), z: self.z.text(), w: self.w.text() }
    }
}

impl View for Matrix4Remote {
    type V = M4V;

    open spec fn view(&self) -> M4V {
        M4V { x: self.x@, y: self.y@, z: self.z@, w: self.w@ }
    }
}

impl View for Point {
    type V = PointV;

    open spec fn view(&self) -> PointV {
        PointV {
            x: self.x as int,
            y: self.y as int,
            my_square: self.my_square@,
            my_vec: Seq::new(self.my_vec@.len(), |i: int| self.my_vec@[i]@),
            my_map: Seq::new(self.my_map@.len(), |i: int| (self.my_map@[i].0, self.my_map@[i].1@)),
            v3: self.v3@,
            m4: self.m4@,
        }
    }
}

// ----- well-formedness -----

pub open spec fn square_wf(s: SquareV) -> bool {
    is_num_text(s.width) && is_num_text(s.height)
}

pub open spec fn v2_wf(v: V2V) -> bool {
    is_num_text(v.x) && is_num_text(v.y)
}

pub open spec fn v3_wf(v: V3V) -> bool {
    is_num_text(v.x) && is_num_text(v.y) && is_num_text(v.z)
}

pub open spec fn v4_wf(v: V4V) -> bool {
    is_num_text(v.x) && is_num_text(v.y) && is_num_text(v.z) && is_num_text(v.w)
}

pub open spec fn m4_wf(m: M4V) -> bool {
    v4_wf(m.x) && v4_wf(m.y) && v4_wf(m.z) && v4_wf(m.w)
}

/// Every number text of the record lies in the shared grammar, and the
/// mapping's keys are unique. Encoding is stated for such records, and
/// every record a decoder returns satisfies this.
pub open spec fn point_wf(p: PointV) -> bool {
    &&& square_wf(p.my_square)
    &&& forall|i: int| 0 <= i < p.my_vec.len() ==> v2_wf(#[trigger] p.my_vec[i])
    &&& forall|i: int| 0 <= i < p.my_map.len() ==> v2_wf((#[trigger] p.my_map[i]).1)
    &&& forall|i: int, j: int|
        0 <= i < j < p.my_map.len() ==> (#[trigger] p.my_map[i]).0 != (#[trigger] p.my_map[j]).0
    &&& v3_wf(p.v3)
    &&& m4_wf(p.m4)
}

// ----- equality up to transient state -----

/// The unordered mapping a key/value list stands for; a later entry for
/// a key replaces an earlier one.
pub open spec fn assoc_map(s: Seq<(u32, V2V)>) -> Map<u32, V2V>
    decreases s.len(),
{
    if s.len() == 0 {
        Map::empty()
    } else {
        assoc_map(s.drop_last()).insert(s.last().0, s.last().1)
    }
}

/// Equality on every persisted field: order-sensitive on the vector
/// sequence, order-insensitive on the mapping, and silent on the
/// transient pair `x`, `y`.
pub open spec fn non_transient_eq(a: PointV, b: PointV) -> bool {
    &&& a.my_square == b.my_square
    &&& a.my_vec == b.my_vec
    &&& assoc_map(a.my_map) =~= assoc_map(b.my_map)
    &&& a.v3 == b.v3
    &&& a.m4 == b.m4
}

} // verus!

verus! {

/// Checks one 4-vector twin's number texts.
fn v4_ok(v: &Vector4Remote) -> (r: bool)
    ensures
        r == v4_wf(v@),
{
    crate::numtext::is_number_text(v.x.0.as_str()) && crate::numtext::is_number_text(
        v.y.0.as_str(),
    ) && crate::numtext::is_number_text(v.z.0.as_str()) && crate::numtext::is_number_text(
        v.w.0.as_str(),
    )
}

/// Checks one 2-vector's number texts.
fn v2_ok(v: &Vec2) -> (r: bool)
    ensures
        r == v2_wf(v@),
{
    crate::numtext::is_number_text(v.x.0.as_str()) && crate::numtext::is_number_text(
        v.y.0.as_str(),
    )
}

impl Point {
    /// Decides well-formedness at run time, so that a caller holding a
    /// record of unknown provenance can establish what encoding and the
    /// canonical tree ask of their argument.
    pub fn wf_check(&self) -> (r: bool)
        ensures
            r == point_wf(self@),
    {
        if !(crate::numtext::is_number_text(self.my_square.width.0.as_str())
            && crate::numtext::is_number_text(self.my_square.height.0.as_str())) {
            return false;
        }
        if !(crate::numtext::is_number_text(self.v3.x.0.as_str())
            && crate::numtext::is_number_text(self.v3.y.0.as_str())
            && crate::numtext::is_number_text(self.v3.z.0.as_str())) {
            return false;
        }
        if !(v4_ok(&self.m4.x) && v4_ok(&self.m4.y) && v4_ok(&self.m4.z) && v4_ok(&self.m4.w)) {
            return false;
        }
        let n = self.my_vec.len();
        let mut i: usize = 0;
        while i < n
            invariant
                i <= n,
                n == self.my_vec@.len(),
                forall|j: int| 0 <= j < i ==> v2_wf(#[trigger] self@.my_vec[j]),
            decreases n - i,
        {
            if !v2_ok(&self.my_vec[i]) {
                proof {
                    assert(self@.my_vec[i as int] == self.my_vec@[i as int]@);
                }
                return false;
            }
            proof {
                assert(self@.my_vec[i as int] == self.my_vec@[i as int]@);
            }
            i = i + 1;
        }
        let m = self.my_map.len();
        let mut i: usize = 0;
        while i < m
            invariant
                i <= m,
                m == self.my_map@.len(),
                forall|j: int| 0 <= j < i ==> v2_wf((#[trigger] self@.my_map[j]).1),
                forall|j: int, l: int|
                    0 <= j < l < i ==> (#[trigger] self@.my_map[j]).0 != (
                    #[trigger] self@.my_map[l]).0,
            decreases m - i,
        {
            proof {
                assert(self@.my_map[i as int] == (self.my_map@[i as int].0, self.my_map@[i as int].1@));
            }
            if !v2_ok(&self.my_map[i].1) {
                return false;
            }
            let key = self.my_map[i].0;
            let mut j: usize = 0;
            while j < i
                invariant
                    j <= i < m,
                    m == self.my_map@.len(),
                    key == self@.my_map[i as int].0,
                    forall|l: int| 0 <= l < j ==> (#[trigger] self@.my_map[l]).0 != key,
                decreases i - j,
            {
                proof {
                    assert(self@.my_map[j as int] == (self.my_map@[j as int].0, self.my_map@[j as int].1@));
                }
                if self.my_map[j].0 == key {
                    return false;
                }
                j = j + 1;
            }
            i = i + 1;
        }
        true
    }
}

} // verus!
