//! The mapping between uniform values and the records of a persistence file.
//!
//! Every value is an object with an `outer_type` that names its family and
//! further members that depend on the family. A record that lacks a member,
//! or holds one of the wrong kind, is no value at all.

use crate::float::Float;
use crate::json::{lemma_view_unfold, Json, JsonView, Member, Number};
use crate::uniform_types::matrix::{MatrixType, MatrixUniformValue};
use crate::uniform_types::scalar::{ScalarType, ScalarUniformValue};
use crate::uniform_types::transform::{Matrix4, Quaternion, TransformUniformValue, Vector3};
use crate::uniform_types::vector::{VecType, VectorUniformValue};
use crate::uniform_types::{BuiltinValue, CameraMatrices, Point3, UniformValue};
use vstd::prelude::*;

verus! {

/// The members of an object as pairs of a name and a record.
pub open spec fn member_views(members: Seq<Member>) -> Seq<(Seq<char>, JsonView)> {
    Seq::new(members.len(), |i: int| (members[i].key@, members[i].value@))
}

/// Appends a member to the members of an object.
pub fn push_member(members: &mut Vec<Member>, key: &str, value: Json)
    ensures
        member_views(final(members)@) == member_views(old(members)@).push((key@, value@)),
{
    members.push(Member { key: key.to_owned(), value });
    assert(member_views(members@) =~= member_views(old(members)@).push((key@, value@)));
}

/// The object with the given members.
pub fn object(members: Vec<Member>) -> (r: Json)
    ensures
        r@ == JsonView::Object(member_views(members@)),
{
    let ghost views = member_views(members@);
    let r = Json::Object(members);
    proof {
        lemma_view_unfold(r);
        assert(r@->Object_0 =~= views);
    }
    r
}

/// The list with the given items.
pub fn array(items: Vec<Json>) -> (r: Json)
    ensures
        r@ == JsonView::Array(crate::json::views(items@)),
{
    let r = Json::Array(items);
    proof {
        lemma_view_unfold(r);
    }
    r
}

/// The text of member `key` of an object.
pub open spec fn field_str(j: JsonView, key: Seq<char>) -> Option<Seq<char>> {
    match j.get(key) {
        Some(v) => v.as_str(),
        None => None,
    }
}

/// The binary32 number of member `key` of an object.
pub open spec fn field_float(j: JsonView, key: Seq<char>) -> Option<Float> {
    match j.get(key) {
        Some(v) => v.as_float(),
        None => None,
    }
}

/// The binary32 numbers of a list of exactly `n` numbers.
pub open spec fn floats_of(j: JsonView, n: nat) -> Option<Seq<Float>> {
    match j {
        JsonView::Array(items) => if items.len() == n && forall|i: int|
            0 <= i < n ==> (#[trigger] items[i]).as_float() is Some {
            Some(Seq::new(n, |i: int| items[i].as_float()->Some_0))
        } else {
            None
        },
        _ => None,
    }
}

/// The record of a list of binary32 numbers: each as a number if it is
/// finite, as nothing if it is not.
pub open spec fn floats_json(values: Seq<Float>) -> JsonView {
    JsonView::Array(Seq::new(values.len(), |i: int| JsonView::of_float(values[i])))
}

/// The text of member `key` of an object.
pub fn get_str<'a>(j: &'a Json, key: &str) -> (r: Option<&'a str>)
    ensures
        match r {
            Some(s) => field_str(j@, key@) == Some(s@),
            None => field_str(j@, key@) is None,
        },
{
    match j.get(key) {
        Some(v) => v.as_str(),
        None => None,
    }
}

/// The binary32 number of member `key` of an object.
pub fn get_float(j: &Json, key: &str) -> (r: Option<Float>)
    ensures
        r == field_float(j@, key@),
{
    match j.get(key) {
        Some(v) => v.as_float(),
        None => None,
    }
}

/// The binary32 numbers of a list of exactly `n` numbers.
pub fn get_floats(j: &Json, n: usize) -> (r: Option<Vec<Float>>)
    ensures
        match r {
            Some(values) => floats_of(j@, n as nat) == Some(values@),
            None => floats_of(j@, n as nat) is None,
        },
{
    match j.as_array() {
        None => None,
        Some(items) => {
            if items.len() != n {
                return None;
            }
            let mut values: Vec<Float> = Vec::new();
            let mut i: usize = 0;
            while i < n
                invariant
                    i <= n,
                    n == items@.len(),
                    j@ == JsonView::Array(crate::json::views(items@)),
                    values@.len() == i,
                    forall|k: int|
                        0 <= k < i ==> (#[trigger] crate::json::views(items@)[k]).as_float()
                            == Some(values@[k]),
                decreases n - i,
            {
                match items[i].as_float() {
                    None => {
                        assert(crate::json::views(items@)[i as int].as_float() is None);
                        return None;
                    },
                    Some(v) => {
                        values.push(v);
                    },
                }
                i = i + 1;
            }
            assert(values@ =~= floats_of(j@, n as nat)->Some_0);
            Some(values)
        },
    }
}

/// The name of a kind of number in a record.
pub open spec fn scalar_tag(s: ScalarType) -> Seq<char> {
    match s {
        ScalarType::U32 => "u32"@,
        ScalarType::I32 => "i32"@,
        ScalarType::F32 => "f32"@,
    }
}

/// The kind of number that a name stands for.
pub open spec fn scalar_of_tag(tag: Seq<char>) -> Option<ScalarType> {
    if tag == "f32"@ {
        Some(ScalarType::F32)
    } else if tag == "u32"@ {
        Some(ScalarType::U32)
    } else if tag == "i32"@ {
        Some(ScalarType::I32)
    } else {
        None
    }
}

/// The record of one number of a value.
pub open spec fn component_json(c: ScalarUniformValue) -> JsonView {
    match c {
        ScalarUniformValue::U32(v) => JsonView::Number(Number::spec_from_u32(v)),
        ScalarUniformValue::I32(v) => JsonView::Number(Number::spec_from_i32(v)),
        ScalarUniformValue::F32(v) => JsonView::of_float(v),
    }
}

/// The number of kind `s` that a record holds: an unsigned or signed
/// reading cut to 32 bits, or the binary32 reading.
pub open spec fn component_of_json(s: ScalarType, j: JsonView) -> Option<ScalarUniformValue> {
    match s {
        ScalarType::U32 => match j.as_u32() {
            Some(v) => Some(ScalarUniformValue::U32(v)),
            None => None,
        },
        ScalarType::I32 => match j.as_i32() {
            Some(v) => Some(ScalarUniformValue::I32(v)),
            None => None,
        },
        ScalarType::F32 => match j.as_float() {
            Some(v) => Some(ScalarUniformValue::F32(v)),
            None => None,
        },
    }
}

/// A number can be saved: it is an integer, or a finite binary32 number.
pub open spec fn component_savable(c: ScalarUniformValue) -> bool {
    c matches ScalarUniformValue::F32(v) ==> v.is_finite()
}

/// The three names of kinds of number differ.
pub proof fn lemma_scalar_tags()
    ensures
        "u32"@ != "i32"@,
        "u32"@ != "f32"@,
        "i32"@ != "f32"@,
        forall|s: ScalarType| scalar_of_tag(#[trigger] scalar_tag(s)) == Some(s),
{
    reveal_strlit("u32");
    reveal_strlit("i32");
    reveal_strlit("f32");
    assert("u32"@[0] != "i32"@[0]);
    assert("u32"@[0] != "f32"@[0]);
    assert("i32"@[0] != "f32"@[0]);
}

/// A number that can be saved is read back from its record.
pub proof fn lemma_component_round_trip(c: ScalarUniformValue)
    requires
        component_savable(c),
    ensures
        component_of_json(c.scalar_type(), component_json(c)) == Some(c),
{
    match c {
        ScalarUniformValue::I32(v) => {
            let low = ((v as i64) % 0x1_0000_0000) as u32;
            assert(crate::bytes::bits_signed(low) == v);
        },
        _ => {},
    }
}

/// The name of a kind of number in a record.
pub fn scalar_tag_of(s: ScalarType) -> (r: &'static str)
    ensures
        r@ == scalar_tag(s),
{
    match s {
        ScalarType::U32 => "u32",
        ScalarType::I32 => "i32",
        ScalarType::F32 => "f32",
    }
}

/// The kind of number that a name stands for.
pub fn parse_scalar_tag(tag: &str) -> (r: Option<ScalarType>)
    ensures
        r == scalar_of_tag(tag@),
{
    if crate::json::same_text(tag, "f32") {
        Some(ScalarType::F32)
    } else if crate::json::same_text(tag, "u32") {
        Some(ScalarType::U32)
    } else if crate::json::same_text(tag, "i32") {
        Some(ScalarType::I32)
    } else {
        None
    }
}

/// The record of one number of a value.
pub fn component_to_json(c: &ScalarUniformValue) -> (r: Json)
    ensures
        r@ == component_json(*c),
{
    match c {
        ScalarUniformValue::U32(v) => Json::from_u32(*v),
        ScalarUniformValue::I32(v) => Json::from_i32(*v),
        ScalarUniformValue::F32(v) => Json::from_float(*v),
    }
}

/// The number of kind `s` that a record holds.
pub fn component_from_json(s: ScalarType, j: &Json) -> (r: Option<ScalarUniformValue>)
    ensures
        r == component_of_json(s, j@),
{
    match s {
        ScalarType::U32 => match j.as_u32() {
            Some(v) => Some(ScalarUniformValue::U32(v)),
            None => None,
        },
        ScalarType::I32 => match j.as_i32() {
            Some(v) => Some(ScalarUniformValue::I32(v)),
            None => None,
        },
        ScalarType::F32 => match j.as_float() {
            Some(v) => Some(ScalarUniformValue::F32(v)),
            None => None,
        },
    }
}

/// The name of a shape of vector in a record.
pub open spec fn vec_tag(v: VecType) -> Seq<char> {
    match v {
        VecType::Vec2(_) => "vec2"@,
        VecType::Vec3(_) => "vec3"@,
        VecType::Vec4(_) => "vec4"@,
    }
}

/// The shape of vector with components of kind `s` that a name stands for.
pub open spec fn vec_of_tag(tag: Seq<char>, s: ScalarType) -> Option<VecType> {
    if tag == "vec2"@ {
        Some(VecType::Vec2(s))
    } else if tag == "vec3"@ {
        Some(VecType::Vec3(s))
    } else if tag == "vec4"@ {
        Some(VecType::Vec4(s))
    } else {
        None
    }
}

/// The name of the member that holds component `i` of a vector.
pub open spec fn item_key(i: int) -> Seq<char> {
    if i == 0 {
        "item0"@
    } else if i == 1 {
        "item1"@
    } else if i == 2 {
        "item2"@
    } else {
        "item3"@
    }
}

/// The name of a shape of matrix in a record.
pub open spec fn matrix_tag(m: MatrixType) -> Seq<char> {
    match m {
        MatrixType::M2x2 => "mat2x2"@,
        MatrixType::M2x3 => "mat2x3"@,
        MatrixType::M2x4 => "mat2x4"@,
        MatrixType::M3x2 => "mat3x2"@,
        MatrixType::M3x3 => "mat3x3"@,
        MatrixType::M3x4 => "mat3x4"@,
        MatrixType::M4x2 => "mat4x2"@,
        MatrixType::M4x3 => "mat4x3"@,
        MatrixType::M4x4 => "mat4x4"@,
    }
}

/// The shape of matrix that a name stands for.
pub open spec fn matrix_of_tag(tag: Seq<char>) -> Option<MatrixType> {
    if tag == "mat2x2"@ {
        Some(MatrixType::M2x2)
    } else if tag == "mat2x3"@ {
        Some(MatrixType::M2x3)
    } else if tag == "mat2x4"@ {
        Some(MatrixType::M2x4)
    } else if tag == "mat3x2"@ {
        Some(MatrixType::M3x2)
    } else if tag == "mat3x3"@ {
        Some(MatrixType::M3x3)
    } else if tag == "mat3x4"@ {
        Some(MatrixType::M3x4)
    } else if tag == "mat4x2"@ {
        Some(MatrixType::M4x2)
    } else if tag == "mat4x3"@ {
        Some(MatrixType::M4x3)
    } else if tag == "mat4x4"@ {
        Some(MatrixType::M4x4)
    } else {
        None
    }
}

/// The name of a shape of vector in a record.
pub fn vec_tag_of(v: VecType) -> (r: &'static str)
    ensures
        r@ == vec_tag(v),
{
    match v {
        VecType::Vec2(_) => "vec2",
        VecType::Vec3(_) => "vec3",
        VecType::Vec4(_) => "vec4",
    }
}

/// The shape of vector with components of kind `s` that a name stands for.
pub fn parse_vec_tag(tag: &str, s: ScalarType) -> (r: Option<VecType>)
    ensures
        r == vec_of_tag(tag@, s),
{
    if crate::json::same_text(tag, "vec2") {
        Some(VecType::Vec2(s))
    } else if crate::json::same_text(tag, "vec3") {
        Some(VecType::Vec3(s))
    } else if crate::json::same_text(tag, "vec4") {
        Some(VecType::Vec4(s))
    } else {
        None
    }
}

/// The name of the member that holds component `i` of a vector.
pub fn item_key_of(i: usize) -> (r: &'static str)
    ensures
        r@ == item_key(i as int),
{
    if i == 0 {
        "item0"
    } else if i == 1 {
        "item1"
    } else if i == 2 {
        "item2"
    } else {
        "item3"
    }
}

/// The name of a shape of matrix in a record.
pub fn matrix_tag_of(m: MatrixType) -> (r: &'static str)
    ensures
        r@ == matrix_tag(m),
{
    match m {
        MatrixType::M2x2 => "mat2x2",
        MatrixType::M2x3 => "mat2x3",
        MatrixType::M2x4 => "mat2x4",
        MatrixType::M3x2 => "mat3x2",
        MatrixType::M3x3 => "mat3x3",
        MatrixType::M3x4 => "mat3x4",
        MatrixType::M4x2 => "mat4x2",
        MatrixType::M4x3 => "mat4x3",
        MatrixType::M4x4 => "mat4x4",
    }
}

/// The shape of matrix that a name stands for.
pub fn parse_matrix_tag(tag: &str) -> (r: Option<MatrixType>)
    ensures
        r == matrix_of_tag(tag@),
{
    if crate::json::same_text(tag, "mat2x2") {
        Some(MatrixType::M2x2)
    } else if crate::json::same_text(tag, "mat2x3") {
        Some(MatrixType::M2x3)
    } else if crate::json::same_text(tag, "mat2x4") {
        Some(MatrixType::M2x4)
    } else if crate::json::same_text(tag, "mat3x2") {
        Some(MatrixType::M3x2)
    } else if crate::json::same_text(tag, "mat3x3") {
        Some(MatrixType::M3x3)
    } else if crate::json::same_text(tag, "mat3x4") {
        Some(MatrixType::M3x4)
    } else if crate::json::same_text(tag, "mat4x2") {
        Some(MatrixType::M4x2)
    } else if crate::json::same_text(tag, "mat4x3") {
        Some(MatrixType::M4x3)
    } else if crate::json::same_text(tag, "mat4x4") {
        Some(MatrixType::M4x4)
    } else {
        None
    }
}

/// The names of the shapes of vector and of matrix stand for those shapes.
pub proof fn lemma_shape_tags()
    ensures
        forall|v: VecType| vec_of_tag(#[trigger] vec_tag(v), v.scalar_type()) == Some(v),
        forall|m: MatrixType| matrix_of_tag(#[trigger] matrix_tag(m)) == Some(m),
{
    reveal_strlit("vec2");
    reveal_strlit("vec3");
    reveal_strlit("vec4");
    assert("vec2"@[3] != "vec3"@[3]);
    assert("vec2"@[3] != "vec4"@[3]);
    assert("vec3"@[3] != "vec4"@[3]);
    reveal_strlit("mat2x2");
    reveal_strlit("mat2x3");
    reveal_strlit("mat2x4");
    reveal_strlit("mat3x2");
    reveal_strlit("mat3x3");
    reveal_strlit("mat3x4");
    reveal_strlit("mat4x2");
    reveal_strlit("mat4x3");
    reveal_strlit("mat4x4");
    assert("mat2x2"@[5] != "mat2x3"@[5]);
    assert("mat2x2"@[5] != "mat2x4"@[5]);
    assert("mat2x2"@[3] != "mat3x2"@[3]);
    assert("mat2x2"@[3] != "mat3x3"@[3]);
    assert("mat2x2"@[3] != "mat3x4"@[3]);
    assert("mat2x2"@[3] != "mat4x2"@[3]);
    assert("mat2x2"@[3] != "mat4x3"@[3]);
    assert("mat2x2"@[3] != "mat4x4"@[3]);
    assert("mat2x3"@[5] != "mat2x4"@[5]);
    assert("mat2x3"@[3] != "mat3x2"@[3]);
    assert("mat2x3"@[3] != "mat3x3"@[3]);
    assert("mat2x3"@[3] != "mat3x4"@[3]);
    assert("mat2x3"@[3] != "mat4x2"@[3]);
    assert("mat2x3"@[3] != "mat4x3"@[3]);
    assert("mat2x3"@[3] != "mat4x4"@[3]);
    assert("mat2x4"@[3] != "mat3x2"@[3]);
    assert("mat2x4"@[3] != "mat3x3"@[3]);
    assert("mat2x4"@[3] != "mat3x4"@[3]);
    assert("mat2x4"@[3] != "mat4x2"@[3]);
    assert("mat2x4"@[3] != "mat4x3"@[3]);
    assert("mat2x4"@[3] != "mat4x4"@[3]);
    assert("mat3x2"@[5] != "mat3x3"@[5]);
    assert("mat3x2"@[5] != "mat3x4"@[5]);
    assert("mat3x2"@[3] != "mat4x2"@[3]);
    assert("mat3x2"@[3] != "mat4x3"@[3]);
    assert("mat3x2"@[3] != "mat4x4"@[3]);
    assert("mat3x3"@[5] != "mat3x4"@[5]);
    assert("mat3x3"@[3] != "mat4x2"@[3]);
    assert("mat3x3"@[3] != "mat4x3"@[3]);
    assert("mat3x3"@[3] != "mat4x4"@[3]);
    assert("mat3x4"@[3] != "mat4x2"@[3]);
    assert("mat3x4"@[3] != "mat4x3"@[3]);
    assert("mat3x4"@[3] != "mat4x4"@[3]);
    assert("mat4x2"@[5] != "mat4x3"@[5]);
    assert("mat4x2"@[5] != "mat4x4"@[5]);
    assert("mat4x3"@[5] != "mat4x4"@[5]);
}

/// The record of a scalar.
pub open spec fn scalar_json(s: ScalarUniformValue) -> JsonView {
    JsonView::Object(
        seq![
            ("outer_type"@, JsonView::String("scalar"@)),
            ("innertype"@, JsonView::String(scalar_tag(s.scalar_type()))),
            ("value"@, component_json(s)),
        ],
    )
}

/// The scalar that a record holds.
pub open spec fn scalar_of_json(j: JsonView) -> Option<ScalarUniformValue> {
    match (j.get("value"@), field_str(j, "innertype"@)) {
        (Some(value), Some(tag)) => match scalar_of_tag(tag) {
            Some(s) => component_of_json(s, value),
            None => None,
        },
        _ => None,
    }
}

/// Component `i` of a vector of kind `s`, as a record holds it.
pub open spec fn item_of_json(j: JsonView, s: ScalarType, i: int) -> Option<ScalarUniformValue> {
    match j.get(item_key(i)) {
        Some(item) => component_of_json(s, item),
        None => None,
    }
}

/// The record of a vector.
pub open spec fn vector_json(v: VectorUniformValue) -> JsonView {
    JsonView::Object(
        seq![
            ("outer_type"@, JsonView::String("vector"@)),
            ("innertype"@, JsonView::String(vec_tag(v.vec_type()))),
            ("innertype2"@, JsonView::String(scalar_tag(v.vec_type().scalar_type()))),
        ] + Seq::new(
            v.vec_type().arity(),
            |i: int| (item_key(i), component_json(v.components()[i])),
        ),
    )
}

/// The vector that a record holds.
pub open spec fn vector_of_json(j: JsonView) -> Option<VectorUniformValue> {
    match (field_str(j, "innertype"@), field_str(j, "innertype2"@)) {
        (Some(tag), Some(tag2)) => match scalar_of_tag(tag2) {
            Some(s) => match vec_of_tag(tag, s) {
                Some(v) => if forall|i: int|
                    0 <= i < v.arity() ==> (#[trigger] item_of_json(j, s, i)) is Some {
                    Some(
                        VectorUniformValue::of_words(
                            v,
                            Seq::new(v.arity(), |i: int| item_of_json(j, s, i)->Some_0.word()),
                        ),
                    )
                } else {
                    None
                },
                None => None,
            },
            None => None,
        },
        _ => None,
    }
}

/// The record of a matrix.
pub open spec fn matrix_json(m: MatrixUniformValue) -> JsonView {
    JsonView::Object(
        seq![
            ("outer_type"@, JsonView::String("matrix"@)),
            ("innertype"@, JsonView::String(matrix_tag(m.matrix_type()))),
            (
                "columns"@,
                JsonView::Array(
                    Seq::new(m.matrix_type().columns(), |c: int| floats_json(m.columns()[c])),
                ),
            ),
        ],
    )
}

/// The first `count` columns of a list of columns of `rows` numbers each.
pub open spec fn columns_of(items: Seq<JsonView>, count: nat, rows: nat) -> Option<
    Seq<Seq<Float>>,
> {
    if items.len() >= count && forall|c: int|
        0 <= c < count ==> (#[trigger] floats_of(items[c], rows)) is Some {
        Some(Seq::new(count, |c: int| floats_of(items[c], rows)->Some_0))
    } else {
        None
    }
}

/// The matrix that a record holds.
pub open spec fn matrix_of_json(j: JsonView) -> Option<MatrixUniformValue> {
    match (j.get("columns"@), field_str(j, "innertype"@)) {
        (Some(JsonView::Array(items)), Some(tag)) => match matrix_of_tag(tag) {
            Some(m) => match columns_of(items, m.columns(), m.rows()) {
                Some(columns) => Some(MatrixUniformValue::of_columns(m, columns)),
                None => None,
            },
            None => None,
        },
        _ => None,
    }
}

/// The record of a transform: its parameters. The matrix is not saved.
pub open spec fn transform_json(t: TransformUniformValue) -> JsonView {
    JsonView::Object(
        seq![
            ("outer_type"@, JsonView::String("transform"@)),
            ("translation"@, floats_json(seq![t.translation.x, t.translation.y, t.translation.z])),
            ("scale"@, floats_json(seq![t.x_scale, t.y_scale, t.z_scale])),
            (
                "rotation"@,
                floats_json(seq![t.rotation.v.x, t.rotation.v.y, t.rotation.v.z, t.rotation.s]),
            ),
        ],
    )
}

/// The numbers of member `key`, a list of exactly `n` numbers.
pub open spec fn field_floats(j: JsonView, key: Seq<char>, n: nat) -> Option<Seq<Float>> {
    match j.get(key) {
        Some(v) => floats_of(v, n),
        None => None,
    }
}

/// The transform that a record holds, with the identity for its matrix.
pub open spec fn transform_of_json(j: JsonView) -> Option<TransformUniformValue> {
    match (
        field_floats(j, "translation"@, 3),
        field_floats(j, "scale"@, 3),
        field_floats(j, "rotation"@, 4),
    ) {
        (Some(t), Some(s), Some(r)) => Some(
            TransformUniformValue {
                translation: Vector3 { x: t[0], y: t[1], z: t[2] },
                x_scale: s[0],
                y_scale: s[1],
                z_scale: s[2],
                rotation: Quaternion { s: r[3], v: Vector3 { x: r[0], y: r[1], z: r[2] } },
                matrix: Matrix4::spec_identity(),
            },
        ),
        _ => None,
    }
}

/// The record of a built-in: the time by its name alone, a camera with its
/// position, its angles and its flag. The matrices of a camera are not saved.
pub open spec fn builtin_json(b: BuiltinValue) -> JsonView {
    match b {
        BuiltinValue::Time => JsonView::Object(
            seq![
                ("outer_type"@, JsonView::String("builtin"@)),
                ("innertype"@, JsonView::String("time"@)),
            ],
        ),
        BuiltinValue::Camera { position, yaw, pitch, enabled, resolved } => JsonView::Object(
            seq![
                ("outer_type"@, JsonView::String("builtin"@)),
                ("innertype"@, JsonView::String("camera"@)),
                ("position"@, floats_json(seq![position.x, position.y, position.z])),
                ("yaw"@, JsonView::of_float(yaw)),
                ("pitch"@, JsonView::of_float(pitch)),
                ("enabled"@, JsonView::Bool(enabled)),
            ],
        ),
    }
}

/// The truth value of member `key` of an object.
pub open spec fn field_bool(j: JsonView, key: Seq<char>) -> Option<bool> {
    match j.get(key) {
        Some(v) => v.as_bool(),
        None => None,
    }
}

/// The built-in that a record holds; a camera with identity matrices.
pub open spec fn builtin_of_json(j: JsonView) -> Option<BuiltinValue> {
    match field_str(j, "innertype"@) {
        Some(tag) => if tag == "time"@ {
            Some(BuiltinValue::Time)
        } else if tag == "camera"@ {
            match (
                field_floats(j, "position"@, 3),
                field_float(j, "yaw"@),
                field_float(j, "pitch"@),
                field_bool(j, "enabled"@),
            ) {
                (Some(p), Some(yaw), Some(pitch), Some(enabled)) => Some(
                    BuiltinValue::Camera {
                        position: Point3 { x: p[0], y: p[1], z: p[2] },
                        yaw,
                        pitch,
                        enabled,
                        resolved: CameraMatrices::spec_identity(),
                    },
                ),
                _ => None,
            }
        } else {
            None
        },
        None => None,
    }
}

/// The record of a value.
pub open spec fn value_json(v: UniformValue) -> JsonView {
    match v {
        UniformValue::BuiltIn(b) => builtin_json(b),
        UniformValue::Scalar(s) => scalar_json(s),
        UniformValue::Vector(x) => vector_json(x),
        UniformValue::Matrix(m) => matrix_json(m),
        UniformValue::Transform(t) => transform_json(t),
    }
}

/// The value that a record holds: the family that `outer_type` names, read
/// from the other members.
pub open spec fn value_of_json(j: JsonView) -> Option<UniformValue> {
    match field_str(j, "outer_type"@) {
        Some(tag) => if tag == "builtin"@ {
            match builtin_of_json(j) {
                Some(b) => Some(UniformValue::BuiltIn(b)),
                None => None,
            }
        } else if tag == "matrix"@ {
            match matrix_of_json(j) {
                Some(m) => Some(UniformValue::Matrix(m)),
                None => None,
            }
        } else if tag == "scalar"@ {
            match scalar_of_json(j) {
                Some(s) => Some(UniformValue::Scalar(s)),
                None => None,
            }
        } else if tag == "transform"@ {
            match transform_of_json(j) {
                Some(t) => Some(UniformValue::Transform(t)),
                None => None,
            }
        } else if tag == "vector"@ {
            match vector_of_json(j) {
                Some(v) => Some(UniformValue::Vector(v)),
                None => None,
            }
        } else {
            None
        },
        None => None,
    }
}

/// The numbers of member `key`, a list of exactly `n` numbers.
pub fn get_field_floats(j: &Json, key: &str, n: usize) -> (r: Option<Vec<Float>>)
    ensures
        match r {
            Some(values) => field_floats(j@, key@, n as nat) == Some(values@),
            None => field_floats(j@, key@, n as nat) is None,
        },
{
    match j.get(key) {
        Some(v) => get_floats(v, n),
        None => None,
    }
}

/// The truth value of member `key` of an object.
pub fn get_bool(j: &Json, key: &str) -> (r: Option<bool>)
    ensures
        r == field_bool(j@, key@),
{
    match j.get(key) {
        Some(v) => v.as_bool(),
        None => None,
    }
}

/// The record of a list of binary32 numbers.
pub fn floats_to_json(values: &Vec<Float>) -> (r: Json)
    ensures
        r@ == floats_json(values@),
{
    Json::float_array(values)
}

impl ScalarUniformValue {
    /// The record of the scalar: its family, its kind and its number.
    pub fn to_json(&self) -> (r: Json)
        ensures
            r@ == scalar_json(*self),
    {
        let mut members: Vec<Member> = Vec::new();
        push_member(&mut members, "outer_type", Json::text("scalar"));
        push_member(&mut members, "innertype", Json::text(scalar_tag_of(self.get_type())));
        push_member(&mut members, "value", component_to_json(self));
        assert(member_views(members@) =~= scalar_json(*self)->Object_0);
        object(members)
    }

    /// The scalar that a record holds; none if a member is missing or of the
    /// wrong kind.
    pub fn from_json(uniform: &Json) -> (r: Option<ScalarUniformValue>)
        ensures
            r == scalar_of_json(uniform@),
    {
        let value = match uniform.get("value") {
            Some(v) => v,
            None => {
                return None;
            },
        };
        let tag = match get_str(uniform, "innertype") {
            Some(t) => t,
            None => {
                return None;
            },
        };
        match parse_scalar_tag(tag) {
            Some(s) => component_from_json(s, value),
            None => None,
        }
    }
}

impl VectorUniformValue {
    /// The record of the vector: its family, its shape, the kind of its
    /// components, and one member for each component.
    pub fn to_json(&self) -> (r: Json)
        ensures
            r@ == vector_json(*self),
    {
        let v = self.get_type();
        let mut members: Vec<Member> = Vec::new();
        push_member(&mut members, "outer_type", Json::text("vector"));
        push_member(&mut members, "innertype", Json::text(vec_tag_of(v)));
        push_member(&mut members, "innertype2", Json::text(scalar_tag_of(v.inner_type())));
        let components = self.to_components();
        let ghost head = member_views(members@);
        let mut i: usize = 0;
        while i < components.len()
            invariant
                i <= components@.len(),
                components@ == self.components(),
                components@.len() == self.vec_type().arity(),
                member_views(members@) == head + Seq::new(
                    i as nat,
                    |k: int| (item_key(k), component_json(self.components()[k])),
                ),
            decreases components@.len() - i,
        {
            let ghost before = member_views(members@);
            push_member(&mut members, item_key_of(i), component_to_json(&components[i]));
            assert(member_views(members@) =~= head + Seq::new(
                (i + 1) as nat,
                |k: int| (item_key(k), component_json(self.components()[k])),
            ));
            i = i + 1;
        }
        assert(member_views(members@) =~= vector_json(*self)->Object_0);
        object(members)
    }

    /// The vector that a record holds; none if a member is missing or of the
    /// wrong kind.
    pub fn from_json(uniform: &Json) -> (r: Option<VectorUniformValue>)
        ensures
            r == vector_of_json(uniform@),
    {
        let tag = match get_str(uniform, "innertype") {
            Some(t) => t,
            None => {
                return None;
            },
        };
        let tag2 = match get_str(uniform, "innertype2") {
            Some(t) => t,
            None => {
                return None;
            },
        };
        let s = match parse_scalar_tag(tag2) {
            Some(s) => s,
            None => {
                return None;
            },
        };
        let v = match parse_vec_tag(tag, s) {
            Some(v) => v,
            None => {
                return None;
            },
        };
        let n = v.len();
        let mut words: Vec<u32> = Vec::new();
        let mut i: usize = 0;
        while i < n
            invariant
                i <= n,
                n == v.arity(),
                s == v.scalar_type(),
                field_str(uniform@, "innertype"@) == Some(tag@),
                field_str(uniform@, "innertype2"@) == Some(tag2@),
                scalar_of_tag(tag2@) == Some(s),
                vec_of_tag(tag@, s) == Some(v),
                words@.len() == i,
                forall|k: int| 0 <= k < i ==> (#[trigger] item_of_json(uniform@, s, k)) is Some,
                forall|k: int|
                    0 <= k < i ==> #[trigger] words@[k] == item_of_json(
                        uniform@,
                        s,
                        k,
                    )->Some_0.word(),
            decreases n - i,
        {
            let item = match uniform.get(item_key_of(i)) {
                Some(item) => item,
                None => {
                    assert(item_of_json(uniform@, s, i as int) is None);
                    return None;
                },
            };
            match component_from_json(s, item) {
                Some(c) => {
                    words.push(c.to_word());
                },
                None => {
                    assert(item_of_json(uniform@, s, i as int) is None);
                    return None;
                },
            }
            i = i + 1;
        }
        assert(words@ =~= Seq::new(
            v.arity(),
            |i: int| item_of_json(uniform@, s, i)->Some_0.word(),
        ));
        Some(VectorUniformValue::from_words(v, &words))
    }
}

impl MatrixUniformValue {
    /// The record of the matrix: its family, its shape and its columns.
    pub fn to_json(&self) -> (r: Json)
        ensures
            r@ == matrix_json(*self),
    {
        let columns = self.to_columns();
        let mut items: Vec<Json> = Vec::new();
        let mut c: usize = 0;
        while c < columns.len()
            invariant
                c <= columns@.len(),
                columns@.len() == self.matrix_type().columns(),
                forall|i: int| 0 <= i < columns@.len() ==> (#[trigger] columns@[i])@ == self.columns()[i],
                items@.len() == c,
                forall|i: int| 0 <= i < c ==> (#[trigger] items@[i])@ == floats_json(self.columns()[i]),
            decreases columns@.len() - c,
        {
            items.push(floats_to_json(&columns[c]));
            c = c + 1;
        }
        let list = array(items);
        assert(list@->Array_0 =~= Seq::new(
            self.matrix_type().columns(),
            |c: int| floats_json(self.columns()[c]),
        ));
        let mut members: Vec<Member> = Vec::new();
        push_member(&mut members, "outer_type", Json::text("matrix"));
        push_member(&mut members, "innertype", Json::text(matrix_tag_of(self.get_type())));
        push_member(&mut members, "columns", list);
        assert(member_views(members@) =~= matrix_json(*self)->Object_0);
        object(members)
    }

    /// The matrix that a record holds; none if a member is missing or of the
    /// wrong kind, or a column has not the rows of the shape.
    pub fn from_json(uniform: &Json) -> (r: Option<MatrixUniformValue>)
        ensures
            r == matrix_of_json(uniform@),
    {
        let items = match uniform.get("columns") {
            Some(list) => match list.as_array() {
                Some(items) => items,
                None => {
                    return None;
                },
            },
            None => {
                return None;
            },
        };
        let tag = match get_str(uniform, "innertype") {
            Some(t) => t,
            None => {
                return None;
            },
        };
        let m = match parse_matrix_tag(tag) {
            Some(m) => m,
            None => {
                return None;
            },
        };
        let count = m.column_count();
        let rows = m.row_count();
        let ghost views = crate::json::views(items@);
        if items.len() < count {
            return None;
        }
        let mut columns: Vec<Vec<Float>> = Vec::new();
        let mut c: usize = 0;
        while c < count
            invariant
                c <= count,
                count == m.columns(),
                rows == m.rows(),
                count <= items@.len(),
                views == crate::json::views(items@),
                uniform@.get("columns"@) == Some(JsonView::Array(views)),
                field_str(uniform@, "innertype"@) == Some(tag@),
                matrix_of_tag(tag@) == Some(m),
                columns@.len() == c,
                forall|i: int|
                    0 <= i < c ==> #[trigger] floats_of(views[i], rows as nat) == Some(
                        columns@[i]@,
                    ),
            decreases count - c,
        {
            match get_floats(&items[c], rows) {
                Some(column) => {
                    columns.push(column);
                },
                None => {
                    assert(floats_of(views[c as int], rows as nat) is None);
                    return None;
                },
            }
            c = c + 1;
        }
        proof {
            let expected = columns_of(views, m.columns(), m.rows())->Some_0;
            let given = Seq::new(columns@.len(), |i: int| columns@[i]@);
            assert(given =~= expected);
            assert forall|i: int| 0 <= i < m.columns() implies (#[trigger] columns@[i])@.len()
                == m.rows() by {
                assert(floats_of(views[i], rows as nat) == Some(columns@[i]@));
            }
        }
        Some(MatrixUniformValue::from_columns(m, &columns))
    }
}

impl TransformUniformValue {
    /// The record of the transform: its family and its parameters.
    pub fn to_json(&self) -> (r: Json)
        ensures
            r@ == transform_json(*self),
    {
        let translation: Vec<Float> = vec![
            self.translation.x,
            self.translation.y,
            self.translation.z,
        ];
        let scale: Vec<Float> = vec![self.x_scale, self.y_scale, self.z_scale];
        let rotation: Vec<Float> = vec![
            self.rotation.v.x,
            self.rotation.v.y,
            self.rotation.v.z,
            self.rotation.s,
        ];
        let mut members: Vec<Member> = Vec::new();
        push_member(&mut members, "outer_type", Json::text("transform"));
        push_member(&mut members, "translation", floats_to_json(&translation));
        push_member(&mut members, "scale", floats_to_json(&scale));
        push_member(&mut members, "rotation", floats_to_json(&rotation));
        assert(member_views(members@) =~= transform_json(*self)->Object_0);
        object(members)
    }

    /// The transform that a record holds, with the identity for its matrix;
    /// none if a member is missing or of the wrong kind.
    pub fn from_json(uniform: &Json) -> (r: Option<TransformUniformValue>)
        ensures
            r == transform_of_json(uniform@),
    {
        let t = match get_field_floats(uniform, "translation", 3) {
            Some(t) => t,
            None => {
                return None;
            },
        };
        let s = match get_field_floats(uniform, "scale", 3) {
            Some(s) => s,
            None => {
                return None;
            },
        };
        let q = match get_field_floats(uniform, "rotation", 4) {
            Some(q) => q,
            None => {
                return None;
            },
        };
        Some(
            TransformUniformValue {
                translation: Vector3 { x: t[0], y: t[1], z: t[2] },
                x_scale: s[0],
                y_scale: s[1],
                z_scale: s[2],
                rotation: Quaternion { s: q[3], v: Vector3 { x: q[0], y: q[1], z: q[2] } },
                matrix: Matrix4::identity(),
            },
        )
    }
}

impl BuiltinValue {
    /// The record of the built-in.
    pub fn to_json(&self) -> (r: Json)
        ensures
            r@ == builtin_json(*self),
    {
        let mut members: Vec<Member> = Vec::new();
        push_member(&mut members, "outer_type", Json::text("builtin"));
        match self {
            BuiltinValue::Time => {
                push_member(&mut members, "innertype", Json::text("time"));
            },
            BuiltinValue::Camera { position, yaw, pitch, enabled, resolved: _ } => {
                let place: Vec<Float> = vec![position.x, position.y, position.z];
                push_member(&mut members, "innertype", Json::text("camera"));
                push_member(&mut members, "position", floats_to_json(&place));
                push_member(&mut members, "yaw", Json::from_float(*yaw));
                push_member(&mut members, "pitch", Json::from_float(*pitch));
                push_member(&mut members, "enabled", Json::Bool(*enabled));
            },
        }
        assert(member_views(members@) =~= builtin_json(*self)->Object_0);
        object(members)
    }

    /// The built-in that a record holds, a camera with identity matrices;
    /// none if a member is missing or of the wrong kind.
    pub fn from_json(uniform: &Json) -> (r: Option<BuiltinValue>)
        ensures
            r == builtin_of_json(uniform@),
    {
        let tag = match get_str(uniform, "innertype") {
            Some(t) => t,
            None => {
                return None;
            },
        };
        if crate::json::same_text(tag, "time") {
            Some(BuiltinValue::Time)
        } else if crate::json::same_text(tag, "camera") {
            let p = match get_field_floats(uniform, "position", 3) {
                Some(p) => p,
                None => {
                    return None;
                },
            };
            let yaw = match get_float(uniform, "yaw") {
                Some(v) => v,
                None => {
                    return None;
                },
            };
            let pitch = match get_float(uniform, "pitch") {
                Some(v) => v,
                None => {
                    return None;
                },
            };
            let enabled = match get_bool(uniform, "enabled") {
                Some(v) => v,
                None => {
                    return None;
                },
            };
            Some(
                BuiltinValue::Camera {
                    position: Point3 { x: p[0], y: p[1], z: p[2] },
                    yaw,
                    pitch,
                    enabled,
                    resolved: CameraMatrices::identity(),
                },
            )
        } else {
            None
        }
    }
}

impl UniformValue {
    /// The record of the value.
    pub fn to_json(&self) -> (r: Json)
        ensures
            r@ == value_json(*self),
    {
        match self {
            UniformValue::BuiltIn(b) => b.to_json(),
            UniformValue::Scalar(s) => s.to_json(),
            UniformValue::Vector(v) => v.to_json(),
            UniformValue::Matrix(m) => m.to_json(),
            UniformValue::Transform(t) => t.to_json(),
        }
    }

    /// The value that a record holds; none if `outer_type` names no family or
    /// the record is no value of the family it names.
    pub fn from_json(uniform: &Json) -> (r: Option<UniformValue>)
        ensures
            r == value_of_json(uniform@),
    {
        let tag = match get_str(uniform, "outer_type") {
            Some(t) => t,
            None => {
                return None;
            },
        };
        if crate::json::same_text(tag, "builtin") {
            match BuiltinValue::from_json(uniform) {
                Some(b) => Some(UniformValue::BuiltIn(b)),
                None => None,
            }
        } else if crate::json::same_text(tag, "matrix") {
            match MatrixUniformValue::from_json(uniform) {
                Some(m) => Some(UniformValue::Matrix(m)),
                None => None,
            }
        } else if crate::json::same_text(tag, "scalar") {
            match ScalarUniformValue::from_json(uniform) {
                Some(s) => Some(UniformValue::Scalar(s)),
                None => None,
            }
        } else if crate::json::same_text(tag, "transform") {
            match TransformUniformValue::from_json(uniform) {
                Some(t) => Some(UniformValue::Transform(t)),
                None => None,
            }
        } else if crate::json::same_text(tag, "vector") {
            match VectorUniformValue::from_json(uniform) {
                Some(v) => Some(UniformValue::Vector(v)),
                None => None,
            }
        } else {
            None
        }
    }
}

/// Every binary32 number of a list is finite.
pub open spec fn all_finite(values: Seq<Float>) -> bool {
    forall|i: int| 0 <= i < values.len() ==> (#[trigger] values[i]).is_finite()
}

/// A value can be saved: every binary32 number among its components and
/// parameters is finite. (A record has no way to write an infinity or a NaN.)
pub open spec fn savable(v: UniformValue) -> bool {
    match v {
        UniformValue::BuiltIn(BuiltinValue::Time) => true,
        UniformValue::BuiltIn(BuiltinValue::Camera { position, yaw, pitch, .. }) => {
            &&& position.x.is_finite()
            &&& position.y.is_finite()
            &&& position.z.is_finite()
            &&& yaw.is_finite()
            &&& pitch.is_finite()
        },
        UniformValue::Scalar(s) => component_savable(s),
        UniformValue::Vector(x) => forall|i: int|
            0 <= i < x.vec_type().arity() ==> component_savable(#[trigger] x.components()[i]),
        UniformValue::Matrix(m) => forall|c: int|
            0 <= c < m.matrix_type().columns() ==> all_finite(#[trigger] m.columns()[c]),
        UniformValue::Transform(t) => {
            &&& all_finite(seq![t.translation.x, t.translation.y, t.translation.z])
            &&& all_finite(seq![t.x_scale, t.y_scale, t.z_scale])
            &&& all_finite(seq![t.rotation.v.x, t.rotation.v.y, t.rotation.v.z, t.rotation.s])
        },
    }
}

/// What is left of a value once it has been saved and read back: the value
/// itself, but with identity matrices where a transform or a camera had
/// matrices, which are not saved.
pub open spec fn persisted(v: UniformValue) -> UniformValue {
    match v {
        UniformValue::BuiltIn(b) => UniformValue::BuiltIn(
            b.with_resolved(CameraMatrices::spec_identity()),
        ),
        UniformValue::Transform(t) => UniformValue::Transform(t.parameters()),
        _ => v,
    }
}

/// The names of the members and of the families differ where one object
/// holds several of them.
pub proof fn lemma_keys()
    ensures
        "outer_type"@ != "innertype"@,
        "outer_type"@ != "innertype2"@,
        "innertype"@ != "innertype2"@,
        "outer_type"@ != "value"@,
        "innertype"@ != "value"@,
        "outer_type"@ != "columns"@,
        "innertype"@ != "columns"@,
        "outer_type"@ != "translation"@,
        "outer_type"@ != "scale"@,
        "outer_type"@ != "rotation"@,
        "translation"@ != "scale"@,
        "translation"@ != "rotation"@,
        "scale"@ != "rotation"@,
        "outer_type"@ != "position"@,
        "outer_type"@ != "yaw"@,
        "outer_type"@ != "pitch"@,
        "outer_type"@ != "enabled"@,
        "innertype"@ != "position"@,
        "innertype"@ != "yaw"@,
        "innertype"@ != "pitch"@,
        "innertype"@ != "enabled"@,
        "position"@ != "yaw"@,
        "position"@ != "pitch"@,
        "position"@ != "enabled"@,
        "yaw"@ != "pitch"@,
        "yaw"@ != "enabled"@,
        "pitch"@ != "enabled"@,
        forall|i: int|
            #![trigger item_key(i)]
            item_key(i) != "outer_type"@ && item_key(i) != "innertype"@ && item_key(i)
                != "innertype2"@,
        forall|i: int, k: int| 0 <= i < k < 4 ==> #[trigger] item_key(i) != #[trigger] item_key(k),
        "builtin"@ != "matrix"@,
        "builtin"@ != "scalar"@,
        "builtin"@ != "transform"@,
        "builtin"@ != "vector"@,
        "matrix"@ != "scalar"@,
        "matrix"@ != "transform"@,
        "matrix"@ != "vector"@,
        "scalar"@ != "transform"@,
        "scalar"@ != "vector"@,
        "transform"@ != "vector"@,
        "time"@ != "camera"@,
{
    reveal_strlit("outer_type");
    reveal_strlit("innertype");
    reveal_strlit("innertype2");
    reveal_strlit("value");
    reveal_strlit("columns");
    reveal_strlit("translation");
    reveal_strlit("scale");
    reveal_strlit("rotation");
    reveal_strlit("position");
    reveal_strlit("yaw");
    reveal_strlit("pitch");
    reveal_strlit("enabled");
    reveal_strlit("item0");
    reveal_strlit("item1");
    reveal_strlit("item2");
    reveal_strlit("item3");
    reveal_strlit("builtin");
    reveal_strlit("matrix");
    reveal_strlit("scalar");
    reveal_strlit("transform");
    reveal_strlit("vector");
    reveal_strlit("time");
    reveal_strlit("camera");
    assert("outer_type"@.len() == 10);
    assert("innertype"@.len() == 9);
    assert("innertype2"@.len() == 10);
    assert("value"@.len() == 5);
    assert("columns"@.len() == 7);
    assert("translation"@.len() == 11);
    assert("scale"@.len() == 5);
    assert("rotation"@.len() == 8);
    assert("position"@.len() == 8);
    assert("yaw"@.len() == 3);
    assert("pitch"@.len() == 5);
    assert("enabled"@.len() == 7);
    assert("item0"@.len() == 5);
    assert("item1"@.len() == 5);
    assert("item2"@.len() == 5);
    assert("item3"@.len() == 5);
    assert("builtin"@.len() == 7);
    assert("matrix"@.len() == 6);
    assert("scalar"@.len() == 6);
    assert("transform"@.len() == 9);
    assert("vector"@.len() == 6);
    assert("time"@.len() == 4);
    assert("camera"@.len() == 6);
    assert("outer_type"@[0] != "innertype2"@[0]);
    assert("item0"@[4] != "item1"@[4]);
    assert("item0"@[4] != "item2"@[4]);
    assert("item0"@[4] != "item3"@[4]);
    assert("item1"@[4] != "item2"@[4]);
    assert("item1"@[4] != "item3"@[4]);
    assert("item2"@[4] != "item3"@[4]);
    assert("matrix"@[0] != "scalar"@[0]);
    assert("matrix"@[0] != "vector"@[0]);
    assert("scalar"@[0] != "vector"@[0]);
    assert("position"@[0] != "rotation"@[0]);
}

/// A list of finite binary32 numbers is read back from its record.
pub proof fn lemma_floats_round_trip(values: Seq<Float>)
    requires
        all_finite(values),
    ensures
        floats_of(floats_json(values), values.len()) == Some(values),
{
    let items = floats_json(values)->Array_0;
    assert forall|i: int| 0 <= i < values.len() implies (#[trigger] items[i]).as_float() == Some(
        values[i],
    ) by {
        assert(values[i].is_finite());
    }
    assert(floats_of(floats_json(values), values.len())->Some_0 =~= values);
}

/// A scalar that can be saved is read back from its record.
pub proof fn lemma_scalar_round_trip(s: ScalarUniformValue)
    requires
        component_savable(s),
    ensures
        scalar_of_json(scalar_json(s)) == Some(s),
        field_str(scalar_json(s), "outer_type"@) == Some("scalar"@),
{
    reveal_with_fuel(crate::json::lookup_from, 4);
    lemma_keys();
    lemma_scalar_tags();
    lemma_component_round_trip(s);
}

/// A vector that can be saved is read back from its record.
pub proof fn lemma_vector_round_trip(v: VectorUniformValue)
    requires
        savable(UniformValue::Vector(v)),
    ensures
        vector_of_json(vector_json(v)) == Some(v),
        field_str(vector_json(v), "outer_type"@) == Some("vector"@),
{
    reveal_with_fuel(crate::json::lookup_from, 8);
    lemma_keys();
    lemma_scalar_tags();
    lemma_shape_tags();
    let j = vector_json(v);
    let members = j->Object_0;
    let t = v.vec_type();
    let s = t.scalar_type();
    assert(members.len() == 3 + t.arity());
    assert(members[0] == ("outer_type"@, JsonView::String("vector"@)));
    assert(members[1] == ("innertype"@, JsonView::String(vec_tag(t))));
    assert(members[2] == ("innertype2"@, JsonView::String(scalar_tag(s))));
    assert forall|i: int| 0 <= i < t.arity() implies #[trigger] item_of_json(j, s, i) == Some(
        v.components()[i],
    ) by {
        assert forall|k: int| 0 <= k < t.arity() implies #[trigger] members[3 + k] == (
            item_key(k),
            component_json(v.components()[k]),
        ) by {}
        assert(members[3] == (item_key(0), component_json(v.components()[0])));
        assert(members[4] == (item_key(1), component_json(v.components()[1])));
        if t.arity() > 2 {
            assert(members[5] == (item_key(2), component_json(v.components()[2])));
        }
        if t.arity() > 3 {
            assert(members[6] == (item_key(3), component_json(v.components()[3])));
        }
        assert(j.get(item_key(i)) == Some(component_json(v.components()[i])));
        lemma_component_round_trip(v.components()[i]);
    }
    let words = Seq::new(t.arity(), |i: int| item_of_json(j, s, i)->Some_0.word());
    assert(words =~= v.words()) by {
        assert forall|i: int| 0 <= i < t.arity() implies words[i] == v.words()[i] by {
            crate::uniform_types::lemma_vector_words_round_trip(v);
            assert(item_of_json(j, s, i) == Some(v.components()[i]));
            crate::bytes::lemma_signed_round_trip(0, v.words()[i]);
        }
        crate::uniform_types::lemma_vector_words_round_trip(v);
    }
    crate::uniform_types::lemma_vector_words_round_trip(v);
}

/// A matrix that can be saved is read back from its record.
pub proof fn lemma_matrix_round_trip(m: MatrixUniformValue)
    requires
        savable(UniformValue::Matrix(m)),
    ensures
        matrix_of_json(matrix_json(m)) == Some(m),
        field_str(matrix_json(m), "outer_type"@) == Some("matrix"@),
{
    reveal_with_fuel(crate::json::lookup_from, 4);
    lemma_keys();
    lemma_shape_tags();
    crate::uniform_types::matrix::lemma_matrix_columns_round_trip(m);
    let t = m.matrix_type();
    let items = Seq::new(t.columns(), |c: int| floats_json(m.columns()[c]));
    assert forall|c: int| 0 <= c < t.columns() implies #[trigger] floats_of(items[c], t.rows())
        == Some(m.columns()[c]) by {
        lemma_floats_round_trip(m.columns()[c]);
    }
    assert(columns_of(items, t.columns(), t.rows())->Some_0 =~= m.columns());
}

/// A transform that can be saved is read back from its record, but for its
/// matrix.
pub proof fn lemma_transform_round_trip(t: TransformUniformValue)
    requires
        savable(UniformValue::Transform(t)),
    ensures
        transform_of_json(transform_json(t)) == Some(t.parameters()),
        field_str(transform_json(t), "outer_type"@) == Some("transform"@),
{
    reveal_with_fuel(crate::json::lookup_from, 5);
    lemma_keys();
    lemma_floats_round_trip(seq![t.translation.x, t.translation.y, t.translation.z]);
    lemma_floats_round_trip(seq![t.x_scale, t.y_scale, t.z_scale]);
    lemma_floats_round_trip(seq![t.rotation.v.x, t.rotation.v.y, t.rotation.v.z, t.rotation.s]);
}

/// A built-in that can be saved is read back from its record, but for the
/// matrices of a camera.
pub proof fn lemma_builtin_round_trip(b: BuiltinValue)
    requires
        savable(UniformValue::BuiltIn(b)),
    ensures
        builtin_of_json(builtin_json(b)) == Some(b.with_resolved(CameraMatrices::spec_identity())),
        field_str(builtin_json(b), "outer_type"@) == Some("builtin"@),
{
    reveal_with_fuel(crate::json::lookup_from, 7);
    lemma_keys();
    match b {
        BuiltinValue::Time => {},
        BuiltinValue::Camera { position, yaw, pitch, enabled, resolved } => {
            lemma_floats_round_trip(seq![position.x, position.y, position.z]);
        },
    }
}

/// Reading inverts saving: a value that can be saved is read back from its
/// record as it was, but for the matrices of a transform or a camera.
pub proof fn lemma_value_round_trip(v: UniformValue)
    requires
        savable(v),
    ensures
        value_of_json(value_json(v)) == Some(persisted(v)),
{
    lemma_keys();
    match v {
        UniformValue::BuiltIn(b) => {
            lemma_builtin_round_trip(b);
        },
        UniformValue::Scalar(s) => {
            lemma_scalar_round_trip(s);
        },
        UniformValue::Vector(x) => {
            lemma_vector_round_trip(x);
        },
        UniformValue::Matrix(m) => {
            lemma_matrix_round_trip(m);
        },
        UniformValue::Transform(t) => {
            lemma_transform_round_trip(t);
        },
    }
}

} // verus!
