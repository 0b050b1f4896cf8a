//! The closed model of uniform values: scalars, vectors, matrices, affine
//! transforms and the values that the host computes.

use crate::bytes::{
    bits_signed, bits_to_signed, bytes_words, decode_words, encode_words,
    lemma_signed_round_trip, lemma_words_round_trip, words_bytes,
};
use crate::float::Float;
use crate::uniform_types::matrix::{
    lemma_matrix_words_round_trip, MatrixType, MatrixUniformValue,
};
use crate::uniform_types::scalar::{ScalarType, ScalarUniformValue};
use crate::uniform_types::transform::{Matrix4, TransformUniformValue};
use crate::uniform_types::vector::{VecType, VectorUniformValue};
use vstd::prelude::*;

pub mod matrix;
pub mod scalar;
pub mod transform;
pub mod vector;

verus! {

/// The unsigned word that stands in where a conversion has no answer.
pub const DEFAULT_U32_UNIFORM: u32 = 0;

/// A signed word as an unsigned one: itself, or zero if it is negative.
pub open spec fn spec_cast_i32_u32(v: i32) -> u32 {
    if v >= 0 {
        v as u32
    } else {
        0
    }
}

/// Converts a signed word to an unsigned one; a negative word becomes zero.
pub fn cast_i32_u32(v: i32) -> (r: u32)
    ensures
        r == spec_cast_i32_u32(v),
{
    if v >= 0 {
        v as u32
    } else {
        DEFAULT_U32_UNIFORM
    }
}

/// Converts an unsigned word to a signed one with the same bit pattern.
pub fn cast_u32_i32(v: u32) -> (r: i32)
    ensures
        r == bits_signed(v),
{
    bits_to_signed(v)
}

/// Converts a binary32 number to an unsigned word in two steps: first to a
/// signed word (truncated toward zero, clamped to the signed range, zero for a
/// NaN), then to unsigned, where a negative word becomes zero. A number above
/// the signed range therefore becomes `i32::MAX`, not `u32::MAX`.
pub fn cast_f32_u32(v: Float) -> (r: u32)
    ensures
        r == spec_cast_i32_u32(v.truncated() as i32),
{
    cast_i32_u32(v.to_i32())
}

/// A point in space.
#[derive(Debug, Clone, Copy, PartialEq, Eq, Structural)]
pub struct Point3 {
    pub x: Float,
    pub y: Float,
    pub z: Float,
}

/// The four matrices of a camera. Computing them from a position and two
/// angles is floating-point arithmetic, which this library does not perform:
/// whoever moves the camera hands them over.
#[derive(Debug, Clone, Copy, PartialEq, Eq, Structural)]
pub struct CameraMatrices {
    pub view: Matrix4,
    pub projection: Matrix4,
    pub inverse_view: Matrix4,
    pub inverse_projection: Matrix4,
}

/// What a camera hands to a shader: its position and its four matrices.
#[derive(Debug, Clone, Copy, PartialEq, Eq, Structural)]
pub struct CameraUniform {
    pub position: Point3,
    pub view_matrix: Matrix4,
    pub projection_matrix: Matrix4,
    pub inverse_view_matrix: Matrix4,
    pub inverse_projection_matrix: Matrix4,
}

/// A value that the host computes and the user does not edit.
#[derive(Debug, Clone, Copy, PartialEq, Eq, Structural)]
pub enum BuiltinValue {
    /// Milliseconds since start, written by the host every frame.
    Time,
    /// A camera. While it is not enabled the shader sees identity matrices in
    /// place of `resolved`.
    Camera { position: Point3, yaw: Float, pitch: Float, enabled: bool, resolved: CameraMatrices },
}

/// The shape of a value that the user can choose.
#[derive(Debug, PartialEq, Eq, Clone, Copy, Structural)]
pub enum UniformType {
    Scalar(ScalarType),
    Vec(VecType),
    Matrix(MatrixType),
    Transform,
}

/// A uniform value of any family.
#[derive(Debug, Clone, Copy, PartialEq, Eq, Structural)]
pub enum UniformValue {
    BuiltIn(BuiltinValue),
    Scalar(ScalarUniformValue),
    Vector(VectorUniformValue),
    Matrix(MatrixUniformValue),
    Transform(TransformUniformValue),
}

impl CameraMatrices {
    /// Four identity matrices.
    pub open spec fn spec_identity() -> CameraMatrices {
        CameraMatrices {
            view: Matrix4::spec_identity(),
            projection: Matrix4::spec_identity(),
            inverse_view: Matrix4::spec_identity(),
            inverse_projection: Matrix4::spec_identity(),
        }
    }

    /// Four identity matrices.
    pub fn identity() -> (r: CameraMatrices)
        ensures
            r == Self::spec_identity(),
    {
        CameraMatrices {
            view: Matrix4::identity(),
            projection: Matrix4::identity(),
            inverse_view: Matrix4::identity(),
            inverse_projection: Matrix4::identity(),
        }
    }
}

impl CameraUniform {
    /// The layout in a buffer: the position padded with a zero word to four
    /// words, then the view, projection, inverse view and inverse projection
    /// matrices, sixteen words each.
    pub open spec fn words(self) -> Seq<u32> {
        seq![self.position.x.bits, self.position.y.bits, self.position.z.bits, 0u32]
            + self.view_matrix.words() + self.projection_matrix.words()
            + self.inverse_view_matrix.words() + self.inverse_projection_matrix.words()
    }

    /// The 272 bytes of the camera in a buffer.
    pub fn to_le_bytes(&self) -> (bytes: Vec<u8>)
        ensures
            bytes@ == words_bytes(self.words()),
            bytes@.len() == 272,
    {
        let mut words: Vec<u32> = vec![
            self.position.x.bits,
            self.position.y.bits,
            self.position.z.bits,
            0,
        ];
        let mut view = self.view_matrix.to_words();
        let mut projection = self.projection_matrix.to_words();
        let mut inverse_view = self.inverse_view_matrix.to_words();
        let mut inverse_projection = self.inverse_projection_matrix.to_words();
        words.append(&mut view);
        words.append(&mut projection);
        words.append(&mut inverse_view);
        words.append(&mut inverse_projection);
        assert(words@ =~= self.words());
        encode_words(&words)
    }
}

impl BuiltinValue {
    /// What the shader sees of a camera: its position, and its matrices if it
    /// is enabled, identity matrices if it is not.
    pub open spec fn camera_uniform(self) -> CameraUniform
        recommends
            self is Camera,
    {
        let shown = if self->enabled {
            self->resolved
        } else {
            CameraMatrices::spec_identity()
        };
        CameraUniform {
            position: self->position,
            view_matrix: shown.view,
            projection_matrix: shown.projection,
            inverse_view_matrix: shown.inverse_view,
            inverse_projection_matrix: shown.inverse_projection,
        }
    }

    /// The layout in a buffer: one zero word for the time, which the host
    /// overwrites every frame, and the camera's layout for a camera.
    pub open spec fn words(self) -> Seq<u32> {
        match self {
            BuiltinValue::Time => seq![0u32],
            BuiltinValue::Camera { .. } => self.camera_uniform().words(),
        }
    }

    /// The camera with its flag set to `enable`; the time as it is.
    pub open spec fn with_enabled(self, enable: bool) -> BuiltinValue {
        match self {
            BuiltinValue::Time => self,
            BuiltinValue::Camera { position, yaw, pitch, enabled, resolved } => {
                BuiltinValue::Camera { position, yaw, pitch, enabled: enable, resolved }
            },
        }
    }

    /// The camera with its matrices replaced; the time as it is.
    pub open spec fn with_resolved(self, matrices: CameraMatrices) -> BuiltinValue {
        match self {
            BuiltinValue::Time => self,
            BuiltinValue::Camera { position, yaw, pitch, enabled, resolved } => {
                BuiltinValue::Camera { position, yaw, pitch, enabled, resolved: matrices }
            },
        }
    }

    /// Sets the flag of a camera; the time stays as it is.
    pub fn set_enabled(&mut self, enable: bool)
        ensures
            *final(self) == old(self).with_enabled(enable),
    {
        match *self {
            BuiltinValue::Time => {},
            BuiltinValue::Camera { position, yaw, pitch, enabled: _, resolved } => {
                *self = BuiltinValue::Camera { position, yaw, pitch, enabled: enable, resolved };
            },
        }
    }

    /// Replaces the matrices of a camera; the time stays as it is.
    pub fn resolve(&mut self, matrices: CameraMatrices)
        ensures
            *final(self) == old(self).with_resolved(matrices),
    {
        match *self {
            BuiltinValue::Time => {},
            BuiltinValue::Camera { position, yaw, pitch, enabled, resolved: _ } => {
                *self = BuiltinValue::Camera { position, yaw, pitch, enabled, resolved: matrices };
            },
        }
    }

    /// What the shader sees of a camera.
    pub fn calc_matrix(&self) -> (r: CameraUniform)
        requires
            self is Camera,
        ensures
            r == self.camera_uniform(),
    {
        match self {
            BuiltinValue::Camera { position, yaw: _, pitch: _, enabled, resolved } => {
                let shown = if *enabled {
                    *resolved
                } else {
                    CameraMatrices::identity()
                };
                CameraUniform {
                    position: *position,
                    view_matrix: shown.view,
                    projection_matrix: shown.projection,
                    inverse_view_matrix: shown.inverse_view,
                    inverse_projection_matrix: shown.inverse_projection,
                }
            },
            BuiltinValue::Time => CameraUniform {
                position: Point3 { x: Float::zero(), y: Float::zero(), z: Float::zero() },
                view_matrix: Matrix4::identity(),
                projection_matrix: Matrix4::identity(),
                inverse_view_matrix: Matrix4::identity(),
                inverse_projection_matrix: Matrix4::identity(),
            },
        }
    }

    /// The bytes of the value in a buffer: 4 for the time, 272 for a camera.
    pub fn to_le_bytes(self) -> (bytes: Vec<u8>)
        ensures
            bytes@ == words_bytes(self.words()),
            self is Time ==> bytes@.len() == 4,
            self is Camera ==> bytes@.len() == 272,
    {
        match self {
            BuiltinValue::Time => {
                let words: Vec<u32> = vec![0];
                assert(words@ =~= self.words());
                encode_words(&words)
            },
            BuiltinValue::Camera { .. } => self.calc_matrix().to_le_bytes(),
        }
    }
}

impl UniformType {
    /// The number of bytes of the components of a value of this shape,
    /// without padding.
    pub open spec fn natural_size(self) -> nat {
        match self {
            UniformType::Scalar(_) => 4,
            UniformType::Vec(v) => 4 * v.arity(),
            UniformType::Matrix(m) => m.natural_size(),
            UniformType::Transform => 64,
        }
    }

    /// The number of bytes of a value of this shape in a buffer.
    pub open spec fn encoded_size(self) -> nat {
        match self {
            UniformType::Scalar(_) => 4,
            UniformType::Vec(v) => 4 * v.arity(),
            UniformType::Matrix(m) => m.encoded_size(),
            UniformType::Transform => 64,
        }
    }
}

impl UniformValue {
    /// The shape of the value; none for a built-in.
    pub open spec fn uniform_type(self) -> Option<UniformType> {
        match self {
            UniformValue::BuiltIn(_) => None,
            UniformValue::Scalar(s) => Some(UniformType::Scalar(s.scalar_type())),
            UniformValue::Vector(v) => Some(UniformType::Vec(v.vec_type())),
            UniformValue::Matrix(m) => Some(UniformType::Matrix(m.matrix_type())),
            UniformValue::Transform(_) => Some(UniformType::Transform),
        }
    }

    /// The layout of the value in a buffer, as 32-bit words.
    pub open spec fn words(self) -> Seq<u32> {
        match self {
            UniformValue::BuiltIn(b) => b.words(),
            UniformValue::Scalar(s) => seq![s.word()],
            UniformValue::Vector(v) => v.words(),
            UniformValue::Matrix(m) => m.words(),
            UniformValue::Transform(t) => t.words(),
        }
    }

    /// The bytes of the value in a buffer.
    pub open spec fn encoding(self) -> Seq<u8> {
        words_bytes(self.words())
    }

    /// The number of bytes of the value in a buffer. It depends on the
    /// family and shape of the value alone.
    pub open spec fn encoded_size(self) -> nat {
        match self {
            UniformValue::BuiltIn(BuiltinValue::Time) => 4,
            UniformValue::BuiltIn(BuiltinValue::Camera { .. }) => 272,
            UniformValue::Scalar(_) => 4,
            UniformValue::Vector(v) => 4 * v.vec_type().arity(),
            UniformValue::Matrix(m) => m.matrix_type().encoded_size(),
            UniformValue::Transform(_) => 64,
        }
    }

    /// The value of shape `t` that the bytes spell, where the bytes of a value
    /// of that shape determine it: for scalars, vectors and matrices, and for
    /// exactly as many bytes as the shape takes.
    pub open spec fn spec_decode(t: UniformType, bytes: Seq<u8>) -> Option<UniformValue> {
        let words = bytes_words(bytes);
        if bytes.len() != t.encoded_size() {
            None
        } else {
            match t {
                UniformType::Scalar(s) => Some(
                    UniformValue::Scalar(ScalarUniformValue::of_word(s, words[0])),
                ),
                UniformType::Vec(v) => Some(
                    UniformValue::Vector(VectorUniformValue::of_words(v, words)),
                ),
                UniformType::Matrix(m) => Some(
                    UniformValue::Matrix(MatrixUniformValue::of_words(m, words)),
                ),
                UniformType::Transform => None,
            }
        }
    }

    /// `r` is this value converted to shape `t`.
    ///
    /// To a scalar or a vector, a scalar and a vector carry their numbers
    /// over: a scalar counts as a vector of one component, the components
    /// that source and target share are converted by numeric casts, and the
    /// others are zero. A matrix and a transform carry nothing over and give
    /// zeros. To a matrix, everything gives the zero matrix of that shape, and
    /// to a transform, everything gives the default transform.
    pub open spec fn casts_to(self, t: UniformType, r: UniformValue) -> bool
        recommends
            self !is BuiltIn,
    {
        match t {
            UniformType::Scalar(s) => {
                &&& r matches UniformValue::Scalar(rs)
                &&& match self {
                    UniformValue::Scalar(x) => x.casts_to(s, rs),
                    UniformValue::Vector(x) => x.components()[0].casts_to(s, rs),
                    _ => rs == ScalarUniformValue::spec_zero(s),
                }
            },
            UniformType::Vec(v) => {
                &&& r matches UniformValue::Vector(rv)
                &&& match self {
                    UniformValue::Scalar(x) => {
                        &&& rv.vec_type() == v
                        &&& x.casts_to(v.scalar_type(), rv.components()[0])
                        &&& forall|i: int|
                            1 <= i < v.arity() ==> #[trigger] rv.components()[i]
                                == ScalarUniformValue::spec_zero(v.scalar_type())
                    },
                    UniformValue::Vector(x) => x.casts_to_vec(v, rv),
                    _ => rv == VectorUniformValue::spec_zero(v),
                }
            },
            UniformType::Matrix(m) => {
                &&& r matches UniformValue::Matrix(rm)
                &&& rm.matrix_type() == m
                &&& rm.is_zero()
            },
            UniformType::Transform => r == UniformValue::Transform(
                TransformUniformValue::spec_default(),
            ),
        }
    }

    /// The shape of the value; none for a built-in.
    pub fn get_type(&self) -> (t: Option<UniformType>)
        ensures
            t == self.uniform_type(),
    {
        match self {
            UniformValue::BuiltIn(_) => None,
            UniformValue::Scalar(s) => Some(UniformType::Scalar(s.get_type())),
            UniformValue::Vector(v) => Some(UniformType::Vec(v.get_type())),
            UniformValue::Matrix(m) => Some(UniformType::Matrix(m.get_type())),
            UniformValue::Transform(_) => Some(UniformType::Transform),
        }
    }

    /// Converts the value to shape `t`. A built-in has no shape to convert
    /// from.
    pub fn cast_to(&self, t: UniformType) -> (r: UniformValue)
        requires
            self !is BuiltIn,
        ensures
            self.casts_to(t, r),
            r.uniform_type() == Some(t),
    {
        match self {
            UniformValue::Scalar(s) => s.cast_to(t),
            UniformValue::Vector(v) => v.cast_to(t),
            UniformValue::Matrix(m) => m.cast_to(t),
            UniformValue::Transform(x) => x.cast_to(t),
            UniformValue::BuiltIn(_) => *self,
        }
    }

    /// The bytes of the value in a buffer, each word least significant byte
    /// first.
    pub fn to_le_bytes(&self) -> (bytes: Vec<u8>)
        ensures
            bytes@ == self.encoding(),
            bytes@.len() == self.encoded_size(),
    {
        match self {
            UniformValue::BuiltIn(b) => b.to_le_bytes(),
            UniformValue::Scalar(s) => {
                let words: Vec<u32> = vec![s.to_word()];
                assert(words@ =~= self.words());
                encode_words(&words)
            },
            UniformValue::Vector(v) => v.to_le_bytes(),
            UniformValue::Matrix(m) => m.to_le_bytes(),
            UniformValue::Transform(t) => t.to_le_bytes(),
        }
    }

    /// Reads a value of shape `t` from the bytes of a buffer.
    pub fn decode(t: UniformType, bytes: &Vec<u8>) -> (r: Option<UniformValue>)
        ensures
            r == Self::spec_decode(t, bytes@),
    {
        match t {
            UniformType::Scalar(s) => {
                if bytes.len() != 4 {
                    return None;
                }
                let words = decode_words(bytes).unwrap();
                Some(UniformValue::Scalar(ScalarUniformValue::from_word(s, words[0])))
            },
            UniformType::Vec(v) => {
                if bytes.len() != 4 * v.len() {
                    return None;
                }
                let words = decode_words(bytes).unwrap();
                Some(UniformValue::Vector(VectorUniformValue::from_words(v, &words)))
            },
            UniformType::Matrix(m) => {
                if bytes.len() != 16 * m.column_count() {
                    return None;
                }
                let words = decode_words(bytes).unwrap();
                Some(UniformValue::Matrix(MatrixUniformValue::from_words(m, &words)))
            },
            UniformType::Transform => None,
        }
    }

    /// Adds one to a scalar.
    pub fn increase(&mut self)
        requires
            *old(self) is Scalar,
            old(self)->Scalar_0.can_increase(),
        ensures
            *final(self) is Scalar,
            old(self)->Scalar_0.steps_to(false, final(self)->Scalar_0),
    {
        match *self {
            UniformValue::Scalar(mut s) => {
                s.increase();
                *self = UniformValue::Scalar(s);
            },
            _ => {},
        }
    }

    /// Takes one away from a scalar.
    pub fn decrease(&mut self)
        requires
            *old(self) is Scalar,
            old(self)->Scalar_0.can_decrease(),
        ensures
            *final(self) is Scalar,
            old(self)->Scalar_0.steps_to(true, final(self)->Scalar_0),
    {
        match *self {
            UniformValue::Scalar(mut s) => {
                s.decrease();
                *self = UniformValue::Scalar(s);
            },
            _ => {},
        }
    }

    /// Converts every component of a vector to kind `s`.
    pub fn change_inner_type(&mut self, s: ScalarType)
        requires
            *old(self) is Vector,
        ensures
            *final(self) is Vector,
            old(self)->Vector_0.casts_to_vec(
                old(self)->Vector_0.vec_type().with_scalar(s),
                final(self)->Vector_0,
            ),
    {
        match self {
            UniformValue::Vector(v) => {
                let mut changed = *v;
                changed.change_inner_type(s);
                *self = UniformValue::Vector(changed);
            },
            _ => {},
        }
    }

    /// Replaces a matrix by the zero matrix of shape `m`.
    pub fn change_matrix_size(&mut self, m: MatrixType)
        requires
            *old(self) is Matrix,
        ensures
            *final(self) is Matrix,
            final(self)->Matrix_0.matrix_type() == m,
            final(self)->Matrix_0.is_zero(),
    {
        *self = UniformValue::Matrix(MatrixUniformValue::zero(m));
    }
}

impl ScalarUniformValue {
    /// Converts the scalar to a vector of shape `v`: the scalar, converted to
    /// the vector's kind, is the first component, and the others are zero.
    pub fn cast_to_vec(&self, v: VecType) -> (r: VectorUniformValue)
        ensures
            r.vec_type() == v,
            self.casts_to(v.scalar_type(), r.components()[0]),
            forall|i: int|
                1 <= i < v.arity() ==> #[trigger] r.components()[i]
                    == ScalarUniformValue::spec_zero(v.scalar_type()),
    {
        let first = self.cast_to_scalar(v.inner_type());
        let mut words: Vec<u32> = vec![first.to_word()];
        while words.len() < v.len()
            invariant
                1 <= words@.len() <= v.arity(),
                words@[0] == first.word(),
                forall|i: int| 1 <= i < words@.len() ==> #[trigger] words@[i] == 0,
            decreases v.arity() - words@.len(),
        {
            words.push(0);
        }
        let r = VectorUniformValue::from_words(v, &words);
        proof {
            crate::uniform_types::scalar::lemma_of_word_round_trip(first);
        }
        r
    }

    /// Converts to a matrix of shape `m`: the zero matrix.
    pub fn cast_to_matrix(&self, m: MatrixType) -> (r: MatrixUniformValue)
        ensures
            r.matrix_type() == m,
            r.is_zero(),
    {
        MatrixUniformValue::zero(m)
    }

    /// Converts to a transform: the default transform.
    pub fn cast_to_transform(&self) -> (r: TransformUniformValue)
        ensures
            r == TransformUniformValue::spec_default(),
    {
        TransformUniformValue::default()
    }

    /// Converts the scalar to shape `t`.
    pub fn cast_to(&self, t: UniformType) -> (r: UniformValue)
        ensures
            UniformValue::Scalar(*self).casts_to(t, r),
            r.uniform_type() == Some(t),
    {
        match t {
            UniformType::Scalar(s) => UniformValue::Scalar(self.cast_to_scalar(s)),
            UniformType::Vec(v) => UniformValue::Vector(self.cast_to_vec(v)),
            UniformType::Matrix(m) => UniformValue::Matrix(self.cast_to_matrix(m)),
            UniformType::Transform => UniformValue::Transform(self.cast_to_transform()),
        }
    }
}

impl VectorUniformValue {
    /// The vector of shape `v` with every component zero.
    pub open spec fn spec_zero(v: VecType) -> VectorUniformValue {
        Self::of_words(v, Seq::new(v.arity(), |i: int| 0u32))
    }

    /// The vector of shape `v` with every component zero.
    pub fn zero(v: VecType) -> (r: VectorUniformValue)
        ensures
            r == Self::spec_zero(v),
            r.vec_type() == v,
    {
        let mut words: Vec<u32> = Vec::new();
        while words.len() < v.len()
            invariant
                words@.len() <= v.arity(),
                forall|i: int| 0 <= i < words@.len() ==> #[trigger] words@[i] == 0,
            decreases v.arity() - words@.len(),
        {
            words.push(0);
        }
        assert(words@ =~= Seq::new(v.arity(), |i: int| 0u32));
        Self::from_words(v, &words)
    }

    /// Converts to a matrix of shape `m`: the zero matrix.
    pub fn cast_to_matrix(&self, m: MatrixType) -> (r: MatrixUniformValue)
        ensures
            r.matrix_type() == m,
            r.is_zero(),
    {
        MatrixUniformValue::zero(m)
    }

    /// Converts to a transform: the default transform.
    pub fn cast_to_transform(&self) -> (r: TransformUniformValue)
        ensures
            r == TransformUniformValue::spec_default(),
    {
        TransformUniformValue::default()
    }

    /// Converts the vector to shape `t`.
    pub fn cast_to(&self, t: UniformType) -> (r: UniformValue)
        ensures
            UniformValue::Vector(*self).casts_to(t, r),
            r.uniform_type() == Some(t),
    {
        match t {
            UniformType::Scalar(s) => UniformValue::Scalar(self.cast_to_scalar(s)),
            UniformType::Vec(v) => UniformValue::Vector(self.cast_to_vec(v)),
            UniformType::Matrix(m) => UniformValue::Matrix(self.cast_to_matrix(m)),
            UniformType::Transform => UniformValue::Transform(self.cast_to_transform()),
        }
    }
}

impl MatrixUniformValue {
    /// Converts to a scalar of kind `s`: zero.
    pub fn cast_to_scalar(&self, s: ScalarType) -> (r: ScalarUniformValue)
        ensures
            r == ScalarUniformValue::spec_zero(s),
    {
        ScalarUniformValue::zero(s)
    }

    /// Converts to a vector of shape `v`: zeros.
    pub fn cast_to_vec(&self, v: VecType) -> (r: VectorUniformValue)
        ensures
            r == VectorUniformValue::spec_zero(v),
    {
        VectorUniformValue::zero(v)
    }

    /// Converts to a transform: the default transform.
    pub fn cast_to_transform(&self) -> (r: TransformUniformValue)
        ensures
            r == TransformUniformValue::spec_default(),
    {
        TransformUniformValue::default()
    }

    /// Converts the matrix to shape `t`. Nothing of it is carried over.
    pub fn cast_to(&self, t: UniformType) -> (r: UniformValue)
        ensures
            UniformValue::Matrix(*self).casts_to(t, r),
            r.uniform_type() == Some(t),
    {
        match t {
            UniformType::Scalar(s) => UniformValue::Scalar(self.cast_to_scalar(s)),
            UniformType::Vec(v) => UniformValue::Vector(self.cast_to_vec(v)),
            UniformType::Matrix(m) => UniformValue::Matrix(self.cast_to_matrix(m)),
            UniformType::Transform => UniformValue::Transform(self.cast_to_transform()),
        }
    }
}

impl TransformUniformValue {
    /// Converts to a scalar of kind `s`: zero.
    pub fn cast_to_scalar(&self, s: ScalarType) -> (r: ScalarUniformValue)
        ensures
            r == ScalarUniformValue::spec_zero(s),
    {
        ScalarUniformValue::zero(s)
    }

    /// Converts to a vector of shape `v`: zeros.
    pub fn cast_to_vec(&self, v: VecType) -> (r: VectorUniformValue)
        ensures
            r == VectorUniformValue::spec_zero(v),
    {
        VectorUniformValue::zero(v)
    }

    /// Converts to a matrix of shape `m`: the zero matrix.
    pub fn cast_to_matrix(&self, m: MatrixType) -> (r: MatrixUniformValue)
        ensures
            r.matrix_type() == m,
            r.is_zero(),
    {
        MatrixUniformValue::zero(m)
    }

    /// Converts the transform to shape `t`. Nothing of it is carried over; a
    /// conversion to a transform resets it to the default.
    pub fn cast_to(&self, t: UniformType) -> (r: UniformValue)
        ensures
            UniformValue::Transform(*self).casts_to(t, r),
            r.uniform_type() == Some(t),
    {
        match t {
            UniformType::Scalar(s) => UniformValue::Scalar(self.cast_to_scalar(s)),
            UniformType::Vec(v) => UniformValue::Vector(self.cast_to_vec(v)),
            UniformType::Matrix(m) => UniformValue::Matrix(self.cast_to_matrix(m)),
            UniformType::Transform => UniformValue::Transform(TransformUniformValue::default()),
        }
    }
}

/// A vector is recovered from its shape and its words.
pub proof fn lemma_vector_words_round_trip(v: VectorUniformValue)
    ensures
        v.words().len() == v.vec_type().arity(),
        VectorUniformValue::of_words(v.vec_type(), v.words()) == v,
{
    assert forall|x: i32| bits_signed(crate::bytes::signed_bits(x)) == x by {
        lemma_signed_round_trip(x, 0);
    }
}

/// Decoding inverts encoding: a scalar, a vector or a matrix is recovered
/// from its shape and its bytes.
pub proof fn lemma_decode_encode(v: UniformValue)
    requires
        v is Scalar || v is Vector || v is Matrix,
    ensures
        v.uniform_type() is Some,
        UniformValue::spec_decode(v.uniform_type()->Some_0, v.encoding()) == Some(v),
{
    let words = v.words();
    let bytes = v.encoding();
    let t = v.uniform_type()->Some_0;
    lemma_words_round_trip(words);
    assert(bytes_words(bytes) == words);
    match v {
        UniformValue::Scalar(s) => {
            crate::uniform_types::scalar::lemma_of_word_round_trip(s);
            assert(bytes.len() == t.encoded_size());
        },
        UniformValue::Vector(x) => {
            lemma_vector_words_round_trip(x);
            assert(bytes.len() == t.encoded_size());
        },
        UniformValue::Matrix(m) => {
            lemma_matrix_words_round_trip(m);
            lemma_matrix_encoded_size(m.matrix_type());
            assert(bytes.len() == t.encoded_size());
        },
        _ => {},
    }
}

/// A matrix takes 16 bytes for each of its columns.
pub proof fn lemma_matrix_encoded_size(m: MatrixType)
    ensures
        m.column_stride() == 16,
        m.encoded_size() == 16 * m.columns(),
        m.natural_size() <= m.encoded_size(),
{
    let c = m.columns();
    let r = m.rows();
    assert(4 * c * r <= 16 * c) by (nonlinear_arith)
        requires
            r <= 4,
    ;
}

/// The number of bytes of a value is fixed by its family and shape: 4 for a
/// scalar, 4 for each component of a vector, 16 for each column of a matrix,
/// 64 for a transform, 4 for the time and 272 for a camera.
pub proof fn lemma_encoded_size(v: UniformValue)
    ensures
        v.encoding().len() == v.encoded_size(),
        v.uniform_type() matches Some(t) ==> v.encoded_size() == t.encoded_size(),
        v is Scalar ==> v.encoded_size() == 4,
        v matches UniformValue::Vector(VectorUniformValue::Vec2(_)) ==> v.encoded_size() == 8,
        v matches UniformValue::Vector(VectorUniformValue::Vec3(_)) ==> v.encoded_size() == 12,
        v matches UniformValue::Vector(VectorUniformValue::Vec4(_)) ==> v.encoded_size() == 16,
        v matches UniformValue::Matrix(MatrixUniformValue::M4x4(..)) ==> v.encoded_size() == 64,
        v is Transform ==> v.encoded_size() == 64,
        v == UniformValue::BuiltIn(BuiltinValue::Time) ==> v.encoded_size() == 4,
{
    match v {
        UniformValue::Matrix(m) => {
            lemma_matrix_words_round_trip(m);
        },
        UniformValue::Vector(x) => {
            lemma_vector_words_round_trip(x);
        },
        _ => {},
    }
}

/// A vector is determined by its shape and its components.
pub proof fn lemma_vector_determined(a: VectorUniformValue, b: VectorUniformValue)
    requires
        a.vec_type() == b.vec_type(),
        forall|i: int|
            0 <= i < a.vec_type().arity() ==> (#[trigger] a.components()[i]) == b.components()[i],
    ensures
        a == b,
{
    lemma_vector_words_round_trip(a);
    lemma_vector_words_round_trip(b);
    assert forall|i: int| 0 <= i < a.vec_type().arity() implies a.words()[i] == b.words()[i] by {
        assert(a.components()[i] == b.components()[i]);
        assert(a.components()[i].word() == a.words()[i]) by {
            lemma_signed_round_trip(0, a.words()[i]);
        }
        assert(b.components()[i].word() == b.words()[i]) by {
            lemma_signed_round_trip(0, b.words()[i]);
        }
    }
    assert(a.words() =~= b.words());
}

/// A conversion of a vector to another shape has one result.
pub proof fn lemma_vector_cast_determined(
    x: VectorUniformValue,
    v: VecType,
    a: VectorUniformValue,
    b: VectorUniformValue,
)
    requires
        x.casts_to_vec(v, a),
        x.casts_to_vec(v, b),
    ensures
        a == b,
{
    assert forall|i: int| 0 <= i < v.arity() implies (#[trigger] a.components()[i])
        == b.components()[i] by {
        if i < x.vec_type().arity() {
            assert(x.components()[i].casts_to(v.scalar_type(), a.components()[i]));
            assert(x.components()[i].casts_to(v.scalar_type(), b.components()[i]));
            crate::uniform_types::scalar::lemma_cast_determined(
                x.components()[i],
                v.scalar_type(),
                a.components()[i],
                b.components()[i],
            );
        }
    }
    lemma_vector_determined(a, b);
}

/// A conversion of a value to a shape has one result: the contract of
/// [`UniformValue::cast_to`] leaves nothing open.
pub proof fn lemma_value_cast_determined(
    x: UniformValue,
    t: UniformType,
    a: UniformValue,
    b: UniformValue,
)
    requires
        x !is BuiltIn,
        x.casts_to(t, a),
        x.casts_to(t, b),
    ensures
        a == b,
{
    match t {
        UniformType::Scalar(s) => {
            match x {
                UniformValue::Scalar(y) => {
                    crate::uniform_types::scalar::lemma_cast_determined(
                        y,
                        s,
                        a->Scalar_0,
                        b->Scalar_0,
                    );
                },
                UniformValue::Vector(y) => {
                    crate::uniform_types::scalar::lemma_cast_determined(
                        y.components()[0],
                        s,
                        a->Scalar_0,
                        b->Scalar_0,
                    );
                },
                _ => {},
            }
        },
        UniformType::Vec(v) => {
            match x {
                UniformValue::Scalar(y) => {
                    let va = a->Vector_0;
                    let vb = b->Vector_0;
                    crate::uniform_types::scalar::lemma_cast_determined(
                        y,
                        v.scalar_type(),
                        va.components()[0],
                        vb.components()[0],
                    );
                    assert forall|i: int| 0 <= i < v.arity() implies (#[trigger] va.components()[i])
                        == vb.components()[i] by {
                        if i >= 1 {
                            assert(va.components()[i] == ScalarUniformValue::spec_zero(
                                v.scalar_type(),
                            ));
                            assert(vb.components()[i] == ScalarUniformValue::spec_zero(
                                v.scalar_type(),
                            ));
                        }
                    }
                    lemma_vector_determined(va, vb);
                },
                UniformValue::Vector(y) => {
                    lemma_vector_cast_determined(y, v, a->Vector_0, b->Vector_0);
                },
                _ => {},
            }
        },
        UniformType::Matrix(m) => {
            crate::uniform_types::matrix::lemma_zero_matrix_unique(a->Matrix_0, b->Matrix_0);
        },
        UniformType::Transform => {},
    }
}

} // verus!
