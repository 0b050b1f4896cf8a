//! Affine transforms: a translation, a scale along each axis and a rotation,
//! together with the 4×4 matrix that they resolve to.
//!
//! Resolving a transform is floating-point arithmetic, which this library
//! does not perform: whoever changes the parameters hands over the matrix
//! with them. The matrix is what a buffer receives.

use crate::bytes::{encode_words, words_bytes};
use crate::float::Float;
use crate::uniform_types::matrix::Column4;
use vstd::prelude::*;

verus! {

/// Three binary32 coordinates.
#[derive(Debug, Clone, Copy, PartialEq, Eq, Structural)]
pub struct Vector3 {
    pub x: Float,
    pub y: Float,
    pub z: Float,
}

/// A rotation as a quaternion: scalar part `s`, vector part `v`.
#[derive(Debug, Clone, Copy, PartialEq, Eq, Structural)]
pub struct Quaternion {
    pub s: Float,
    pub v: Vector3,
}

/// A 4×4 matrix of binary32 numbers, held column by column.
#[derive(Debug, Clone, Copy, PartialEq, Eq, Structural)]
pub struct Matrix4 {
    pub x: Column4,
    pub y: Column4,
    pub z: Column4,
    pub w: Column4,
}

impl Vector3 {
    /// The three coordinates as words.
    pub open spec fn words(self) -> Seq<u32> {
        seq![self.x.bits, self.y.bits, self.z.bits]
    }

    /// The vector of zeros.
    pub fn zero() -> (r: Vector3)
        ensures
            r.words() == seq![0u32, 0u32, 0u32],
    {
        Vector3 { x: Float::zero(), y: Float::zero(), z: Float::zero() }
    }
}

impl Matrix4 {
    /// The sixteen words of the matrix, column by column.
    pub open spec fn words(self) -> Seq<u32> {
        self.x.padded() + self.y.padded() + self.z.padded() + self.w.padded()
    }

    /// The identity matrix: one on the diagonal, positive zero elsewhere.
    pub open spec fn spec_identity() -> Matrix4 {
        Matrix4 {
            x: Column4(
                Float { bits: 0x3f80_0000 },
                Float { bits: 0 },
                Float { bits: 0 },
                Float { bits: 0 },
            ),
            y: Column4(
                Float { bits: 0 },
                Float { bits: 0x3f80_0000 },
                Float { bits: 0 },
                Float { bits: 0 },
            ),
            z: Column4(
                Float { bits: 0 },
                Float { bits: 0 },
                Float { bits: 0x3f80_0000 },
                Float { bits: 0 },
            ),
            w: Column4(
                Float { bits: 0 },
                Float { bits: 0 },
                Float { bits: 0 },
                Float { bits: 0x3f80_0000 },
            ),
        }
    }

    /// The identity matrix.
    pub fn identity() -> (r: Matrix4)
        ensures
            r == Self::spec_identity(),
    {
        let o = Float::one();
        let z = Float::zero();
        Matrix4 {
            x: Column4(o, z, z, z),
            y: Column4(z, o, z, z),
            z: Column4(z, z, o, z),
            w: Column4(z, z, z, o),
        }
    }

    /// The sixteen words of the matrix, column by column.
    pub fn to_words(&self) -> (r: Vec<u32>)
        ensures
            r@ == self.words(),
            r@.len() == 16,
    {
        let r = vec![
            self.x.0.bits, self.x.1.bits, self.x.2.bits, self.x.3.bits,
            self.y.0.bits, self.y.1.bits, self.y.2.bits, self.y.3.bits,
            self.z.0.bits, self.z.1.bits, self.z.2.bits, self.z.3.bits,
            self.w.0.bits, self.w.1.bits, self.w.2.bits, self.w.3.bits,
        ];
        assert(r@ =~= self.words());
        r
    }

    /// The 64 bytes of the matrix, column by column.
    pub fn to_le_bytes(&self) -> (bytes: Vec<u8>)
        ensures
            bytes@ == words_bytes(self.words()),
            bytes@.len() == 64,
    {
        encode_words(&self.to_words())
    }
}

/// An affine transform and the matrix it resolves to.
#[derive(Debug, Clone, Copy, PartialEq, Eq, Structural)]
pub struct TransformUniformValue {
    pub translation: Vector3,
    pub x_scale: Float,
    pub y_scale: Float,
    pub z_scale: Float,
    pub rotation: Quaternion,
    /// Translation times rotation times scale, as computed by whoever set the
    /// parameters.
    pub matrix: Matrix4,
}

impl TransformUniformValue {
    /// The transform that every conversion to a transform yields: no
    /// translation, scale one along each axis, the zero quaternion, and the
    /// identity matrix, which is what these resolve to.
    pub open spec fn spec_default() -> TransformUniformValue {
        TransformUniformValue {
            translation: Vector3 {
                x: Float { bits: 0 },
                y: Float { bits: 0 },
                z: Float { bits: 0 },
            },
            x_scale: Float { bits: 0x3f80_0000 },
            y_scale: Float { bits: 0x3f80_0000 },
            z_scale: Float { bits: 0x3f80_0000 },
            rotation: Quaternion {
                s: Float { bits: 0 },
                v: Vector3 { x: Float { bits: 0 }, y: Float { bits: 0 }, z: Float { bits: 0 } },
            },
            matrix: Matrix4::spec_identity(),
        }
    }

    /// The layout of the transform in a buffer: its matrix.
    pub open spec fn words(self) -> Seq<u32> {
        self.matrix.words()
    }

    /// The parameters alone, with the identity in place of the matrix: what
    /// a saved transform keeps.
    pub open spec fn parameters(self) -> TransformUniformValue {
        TransformUniformValue { matrix: Matrix4::spec_identity(), ..self }
    }

    /// A transform with the given parameters and the matrix they resolve to.
    pub fn new(
        translation: Vector3,
        x_scale: Float,
        y_scale: Float,
        z_scale: Float,
        rotation: Quaternion,
        matrix: Matrix4,
    ) -> (r: TransformUniformValue)
        ensures
            r == (TransformUniformValue {
                translation,
                x_scale,
                y_scale,
                z_scale,
                rotation,
                matrix,
            }),
    {
        TransformUniformValue { translation, x_scale, y_scale, z_scale, rotation, matrix }
    }

    /// Replaces the matrix, leaving the parameters as they are.
    pub fn resolve(&mut self, matrix: Matrix4)
        ensures
            *final(self) == (TransformUniformValue { matrix, ..*old(self) }),
    {
        self.matrix = matrix;
    }

    /// The 64 bytes of the resolved matrix.
    pub fn to_le_bytes(&self) -> (bytes: Vec<u8>)
        ensures
            bytes@ == words_bytes(self.words()),
            bytes@.len() == 64,
    {
        self.matrix.to_le_bytes()
    }
}

impl Default for TransformUniformValue {
    fn default() -> (r: TransformUniformValue)
        ensures
            r == TransformUniformValue::spec_default(),
    {
        let o = Float::one();
        TransformUniformValue {
            translation: Vector3::zero(),
            x_scale: o,
            y_scale: o,
            z_scale: o,
            rotation: Quaternion { s: Float::zero(), v: Vector3::zero() },
            matrix: Matrix4::identity(),
        }
    }
}

} // verus!
