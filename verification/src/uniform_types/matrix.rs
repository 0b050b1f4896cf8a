//! Matrix uniform values: two to four columns of two to four binary32 rows.
//!
//! In a buffer every column starts on a 16-byte boundary, so a column of two
//! or three rows is followed by zero padding up to four words.

use crate::bytes::{encode_words, words_bytes};
use crate::float::Float;
use vstd::prelude::*;

verus! {

/// A column of two rows.
#[derive(Debug, Clone, Copy, PartialEq, Eq, Structural)]
pub struct Column2(pub Float, pub Float);

/// A column of three rows.
#[derive(Debug, Clone, Copy, PartialEq, Eq, Structural)]
pub struct Column3(pub Float, pub Float, pub Float);

/// A column of four rows.
#[derive(Debug, Clone, Copy, PartialEq, Eq, Structural)]
pub struct Column4(pub Float, pub Float, pub Float, pub Float);

impl Column2 {
    /// The rows, top to bottom.
    pub open spec fn rows(self) -> Seq<Float> {
        seq![self.0, self.1]
    }

    /// The four words of the column in a buffer: its rows, then zero padding.
    pub open spec fn padded(self) -> Seq<u32> {
        seq![self.0.bits, self.1.bits, 0, 0]
    }

    /// The column of zeros.
    pub fn zero() -> (c: Column2)
        ensures
            c.padded() == seq![0u32, 0u32, 0u32, 0u32],
    {
        Column2(Float::zero(), Float::zero())
    }

    /// The rows, top to bottom.
    pub fn values(&self) -> (r: Vec<Float>)
        ensures
            r@ == self.rows(),
    {
        vec![self.0, self.1]
    }

    /// The column whose rows have the first two of the given words.
    pub fn from_words(w0: u32, w1: u32) -> (c: Column2)
        ensures
            c == Column2(Float { bits: w0 }, Float { bits: w1 }),
    {
        Column2(Float { bits: w0 }, Float { bits: w1 })
    }
}

impl Column3 {
    /// The rows, top to bottom.
    pub open spec fn rows(self) -> Seq<Float> {
        seq![self.0, self.1, self.2]
    }

    /// The four words of the column in a buffer: its rows, then zero padding.
    pub open spec fn padded(self) -> Seq<u32> {
        seq![self.0.bits, self.1.bits, self.2.bits, 0]
    }

    /// The column of zeros.
    pub fn zero() -> (c: Column3)
        ensures
            c.padded() == seq![0u32, 0u32, 0u32, 0u32],
    {
        Column3(Float::zero(), Float::zero(), Float::zero())
    }

    /// The rows, top to bottom.
    pub fn values(&self) -> (r: Vec<Float>)
        ensures
            r@ == self.rows(),
    {
        vec![self.0, self.1, self.2]
    }

    /// The column whose rows have the first three of the given words.
    pub fn from_words(w0: u32, w1: u32, w2: u32) -> (c: Column3)
        ensures
            c == Column3(Float { bits: w0 }, Float { bits: w1 }, Float { bits: w2 }),
    {
        Column3(Float { bits: w0 }, Float { bits: w1 }, Float { bits: w2 })
    }
}

impl Column4 {
    /// The rows, top to bottom.
    pub open spec fn rows(self) -> Seq<Float> {
        seq![self.0, self.1, self.2, self.3]
    }

    /// The four words of the column in a buffer.
    pub open spec fn padded(self) -> Seq<u32> {
        seq![self.0.bits, self.1.bits, self.2.bits, self.3.bits]
    }

    /// The column of zeros.
    pub fn zero() -> (c: Column4)
        ensures
            c.padded() == seq![0u32, 0u32, 0u32, 0u32],
    {
        Column4(Float::zero(), Float::zero(), Float::zero(), Float::zero())
    }

    /// The rows, top to bottom.
    pub fn values(&self) -> (r: Vec<Float>)
        ensures
            r@ == self.rows(),
    {
        vec![self.0, self.1, self.2, self.3]
    }

    /// The column whose rows have the given words.
    pub fn from_words(w0: u32, w1: u32, w2: u32, w3: u32) -> (c: Column4)
        ensures
            c == Column4(
                Float { bits: w0 },
                Float { bits: w1 },
                Float { bits: w2 },
                Float { bits: w3 },
            ),
    {
        Column4(Float { bits: w0 }, Float { bits: w1 }, Float { bits: w2 }, Float { bits: w3 })
    }
}

/// The shape of a matrix, columns by rows.
#[derive(Debug, PartialEq, Eq, Clone, Copy, Structural)]
pub enum MatrixType {
    M2x2,
    M2x3,
    M2x4,
    M3x2,
    M3x3,
    M3x4,
    M4x2,
    M4x3,
    M4x4,
}

impl MatrixType {
    /// The number of columns.
    pub open spec fn columns(self) -> nat {
        match self {
            MatrixType::M2x2 => 2,
            MatrixType::M2x3 => 2,
            MatrixType::M2x4 => 2,
            MatrixType::M3x2 => 3,
            MatrixType::M3x3 => 3,
            MatrixType::M3x4 => 3,
            MatrixType::M4x2 => 4,
            MatrixType::M4x3 => 4,
            MatrixType::M4x4 => 4,
        }
    }

    /// The number of rows.
    pub open spec fn rows(self) -> nat {
        match self {
            MatrixType::M2x2 => 2,
            MatrixType::M2x3 => 3,
            MatrixType::M2x4 => 4,
            MatrixType::M3x2 => 2,
            MatrixType::M3x3 => 3,
            MatrixType::M3x4 => 4,
            MatrixType::M4x2 => 2,
            MatrixType::M4x3 => 3,
            MatrixType::M4x4 => 4,
        }
    }

    /// The number of bytes of the components alone, without padding.
    pub open spec fn natural_size(self) -> nat {
        4 * self.columns() * self.rows()
    }

    /// The number of bytes from the start of one column to the start of the
    /// next: the rows of a column, rounded up to a multiple of 16 bytes.
    pub open spec fn column_stride(self) -> nat {
        ((4 * self.rows() + 15) / 16 * 16) as nat
    }

    /// The number of bytes of a matrix of this shape in a buffer.
    pub open spec fn encoded_size(self) -> nat {
        self.columns() * self.column_stride()
    }

    /// The number of columns.
    pub fn column_count(&self) -> (n: usize)
        ensures
            n == self.columns(),
    {
        match self {
            MatrixType::M2x2 => 2,
            MatrixType::M2x3 => 2,
            MatrixType::M2x4 => 2,
            MatrixType::M3x2 => 3,
            MatrixType::M3x3 => 3,
            MatrixType::M3x4 => 3,
            MatrixType::M4x2 => 4,
            MatrixType::M4x3 => 4,
            MatrixType::M4x4 => 4,
        }
    }

    /// The number of rows.
    pub fn row_count(&self) -> (n: usize)
        ensures
            n == self.rows(),
    {
        match self {
            MatrixType::M2x2 => 2,
            MatrixType::M2x3 => 3,
            MatrixType::M2x4 => 4,
            MatrixType::M3x2 => 2,
            MatrixType::M3x3 => 3,
            MatrixType::M3x4 => 4,
            MatrixType::M4x2 => 2,
            MatrixType::M4x3 => 3,
            MatrixType::M4x4 => 4,
        }
    }
}

/// A matrix, held column by column.
#[derive(Debug, Clone, Copy, PartialEq, Eq, Structural)]
pub enum MatrixUniformValue {
    M2x2(Column2, Column2),
    M2x3(Column3, Column3),
    M2x4(Column4, Column4),
    M3x2(Column2, Column2, Column2),
    M3x3(Column3, Column3, Column3),
    M3x4(Column4, Column4, Column4),
    M4x2(Column2, Column2, Column2, Column2),
    M4x3(Column3, Column3, Column3, Column3),
    M4x4(Column4, Column4, Column4, Column4),
}

impl MatrixUniformValue {
    /// The shape of the matrix.
    pub open spec fn matrix_type(self) -> MatrixType {
        match self {
            MatrixUniformValue::M2x2(..) => MatrixType::M2x2,
            MatrixUniformValue::M2x3(..) => MatrixType::M2x3,
            MatrixUniformValue::M2x4(..) => MatrixType::M2x4,
            MatrixUniformValue::M3x2(..) => MatrixType::M3x2,
            MatrixUniformValue::M3x3(..) => MatrixType::M3x3,
            MatrixUniformValue::M3x4(..) => MatrixType::M3x4,
            MatrixUniformValue::M4x2(..) => MatrixType::M4x2,
            MatrixUniformValue::M4x3(..) => MatrixType::M4x3,
            MatrixUniformValue::M4x4(..) => MatrixType::M4x4,
        }
    }

    /// The components, column by column, each column top to bottom.
    pub open spec fn columns(self) -> Seq<Seq<Float>> {
        match self {
            MatrixUniformValue::M2x2(c1, c2) => seq![c1.rows(), c2.rows()],
            MatrixUniformValue::M2x3(c1, c2) => seq![c1.rows(), c2.rows()],
            MatrixUniformValue::M2x4(c1, c2) => seq![c1.rows(), c2.rows()],
            MatrixUniformValue::M3x2(c1, c2, c3) => seq![c1.rows(), c2.rows(), c3.rows()],
            MatrixUniformValue::M3x3(c1, c2, c3) => seq![c1.rows(), c2.rows(), c3.rows()],
            MatrixUniformValue::M3x4(c1, c2, c3) => seq![c1.rows(), c2.rows(), c3.rows()],
            MatrixUniformValue::M4x2(c1, c2, c3, c4) => seq![c1.rows(), c2.rows(), c3.rows(), c4.rows()],
            MatrixUniformValue::M4x3(c1, c2, c3, c4) => seq![c1.rows(), c2.rows(), c3.rows(), c4.rows()],
            MatrixUniformValue::M4x4(c1, c2, c3, c4) => seq![c1.rows(), c2.rows(), c3.rows(), c4.rows()],
        }
    }

    /// The layout of the matrix in a buffer: four words for each column, its
    /// rows first and zero padding after them.
    pub open spec fn words(self) -> Seq<u32> {
        match self {
            MatrixUniformValue::M2x2(c1, c2) => c1.padded() + c2.padded(),
            MatrixUniformValue::M2x3(c1, c2) => c1.padded() + c2.padded(),
            MatrixUniformValue::M2x4(c1, c2) => c1.padded() + c2.padded(),
            MatrixUniformValue::M3x2(c1, c2, c3) => c1.padded() + c2.padded() + c3.padded(),
            MatrixUniformValue::M3x3(c1, c2, c3) => c1.padded() + c2.padded() + c3.padded(),
            MatrixUniformValue::M3x4(c1, c2, c3) => c1.padded() + c2.padded() + c3.padded(),
            MatrixUniformValue::M4x2(c1, c2, c3, c4) => c1.padded() + c2.padded() + c3.padded() + c4.padded(),
            MatrixUniformValue::M4x3(c1, c2, c3, c4) => c1.padded() + c2.padded() + c3.padded() + c4.padded(),
            MatrixUniformValue::M4x4(c1, c2, c3, c4) => c1.padded() + c2.padded() + c3.padded() + c4.padded(),
        }
    }

    /// The matrix of shape `m` whose components have the given words, read
    /// from the layout that [`Self::words`] describes.
    pub open spec fn of_words(m: MatrixType, w: Seq<u32>) -> MatrixUniformValue
        recommends
            w.len() == 4 * m.columns(),
    {
        match m {
            MatrixType::M2x2 => MatrixUniformValue::M2x2(
                Column2(Float { bits: w[0] }, Float { bits: w[1] }),
                Column2(Float { bits: w[4] }, Float { bits: w[5] }),
            ),
            MatrixType::M2x3 => MatrixUniformValue::M2x3(
                Column3(Float { bits: w[0] }, Float { bits: w[1] }, Float { bits: w[2] }),
                Column3(Float { bits: w[4] }, Float { bits: w[5] }, Float { bits: w[6] }),
            ),
            MatrixType::M2x4 => MatrixUniformValue::M2x4(
                Column4(Float { bits: w[0] }, Float { bits: w[1] }, Float { bits: w[2] }, Float { bits: w[3] }),
                Column4(Float { bits: w[4] }, Float { bits: w[5] }, Float { bits: w[6] }, Float { bits: w[7] }),
            ),
            MatrixType::M3x2 => MatrixUniformValue::M3x2(
                Column2(Float { bits: w[0] }, Float { bits: w[1] }),
                Column2(Float { bits: w[4] }, Float { bits: w[5] }),
                Column2(Float { bits: w[8] }, Float { bits: w[9] }),
            ),
            MatrixType::M3x3 => MatrixUniformValue::M3x3(
                Column3(Float { bits: w[0] }, Float { bits: w[1] }, Float { bits: w[2] }),
                Column3(Float { bits: w[4] }, Float { bits: w[5] }, Float { bits: w[6] }),
                Column3(Float { bits: w[8] }, Float { bits: w[9] }, Float { bits: w[10] }),
            ),
            MatrixType::M3x4 => MatrixUniformValue::M3x4(
                Column4(Float { bits: w[0] }, Float { bits: w[1] }, Float { bits: w[2] }, Float { bits: w[3] }),
                Column4(Float { bits: w[4] }, Float { bits: w[5] }, Float { bits: w[6] }, Float { bits: w[7] }),
                Column4(Float { bits: w[8] }, Float { bits: w[9] }, Float { bits: w[10] }, Float { bits: w[11] }),
            ),
            MatrixType::M4x2 => MatrixUniformValue::M4x2(
                Column2(Float { bits: w[0] }, Float { bits: w[1] }),
                Column2(Float { bits: w[4] }, Float { bits: w[5] }),
                Column2(Float { bits: w[8] }, Float { bits: w[9] }),
                Column2(Float { bits: w[12] }, Float { bits: w[13] }),
            ),
            MatrixType::M4x3 => MatrixUniformValue::M4x3(
                Column3(Float { bits: w[0] }, Float { bits: w[1] }, Float { bits: w[2] }),
                Column3(Float { bits: w[4] }, Float { bits: w[5] }, Float { bits: w[6] }),
                Column3(Float { bits: w[8] }, Float { bits: w[9] }, Float { bits: w[10] }),
                Column3(Float { bits: w[12] }, Float { bits: w[13] }, Float { bits: w[14] }),
            ),
            MatrixType::M4x4 => MatrixUniformValue::M4x4(
                Column4(Float { bits: w[0] }, Float { bits: w[1] }, Float { bits: w[2] }, Float { bits: w[3] }),
                Column4(Float { bits: w[4] }, Float { bits: w[5] }, Float { bits: w[6] }, Float { bits: w[7] }),
                Column4(Float { bits: w[8] }, Float { bits: w[9] }, Float { bits: w[10] }, Float { bits: w[11] }),
                Column4(Float { bits: w[12] }, Float { bits: w[13] }, Float { bits: w[14] }, Float { bits: w[15] }),
            ),
        }
    }

    /// Every component is positive zero.
    pub open spec fn is_zero(self) -> bool {
        self.words() == Seq::new(4 * self.matrix_type().columns(), |i: int| 0u32)
    }

    /// The shape of the matrix.
    pub fn get_type(&self) -> (m: MatrixType)
        ensures
            m == self.matrix_type(),
    {
        match self {
            MatrixUniformValue::M2x2(..) => MatrixType::M2x2,
            MatrixUniformValue::M2x3(..) => MatrixType::M2x3,
            MatrixUniformValue::M2x4(..) => MatrixType::M2x4,
            MatrixUniformValue::M3x2(..) => MatrixType::M3x2,
            MatrixUniformValue::M3x3(..) => MatrixType::M3x3,
            MatrixUniformValue::M3x4(..) => MatrixType::M3x4,
            MatrixUniformValue::M4x2(..) => MatrixType::M4x2,
            MatrixUniformValue::M4x3(..) => MatrixType::M4x3,
            MatrixUniformValue::M4x4(..) => MatrixType::M4x4,
        }
    }

    /// The matrix of shape `m` with every component zero.
    pub fn zero(m: MatrixType) -> (r: MatrixUniformValue)
        ensures
            r.matrix_type() == m,
            r.is_zero(),
    {
        let r = match m {
            MatrixType::M2x2 => MatrixUniformValue::M2x2(
                Column2::zero(),
                Column2::zero(),
            ),
            MatrixType::M2x3 => MatrixUniformValue::M2x3(
                Column3::zero(),
                Column3::zero(),
            ),
            MatrixType::M2x4 => MatrixUniformValue::M2x4(
                Column4::zero(),
                Column4::zero(),
            ),
            MatrixType::M3x2 => MatrixUniformValue::M3x2(
                Column2::zero(),
                Column2::zero(),
                Column2::zero(),
            ),
            MatrixType::M3x3 => MatrixUniformValue::M3x3(
                Column3::zero(),
                Column3::zero(),
                Column3::zero(),
            ),
            MatrixType::M3x4 => MatrixUniformValue::M3x4(
                Column4::zero(),
                Column4::zero(),
                Column4::zero(),
            ),
            MatrixType::M4x2 => MatrixUniformValue::M4x2(
                Column2::zero(),
                Column2::zero(),
                Column2::zero(),
                Column2::zero(),
            ),
            MatrixType::M4x3 => MatrixUniformValue::M4x3(
                Column3::zero(),
                Column3::zero(),
                Column3::zero(),
                Column3::zero(),
            ),
            MatrixType::M4x4 => MatrixUniformValue::M4x4(
                Column4::zero(),
                Column4::zero(),
                Column4::zero(),
                Column4::zero(),
            ),
        };
        assert(r.words() =~= Seq::new(4 * m.columns(), |i: int| 0u32));
        r
    }

    /// The layout of the matrix in a buffer, word by word.
    pub fn to_words(&self) -> (r: Vec<u32>)
        ensures
            r@ == self.words(),
            r@.len() == 4 * self.matrix_type().columns(),
    {
        let r = match self {
            MatrixUniformValue::M2x2(c1, c2) => vec![
                c1.0.bits, c1.1.bits, 0, 0,
                c2.0.bits, c2.1.bits, 0, 0,
            ],
            MatrixUniformValue::M2x3(c1, c2) => vec![
                c1.0.bits, c1.1.bits, c1.2.bits, 0,
                c2.0.bits, c2.1.bits, c2.2.bits, 0,
            ],
            MatrixUniformValue::M2x4(c1, c2) => vec![
                c1.0.bits, c1.1.bits, c1.2.bits, c1.3.bits,
                c2.0.bits, c2.1.bits, c2.2.bits, c2.3.bits,
            ],
            MatrixUniformValue::M3x2(c1, c2, c3) => vec![
                c1.0.bits, c1.1.bits, 0, 0,
                c2.0.bits, c2.1.bits, 0, 0,
                c3.0.bits, c3.1.bits, 0, 0,
            ],
            MatrixUniformValue::M3x3(c1, c2, c3) => vec![
                c1.0.bits, c1.1.bits, c1.2.bits, 0,
                c2.0.bits, c2.1.bits, c2.2.bits, 0,
                c3.0.bits, c3.1.bits, c3.2.bits, 0,
            ],
            MatrixUniformValue::M3x4(c1, c2, c3) => vec![
                c1.0.bits, c1.1.bits, c1.2.bits, c1.3.bits,
                c2.0.bits, c2.1.bits, c2.2.bits, c2.3.bits,
                c3.0.bits, c3.1.bits, c3.2.bits, c3.3.bits,
            ],
            MatrixUniformValue::M4x2(c1, c2, c3, c4) => vec![
                c1.0.bits, c1.1.bits, 0, 0,
                c2.0.bits, c2.1.bits, 0, 0,
                c3.0.bits, c3.1.bits, 0, 0,
                c4.0.bits, c4.1.bits, 0, 0,
            ],
            MatrixUniformValue::M4x3(c1, c2, c3, c4) => vec![
                c1.0.bits, c1.1.bits, c1.2.bits, 0,
                c2.0.bits, c2.1.bits, c2.2.bits, 0,
                c3.0.bits, c3.1.bits, c3.2.bits, 0,
                c4.0.bits, c4.1.bits, c4.2.bits, 0,
            ],
            MatrixUniformValue::M4x4(c1, c2, c3, c4) => vec![
                c1.0.bits, c1.1.bits, c1.2.bits, c1.3.bits,
                c2.0.bits, c2.1.bits, c2.2.bits, c2.3.bits,
                c3.0.bits, c3.1.bits, c3.2.bits, c3.3.bits,
                c4.0.bits, c4.1.bits, c4.2.bits, c4.3.bits,
            ],
        };
        assert(r@ =~= self.words());
        r
    }

    /// The matrix of shape `m` read from its layout. Padding words are not
    /// looked at.
    pub fn from_words(m: MatrixType, w: &Vec<u32>) -> (r: MatrixUniformValue)
        requires
            w@.len() == 4 * m.columns(),
        ensures
            r == Self::of_words(m, w@),
            r.matrix_type() == m,
    {
        match m {
            MatrixType::M2x2 => MatrixUniformValue::M2x2(
                Column2::from_words(w[0], w[1]),
                Column2::from_words(w[4], w[5]),
            ),
            MatrixType::M2x3 => MatrixUniformValue::M2x3(
                Column3::from_words(w[0], w[1], w[2]),
                Column3::from_words(w[4], w[5], w[6]),
            ),
            MatrixType::M2x4 => MatrixUniformValue::M2x4(
                Column4::from_words(w[0], w[1], w[2], w[3]),
                Column4::from_words(w[4], w[5], w[6], w[7]),
            ),
            MatrixType::M3x2 => MatrixUniformValue::M3x2(
                Column2::from_words(w[0], w[1]),
                Column2::from_words(w[4], w[5]),
                Column2::from_words(w[8], w[9]),
            ),
            MatrixType::M3x3 => MatrixUniformValue::M3x3(
                Column3::from_words(w[0], w[1], w[2]),
                Column3::from_words(w[4], w[5], w[6]),
                Column3::from_words(w[8], w[9], w[10]),
            ),
            MatrixType::M3x4 => MatrixUniformValue::M3x4(
                Column4::from_words(w[0], w[1], w[2], w[3]),
                Column4::from_words(w[4], w[5], w[6], w[7]),
                Column4::from_words(w[8], w[9], w[10], w[11]),
            ),
            MatrixType::M4x2 => MatrixUniformValue::M4x2(
                Column2::from_words(w[0], w[1]),
                Column2::from_words(w[4], w[5]),
                Column2::from_words(w[8], w[9]),
                Column2::from_words(w[12], w[13]),
            ),
            MatrixType::M4x3 => MatrixUniformValue::M4x3(
                Column3::from_words(w[0], w[1], w[2]),
                Column3::from_words(w[4], w[5], w[6]),
                Column3::from_words(w[8], w[9], w[10]),
                Column3::from_words(w[12], w[13], w[14]),
            ),
            MatrixType::M4x4 => MatrixUniformValue::M4x4(
                Column4::from_words(w[0], w[1], w[2], w[3]),
                Column4::from_words(w[4], w[5], w[6], w[7]),
                Column4::from_words(w[8], w[9], w[10], w[11]),
                Column4::from_words(w[12], w[13], w[14], w[15]),
            ),
        }
    }

    /// Converts to shape `m`. The components are not carried over: the result
    /// is the zero matrix of that shape.
    pub fn cast_to_matrix(&self, m: MatrixType) -> (r: MatrixUniformValue)
        ensures
            r.matrix_type() == m,
            r.is_zero(),
    {
        Self::zero(m)
    }

    /// Replaces the matrix by the zero matrix of shape `m`.
    pub fn change_matrix_size(&mut self, m: MatrixType)
        ensures
            final(self).matrix_type() == m,
            final(self).is_zero(),
    {
        *self = self.cast_to_matrix(m);
    }

    /// The bytes of the matrix in a buffer: 16 for each column.
    pub fn to_le_bytes(&self) -> (bytes: Vec<u8>)
        ensures
            bytes@ == words_bytes(self.words()),
            bytes@.len() == self.matrix_type().encoded_size(),
    {
        encode_words(&self.to_words())
    }
}

/// A matrix is recovered from its shape and its layout.
pub proof fn lemma_matrix_words_round_trip(m: MatrixUniformValue)
    ensures
        m.words().len() == 4 * m.matrix_type().columns(),
        MatrixUniformValue::of_words(m.matrix_type(), m.words()) == m,
{
}

/// Two zero matrices of one shape are equal.
pub proof fn lemma_zero_matrix_unique(a: MatrixUniformValue, b: MatrixUniformValue)
    requires
        a.matrix_type() == b.matrix_type(),
        a.is_zero(),
        b.is_zero(),
    ensures
        a == b,
{
    lemma_matrix_words_round_trip(a);
    lemma_matrix_words_round_trip(b);
}

/// The layout of a matrix of shape `m` with the given columns: the rows of
/// each column, then zero padding up to four words.
pub open spec fn padded_words(m: MatrixType, columns: Seq<Seq<Float>>) -> Seq<u32> {
    Seq::new(
        4 * m.columns(),
        |i: int|
            if i % 4 < m.rows() {
                columns[i / 4][i % 4].bits
            } else {
                0u32
            },
    )
}

impl MatrixUniformValue {
    /// The matrix of shape `m` with the given columns.
    pub open spec fn of_columns(m: MatrixType, columns: Seq<Seq<Float>>) -> MatrixUniformValue {
        Self::of_words(m, padded_words(m, columns))
    }

    /// The components, column by column, each column top to bottom.
    pub fn to_columns(&self) -> (r: Vec<Vec<Float>>)
        ensures
            r@.len() == self.matrix_type().columns(),
            forall|i: int| 0 <= i < r@.len() ==> (#[trigger] r@[i])@ == self.columns()[i],
    {
        match self {
            MatrixUniformValue::M2x2(c1, c2) => vec![c1.values(), c2.values()],
            MatrixUniformValue::M2x3(c1, c2) => vec![c1.values(), c2.values()],
            MatrixUniformValue::M2x4(c1, c2) => vec![c1.values(), c2.values()],
            MatrixUniformValue::M3x2(c1, c2, c3) => vec![c1.values(), c2.values(), c3.values()],
            MatrixUniformValue::M3x3(c1, c2, c3) => vec![c1.values(), c2.values(), c3.values()],
            MatrixUniformValue::M3x4(c1, c2, c3) => vec![c1.values(), c2.values(), c3.values()],
            MatrixUniformValue::M4x2(c1, c2, c3, c4) => vec![c1.values(), c2.values(), c3.values(), c4.values()],
            MatrixUniformValue::M4x3(c1, c2, c3, c4) => vec![c1.values(), c2.values(), c3.values(), c4.values()],
            MatrixUniformValue::M4x4(c1, c2, c3, c4) => vec![c1.values(), c2.values(), c3.values(), c4.values()],
        }
    }

    /// The matrix of shape `m` with the first columns of `columns`, as many
    /// as the shape has.
    pub fn from_columns(m: MatrixType, columns: &Vec<Vec<Float>>) -> (r: MatrixUniformValue)
        requires
            columns@.len() >= m.columns(),
            forall|i: int| 0 <= i < m.columns() ==> (#[trigger] columns@[i])@.len() == m.rows(),
        ensures
            r == Self::of_columns(m, Seq::new(columns@.len(), |i: int| columns@[i]@)),
            r.matrix_type() == m,
    {
        let rows = m.row_count();
        let count = m.column_count();
        let ghost cols = Seq::new(columns@.len(), |i: int| columns@[i]@);
        let mut words: Vec<u32> = Vec::new();
        let mut c: usize = 0;
        while c < count
            invariant
                c <= count,
                count == m.columns(),
                rows == m.rows(),
                columns@.len() >= m.columns(),
                forall|i: int| 0 <= i < m.columns() ==> (#[trigger] columns@[i])@.len() == m.rows(),
                cols == Seq::new(columns@.len(), |i: int| columns@[i]@),
                words@.len() == 4 * c,
                forall|i: int| 0 <= i < 4 * c ==> #[trigger] words@[i] == padded_words(m, cols)[i],
            decreases count - c,
        {
            let column = &columns[c];
            let mut k: usize = 0;
            while k < 4
                invariant
                    k <= 4,
                    c < count,
                    count == m.columns(),
                    rows == m.rows(),
                    column@ == cols[c as int],
                    column@.len() == rows,
                    words@.len() == 4 * c + k,
                    forall|i: int|
                        0 <= i < 4 * c + k ==> #[trigger] words@[i] == padded_words(m, cols)[i],
                decreases 4 - k,
            {
                let word = if k < rows {
                    column[k].bits
                } else {
                    0
                };
                words.push(word);
                k = k + 1;
            }
            c = c + 1;
        }
        assert(words@ =~= padded_words(m, cols));
        Self::from_words(m, &words)
    }
}

/// A matrix is recovered from its shape and its columns.
pub proof fn lemma_matrix_columns_round_trip(m: MatrixUniformValue)
    ensures
        m.columns().len() == m.matrix_type().columns(),
        forall|i: int|
            0 <= i < m.columns().len() ==> (#[trigger] m.columns()[i]).len()
                == m.matrix_type().rows(),
        MatrixUniformValue::of_columns(m.matrix_type(), m.columns()) == m,
{
    assert(padded_words(m.matrix_type(), m.columns()) =~= m.words());
    lemma_matrix_words_round_trip(m);
}

} // verus!
