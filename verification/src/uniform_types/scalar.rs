//! Scalar uniform values: one 32-bit number, unsigned, signed or binary32.

use crate::bytes::{
    bits_signed, bits_to_signed, le_bytes, signed_bits, signed_to_bits, word_to_le_bytes,
};
use crate::float::{nearest_representable, Float};
use crate::rounding::is_sum_with_one;
use crate::uniform_types::{cast_f32_u32, cast_i32_u32, cast_u32_i32, spec_cast_i32_u32};
use vstd::prelude::*;

verus! {

/// The three kinds of 32-bit number that a uniform can hold.
#[derive(Debug, Clone, Copy, PartialEq, Eq, Structural)]
pub enum ScalarType {
    U32,
    I32,
    F32,
}

/// One number, tagged with its kind.
#[derive(Debug, Clone, Copy, PartialEq, Eq, Structural)]
pub enum ScalarUniformValue {
    U32(u32),
    I32(i32),
    F32(Float),
}

impl ScalarUniformValue {
    /// The kind of the number.
    pub open spec fn scalar_type(self) -> ScalarType {
        match self {
            ScalarUniformValue::U32(_) => ScalarType::U32,
            ScalarUniformValue::I32(_) => ScalarType::I32,
            ScalarUniformValue::F32(_) => ScalarType::F32,
        }
    }

    /// The 32 bits that the number occupies in a buffer.
    pub open spec fn word(self) -> u32 {
        match self {
            ScalarUniformValue::U32(v) => v,
            ScalarUniformValue::I32(v) => signed_bits(v),
            ScalarUniformValue::F32(v) => v.bits,
        }
    }

    /// The number of kind `s` whose 32 bits are `word`.
    pub open spec fn of_word(s: ScalarType, word: u32) -> ScalarUniformValue {
        match s {
            ScalarType::U32 => ScalarUniformValue::U32(word),
            ScalarType::I32 => ScalarUniformValue::I32(bits_signed(word)),
            ScalarType::F32 => ScalarUniformValue::F32(Float { bits: word }),
        }
    }

    /// Zero of kind `s`.
    pub open spec fn spec_zero(s: ScalarType) -> ScalarUniformValue {
        Self::of_word(s, 0)
    }

    /// `r` is this number converted to kind `s` by a numeric cast:
    /// - between the two integer kinds, an unsigned number keeps its bit
    ///   pattern and a negative signed number becomes zero;
    /// - an integer becomes the nearest binary32 number;
    /// - a binary32 number is truncated toward zero and clamped to the signed
    ///   range (a NaN becomes zero), and a negative result becomes zero where
    ///   the target is unsigned;
    /// - a number already of kind `s` is unchanged.
    pub open spec fn casts_to(self, s: ScalarType, r: ScalarUniformValue) -> bool {
        match (self, s) {
            (ScalarUniformValue::U32(v), ScalarType::I32) => r == ScalarUniformValue::I32(
                bits_signed(v),
            ),
            (ScalarUniformValue::U32(v), ScalarType::F32) => {
                &&& r matches ScalarUniformValue::F32(f)
                &&& f.is_whole(false, nearest_representable(v as nat))
            },
            (ScalarUniformValue::I32(v), ScalarType::U32) => r == ScalarUniformValue::U32(
                spec_cast_i32_u32(v),
            ),
            (ScalarUniformValue::I32(v), ScalarType::F32) => {
                &&& r matches ScalarUniformValue::F32(f)
                &&& f.is_whole(v < 0, nearest_representable(vstd::math::abs(v as int) as nat))
            },
            (ScalarUniformValue::F32(v), ScalarType::U32) => r == ScalarUniformValue::U32(
                spec_cast_i32_u32(v.truncated() as i32),
            ),
            (ScalarUniformValue::F32(v), ScalarType::I32) => r == ScalarUniformValue::I32(
                v.truncated() as i32,
            ),
            (ScalarUniformValue::U32(_), ScalarType::U32) => r == self,
            (ScalarUniformValue::I32(_), ScalarType::I32) => r == self,
            (ScalarUniformValue::F32(_), ScalarType::F32) => r == self,
        }
    }

    /// The kind of the number.
    pub fn get_type(&self) -> (s: ScalarType)
        ensures
            s == self.scalar_type(),
    {
        match self {
            ScalarUniformValue::U32(_) => ScalarType::U32,
            ScalarUniformValue::I32(_) => ScalarType::I32,
            ScalarUniformValue::F32(_) => ScalarType::F32,
        }
    }

    /// The 32 bits that the number occupies in a buffer.
    pub fn to_word(&self) -> (w: u32)
        ensures
            w == self.word(),
    {
        match self {
            ScalarUniformValue::U32(v) => *v,
            ScalarUniformValue::I32(v) => signed_to_bits(*v),
            ScalarUniformValue::F32(v) => v.bits,
        }
    }

    /// The number of kind `s` whose 32 bits are `word`.
    pub fn from_word(s: ScalarType, word: u32) -> (r: ScalarUniformValue)
        ensures
            r == Self::of_word(s, word),
            r.scalar_type() == s,
            r.word() == word,
    {
        match s {
            ScalarType::U32 => ScalarUniformValue::U32(word),
            ScalarType::I32 => ScalarUniformValue::I32(bits_to_signed(word)),
            ScalarType::F32 => ScalarUniformValue::F32(Float { bits: word }),
        }
    }

    /// Zero of kind `s`.
    pub fn zero(s: ScalarType) -> (r: ScalarUniformValue)
        ensures
            r == Self::spec_zero(s),
            r.scalar_type() == s,
            r.word() == 0,
    {
        Self::from_word(s, 0)
    }

    /// Converts the number to kind `s` by a numeric cast.
    pub fn cast_to_scalar(self, s: ScalarType) -> (r: ScalarUniformValue)
        ensures
            self.casts_to(s, r),
            r.scalar_type() == s,
    {
        match (self, s) {
            (ScalarUniformValue::U32(v), ScalarType::I32) => ScalarUniformValue::I32(
                cast_u32_i32(v),
            ),
            (ScalarUniformValue::U32(v), ScalarType::F32) => ScalarUniformValue::F32(
                Float::from_u32(v),
            ),
            (ScalarUniformValue::I32(v), ScalarType::U32) => ScalarUniformValue::U32(
                cast_i32_u32(v),
            ),
            (ScalarUniformValue::I32(v), ScalarType::F32) => ScalarUniformValue::F32(
                Float::from_i32(v),
            ),
            (ScalarUniformValue::F32(v), ScalarType::U32) => ScalarUniformValue::U32(
                cast_f32_u32(v),
            ),
            (ScalarUniformValue::F32(v), ScalarType::I32) => ScalarUniformValue::I32(v.to_i32()),
            (ScalarUniformValue::U32(_), ScalarType::U32) => self,
            (ScalarUniformValue::I32(_), ScalarType::I32) => self,
            (ScalarUniformValue::F32(_), ScalarType::F32) => self,
        }
    }

    /// `r` is this number plus one, or minus one if `down` is set: exactly
    /// for an integer, and rounded to the nearest binary32 number for a
    /// binary32 number.
    pub open spec fn steps_to(self, down: bool, r: ScalarUniformValue) -> bool {
        match self {
            ScalarUniformValue::U32(v) => r == ScalarUniformValue::U32(
                (if down {
                    v - 1
                } else {
                    v + 1
                }) as u32,
            ),
            ScalarUniformValue::I32(v) => r == ScalarUniformValue::I32(
                (if down {
                    v - 1
                } else {
                    v + 1
                }) as i32,
            ),
            ScalarUniformValue::F32(v) => {
                &&& r matches ScalarUniformValue::F32(f)
                &&& is_sum_with_one(v, down, f)
            },
        }
    }

    /// One can be added to the number: it is not the largest integer of its
    /// kind.
    pub open spec fn can_increase(self) -> bool {
        match self {
            ScalarUniformValue::U32(v) => v < u32::MAX,
            ScalarUniformValue::I32(v) => v < i32::MAX,
            ScalarUniformValue::F32(v) => true,
        }
    }

    /// One can be taken from the number: it is not the smallest integer of
    /// its kind.
    pub open spec fn can_decrease(self) -> bool {
        match self {
            ScalarUniformValue::U32(v) => v > 0,
            ScalarUniformValue::I32(v) => v > i32::MIN,
            ScalarUniformValue::F32(v) => true,
        }
    }

    /// Whether one can be added to the number.
    pub fn increasable(&self) -> (r: bool)
        ensures
            r == self.can_increase(),
    {
        match self {
            ScalarUniformValue::U32(v) => *v < u32::MAX,
            ScalarUniformValue::I32(v) => *v < i32::MAX,
            ScalarUniformValue::F32(_) => true,
        }
    }

    /// Whether one can be taken from the number.
    pub fn decreasable(&self) -> (r: bool)
        ensures
            r == self.can_decrease(),
    {
        match self {
            ScalarUniformValue::U32(v) => *v > 0,
            ScalarUniformValue::I32(v) => *v > i32::MIN,
            ScalarUniformValue::F32(_) => true,
        }
    }

    /// Adds one.
    pub fn increase(&mut self)
        requires
            old(self).can_increase(),
        ensures
            old(self).steps_to(false, *final(self)),
            final(self).scalar_type() == old(self).scalar_type(),
    {
        match *self {
            ScalarUniformValue::U32(v) => {
                *self = ScalarUniformValue::U32(v + 1);
            },
            ScalarUniformValue::I32(v) => {
                *self = ScalarUniformValue::I32(v + 1);
            },
            ScalarUniformValue::F32(v) => {
                *self = ScalarUniformValue::F32(v.add_one());
            },
        }
    }

    /// Takes one away.
    pub fn decrease(&mut self)
        requires
            old(self).can_decrease(),
        ensures
            old(self).steps_to(true, *final(self)),
            final(self).scalar_type() == old(self).scalar_type(),
    {
        match *self {
            ScalarUniformValue::U32(v) => {
                *self = ScalarUniformValue::U32(v - 1);
            },
            ScalarUniformValue::I32(v) => {
                *self = ScalarUniformValue::I32(v - 1);
            },
            ScalarUniformValue::F32(v) => {
                *self = ScalarUniformValue::F32(v.sub_one());
            },
        }
    }

    /// The four bytes of the number, least significant first.
    pub fn to_le_bytes(&self) -> (bytes: Vec<u8>)
        ensures
            bytes@ == le_bytes(self.word()),
            bytes@.len() == 4,
    {
        let quad = word_to_le_bytes(self.to_word());
        let mut bytes: Vec<u8> = Vec::new();
        bytes.push(quad[0]);
        bytes.push(quad[1]);
        bytes.push(quad[2]);
        bytes.push(quad[3]);
        assert(bytes@ =~= le_bytes(self.word()));
        bytes
    }
}

/// A scalar value is the value of its own kind with its own word.
pub proof fn lemma_of_word_round_trip(v: ScalarUniformValue)
    ensures
        ScalarUniformValue::of_word(v.scalar_type(), v.word()) == v,
{
    match v {
        ScalarUniformValue::I32(x) => {
            crate::bytes::lemma_signed_round_trip(x, 0);
        },
        _ => {},
    }
}

/// An unsigned number below `2^24` survives the way to binary32 and back.
pub proof fn lemma_unsigned_through_float(v: u32, f: ScalarUniformValue, r: ScalarUniformValue)
    requires
        v < 0x100_0000,
        ScalarUniformValue::U32(v).casts_to(ScalarType::F32, f),
        f.casts_to(ScalarType::U32, r),
    ensures
        r == ScalarUniformValue::U32(v),
{
    let x = f->F32_0;
    crate::float::lemma_small_whole_exact(v as nat);
    crate::float::lemma_truncated_of_whole(x, false, v as nat);
}

/// An unsigned number below `2^31` survives the way to signed and back.
pub proof fn lemma_unsigned_through_signed(v: u32, i: ScalarUniformValue, r: ScalarUniformValue)
    requires
        v < 0x8000_0000,
        ScalarUniformValue::U32(v).casts_to(ScalarType::I32, i),
        i.casts_to(ScalarType::U32, r),
    ensures
        r == ScalarUniformValue::U32(v),
{
}

/// A binary32 number of magnitude below `2^24` that goes to signed and back
/// comes out as its whole part: the fraction is cut off, not rounded.
pub proof fn lemma_float_through_signed(x: Float, i: ScalarUniformValue, g: ScalarUniformValue)
    requires
        !x.is_nan(),
        x.magnitude_floor() < 0x100_0000,
        ScalarUniformValue::F32(x).casts_to(ScalarType::I32, i),
        i.casts_to(ScalarType::F32, g),
    ensures
        g matches ScalarUniformValue::F32(y) && y.is_whole(
            x.is_negative() && x.magnitude_floor() > 0,
            x.magnitude_floor(),
        ),
{
    crate::float::lemma_small_whole_exact(x.magnitude_floor());
}

/// A conversion has one result.
pub proof fn lemma_cast_determined(
    x: ScalarUniformValue,
    s: ScalarType,
    a: ScalarUniformValue,
    b: ScalarUniformValue,
)
    requires
        x.casts_to(s, a),
        x.casts_to(s, b),
    ensures
        a == b,
{
    match (x, s) {
        (ScalarUniformValue::U32(v), ScalarType::F32) => {
            crate::float::lemma_whole_unique(
                a->F32_0,
                b->F32_0,
                false,
                nearest_representable(v as nat),
            );
        },
        (ScalarUniformValue::I32(v), ScalarType::F32) => {
            crate::float::lemma_whole_unique(
                a->F32_0,
                b->F32_0,
                v < 0,
                nearest_representable(vstd::math::abs(v as int) as nat),
            );
        },
        _ => {},
    }
}

} // verus!
