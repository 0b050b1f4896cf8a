//! Vector uniform values: two, three or four numbers of one kind.

use crate::bytes::{bits_signed, bits_to_signed, encode_words, signed_bits, words_bytes};
use crate::float::Float;
use crate::uniform_types::scalar::{ScalarType, ScalarUniformValue};
use vstd::prelude::*;

verus! {

/// The shape of a vector: its number of components and their kind.
#[derive(Debug, PartialEq, Eq, Clone, Copy, Structural)]
pub enum VecType {
    Vec2(ScalarType),
    Vec3(ScalarType),
    Vec4(ScalarType),
}

impl VecType {
    /// The number of components.
    pub open spec fn arity(self) -> nat {
        match self {
            VecType::Vec2(_) => 2,
            VecType::Vec3(_) => 3,
            VecType::Vec4(_) => 4,
        }
    }

    /// The kind of every component.
    pub open spec fn scalar_type(self) -> ScalarType {
        match self {
            VecType::Vec2(s) => s,
            VecType::Vec3(s) => s,
            VecType::Vec4(s) => s,
        }
    }

    /// The shape with the same number of components and kind `s`.
    pub open spec fn with_scalar(self, s: ScalarType) -> VecType {
        match self {
            VecType::Vec2(_) => VecType::Vec2(s),
            VecType::Vec3(_) => VecType::Vec3(s),
            VecType::Vec4(_) => VecType::Vec4(s),
        }
    }

    /// The number of components.
    pub fn len(&self) -> (n: usize)
        ensures
            n == self.arity(),
    {
        match self {
            VecType::Vec2(_) => 2,
            VecType::Vec3(_) => 3,
            VecType::Vec4(_) => 4,
        }
    }

    /// The kind of every component.
    pub fn inner_type(&self) -> (s: ScalarType)
        ensures
            s == self.scalar_type(),
    {
        match self {
            VecType::Vec2(s) => *s,
            VecType::Vec3(s) => *s,
            VecType::Vec4(s) => *s,
        }
    }

    /// The shape with the same number of components and kind `s`.
    pub fn change_inner_type(&self, s: ScalarType) -> (r: VecType)
        ensures
            r == self.with_scalar(s),
    {
        match self {
            VecType::Vec2(_) => VecType::Vec2(s),
            VecType::Vec3(_) => VecType::Vec3(s),
            VecType::Vec4(_) => VecType::Vec4(s),
        }
    }
}

/// Two numbers of one kind.
#[derive(Debug, Clone, Copy, PartialEq, Eq, Structural)]
pub enum Vec2UniformValue {
    U32(u32, u32),
    I32(i32, i32),
    F32(Float, Float),
}

/// Three numbers of one kind.
#[derive(Debug, Clone, Copy, PartialEq, Eq, Structural)]
pub enum Vec3UniformValue {
    U32(u32, u32, u32),
    I32(i32, i32, i32),
    F32(Float, Float, Float),
}

/// Four numbers of one kind.
#[derive(Debug, Clone, Copy, PartialEq, Eq, Structural)]
pub enum Vec4UniformValue {
    U32(u32, u32, u32, u32),
    I32(i32, i32, i32, i32),
    F32(Float, Float, Float, Float),
}

/// A vector of two, three or four components.
#[derive(Debug, Clone, Copy, PartialEq, Eq, Structural)]
pub enum VectorUniformValue {
    Vec2(Vec2UniformValue),
    Vec3(Vec3UniformValue),
    Vec4(Vec4UniformValue),
}

impl Vec2UniformValue {
    pub open spec fn scalar_type(self) -> ScalarType {
        match self {
            Vec2UniformValue::U32(..) => ScalarType::U32,
            Vec2UniformValue::I32(..) => ScalarType::I32,
            Vec2UniformValue::F32(..) => ScalarType::F32,
        }
    }

    /// The 32-bit words of the components, in order.
    pub open spec fn words(self) -> Seq<u32> {
        match self {
            Vec2UniformValue::U32(x, y) => seq![x, y],
            Vec2UniformValue::I32(x, y) => seq![signed_bits(x), signed_bits(y)],
            Vec2UniformValue::F32(x, y) => seq![x.bits, y.bits],
        }
    }

    /// The vector of kind `s` whose components have the given words.
    pub open spec fn of_words(s: ScalarType, w0: u32, w1: u32) -> Vec2UniformValue {
        match s {
            ScalarType::U32 => Vec2UniformValue::U32(w0, w1),
            ScalarType::I32 => Vec2UniformValue::I32(bits_signed(w0), bits_signed(w1)),
            ScalarType::F32 => Vec2UniformValue::F32(Float { bits: w0 }, Float { bits: w1 }),
        }
    }

    pub fn inner_type(&self) -> (s: ScalarType)
        ensures
            s == self.scalar_type(),
    {
        match self {
            Vec2UniformValue::U32(..) => ScalarType::U32,
            Vec2UniformValue::I32(..) => ScalarType::I32,
            Vec2UniformValue::F32(..) => ScalarType::F32,
        }
    }

    /// The components, each as a scalar value.
    pub fn to_components(&self) -> (r: Vec<ScalarUniformValue>)
        ensures
            r@.len() == 2,
            forall|i: int|
                0 <= i < 2 ==> #[trigger] r@[i] == ScalarUniformValue::of_word(
                    self.scalar_type(),
                    self.words()[i],
                ),
    {
        match self {
            Vec2UniformValue::U32(x, y) => vec![
                ScalarUniformValue::U32(*x),
                ScalarUniformValue::U32(*y),
            ],
            Vec2UniformValue::I32(x, y) => vec![
                ScalarUniformValue::I32(*x),
                ScalarUniformValue::I32(*y),
            ],
            Vec2UniformValue::F32(x, y) => vec![
                ScalarUniformValue::F32(*x),
                ScalarUniformValue::F32(*y),
            ],
        }
    }

    /// The vector of kind `s` whose components have the given words.
    pub fn from_words(s: ScalarType, w0: u32, w1: u32) -> (r: Vec2UniformValue)
        ensures
            r == Self::of_words(s, w0, w1),
            r.scalar_type() == s,
            r.words() == seq![w0, w1],
    {
        match s {
            ScalarType::U32 => Vec2UniformValue::U32(w0, w1),
            ScalarType::I32 => Vec2UniformValue::I32(bits_to_signed(w0), bits_to_signed(w1)),
            ScalarType::F32 => Vec2UniformValue::F32(Float { bits: w0 }, Float { bits: w1 }),
        }
    }
}

impl Vec3UniformValue {
    pub open spec fn scalar_type(self) -> ScalarType {
        match self {
            Vec3UniformValue::U32(..) => ScalarType::U32,
            Vec3UniformValue::I32(..) => ScalarType::I32,
            Vec3UniformValue::F32(..) => ScalarType::F32,
        }
    }

    /// The 32-bit words of the components, in order.
    pub open spec fn words(self) -> Seq<u32> {
        match self {
            Vec3UniformValue::U32(x, y, z) => seq![x, y, z],
            Vec3UniformValue::I32(x, y, z) => seq![signed_bits(x), signed_bits(y), signed_bits(z)],
            Vec3UniformValue::F32(x, y, z) => seq![x.bits, y.bits, z.bits],
        }
    }

    /// The vector of kind `s` whose components have the given words.
    pub open spec fn of_words(s: ScalarType, w0: u32, w1: u32, w2: u32) -> Vec3UniformValue {
        match s {
            ScalarType::U32 => Vec3UniformValue::U32(w0, w1, w2),
            ScalarType::I32 => Vec3UniformValue::I32(
                bits_signed(w0),
                bits_signed(w1),
                bits_signed(w2),
            ),
            ScalarType::F32 => Vec3UniformValue::F32(
                Float { bits: w0 },
                Float { bits: w1 },
                Float { bits: w2 },
            ),
        }
    }

    pub fn inner_type(&self) -> (s: ScalarType)
        ensures
            s == self.scalar_type(),
    {
        match self {
            Vec3UniformValue::U32(..) => ScalarType::U32,
            Vec3UniformValue::I32(..) => ScalarType::I32,
            Vec3UniformValue::F32(..) => ScalarType::F32,
        }
    }

    /// The components, each as a scalar value.
    pub fn to_components(&self) -> (r: Vec<ScalarUniformValue>)
        ensures
            r@.len() == 3,
            forall|i: int|
                0 <= i < 3 ==> #[trigger] r@[i] == ScalarUniformValue::of_word(
                    self.scalar_type(),
                    self.words()[i],
                ),
    {
        match self {
            Vec3UniformValue::U32(x, y, z) => vec![
                ScalarUniformValue::U32(*x),
                ScalarUniformValue::U32(*y),
                ScalarUniformValue::U32(*z),
            ],
            Vec3UniformValue::I32(x, y, z) => vec![
                ScalarUniformValue::I32(*x),
                ScalarUniformValue::I32(*y),
                ScalarUniformValue::I32(*z),
            ],
            Vec3UniformValue::F32(x, y, z) => vec![
                ScalarUniformValue::F32(*x),
                ScalarUniformValue::F32(*y),
                ScalarUniformValue::F32(*z),
            ],
        }
    }

    /// The vector of kind `s` whose components have the given words.
    pub fn from_words(s: ScalarType, w0: u32, w1: u32, w2: u32) -> (r: Vec3UniformValue)
        ensures
            r == Self::of_words(s, w0, w1, w2),
            r.scalar_type() == s,
            r.words() == seq![w0, w1, w2],
    {
        match s {
            ScalarType::U32 => Vec3UniformValue::U32(w0, w1, w2),
            ScalarType::I32 => Vec3UniformValue::I32(
                bits_to_signed(w0),
                bits_to_signed(w1),
                bits_to_signed(w2),
            ),
            ScalarType::F32 => Vec3UniformValue::F32(
                Float { bits: w0 },
                Float { bits: w1 },
                Float { bits: w2 },
            ),
        }
    }
}

impl Vec4UniformValue {
    pub open spec fn scalar_type(self) -> ScalarType {
        match self {
            Vec4UniformValue::U32(..) => ScalarType::U32,
            Vec4UniformValue::I32(..) => ScalarType::I32,
            Vec4UniformValue::F32(..) => ScalarType::F32,
        }
    }

    /// The 32-bit words of the components, in order.
    pub open spec fn words(self) -> Seq<u32> {
        match self {
            Vec4UniformValue::U32(x, y, z, w) => seq![x, y, z, w],
            Vec4UniformValue::I32(x, y, z, w) => seq![
                signed_bits(x),
                signed_bits(y),
                signed_bits(z),
                signed_bits(w),
            ],
            Vec4UniformValue::F32(x, y, z, w) => seq![x.bits, y.bits, z.bits, w.bits],
        }
    }

    /// The vector of kind `s` whose components have the given words.
    pub open spec fn of_words(s: ScalarType, w0: u32, w1: u32, w2: u32, w3: u32)
        -> Vec4UniformValue {
        match s {
            ScalarType::U32 => Vec4UniformValue::U32(w0, w1, w2, w3),
            ScalarType::I32 => Vec4UniformValue::I32(
                bits_signed(w0),
                bits_signed(w1),
                bits_signed(w2),
                bits_signed(w3),
            ),
            ScalarType::F32 => Vec4UniformValue::F32(
                Float { bits: w0 },
                Float { bits: w1 },
                Float { bits: w2 },
                Float { bits: w3 },
            ),
        }
    }

    pub fn inner_type(&self) -> (s: ScalarType)
        ensures
            s == self.scalar_type(),
    {
        match self {
            Vec4UniformValue::U32(..) => ScalarType::U32,
            Vec4UniformValue::I32(..) => ScalarType::I32,
            Vec4UniformValue::F32(..) => ScalarType::F32,
        }
    }

    /// The components, each as a scalar value.
    pub fn to_components(&self) -> (r: Vec<ScalarUniformValue>)
        ensures
            r@.len() == 4,
            forall|i: int|
                0 <= i < 4 ==> #[trigger] r@[i] == ScalarUniformValue::of_word(
                    self.scalar_type(),
                    self.words()[i],
                ),
    {
        match self {
            Vec4UniformValue::U32(x, y, z, w) => vec![
                ScalarUniformValue::U32(*x),
                ScalarUniformValue::U32(*y),
                ScalarUniformValue::U32(*z),
                ScalarUniformValue::U32(*w),
            ],
            Vec4UniformValue::I32(x, y, z, w) => vec![
                ScalarUniformValue::I32(*x),
                ScalarUniformValue::I32(*y),
                ScalarUniformValue::I32(*z),
                ScalarUniformValue::I32(*w),
            ],
            Vec4UniformValue::F32(x, y, z, w) => vec![
                ScalarUniformValue::F32(*x),
                ScalarUniformValue::F32(*y),
                ScalarUniformValue::F32(*z),
                ScalarUniformValue::F32(*w),
            ],
        }
    }

    /// The vector of kind `s` whose components have the given words.
    pub fn from_words(s: ScalarType, w0: u32, w1: u32, w2: u32, w3: u32) -> (r: Vec4UniformValue)
        ensures
            r == Self::of_words(s, w0, w1, w2, w3),
            r.scalar_type() == s,
            r.words() == seq![w0, w1, w2, w3],
    {
        match s {
            ScalarType::U32 => Vec4UniformValue::U32(w0, w1, w2, w3),
            ScalarType::I32 => Vec4UniformValue::I32(
                bits_to_signed(w0),
                bits_to_signed(w1),
                bits_to_signed(w2),
                bits_to_signed(w3),
            ),
            ScalarType::F32 => Vec4UniformValue::F32(
                Float { bits: w0 },
                Float { bits: w1 },
                Float { bits: w2 },
                Float { bits: w3 },
            ),
        }
    }
}

impl VectorUniformValue {
    /// The shape of the vector.
    pub open spec fn vec_type(self) -> VecType {
        match self {
            VectorUniformValue::Vec2(v) => VecType::Vec2(v.scalar_type()),
            VectorUniformValue::Vec3(v) => VecType::Vec3(v.scalar_type()),
            VectorUniformValue::Vec4(v) => VecType::Vec4(v.scalar_type()),
        }
    }

    /// The 32-bit words of the components, in order: the layout of the
    /// vector in a buffer.
    pub open spec fn words(self) -> Seq<u32> {
        match self {
            VectorUniformValue::Vec2(v) => v.words(),
            VectorUniformValue::Vec3(v) => v.words(),
            VectorUniformValue::Vec4(v) => v.words(),
        }
    }

    /// The components, each as a scalar value.
    pub open spec fn components(self) -> Seq<ScalarUniformValue> {
        Seq::new(
            self.vec_type().arity(),
            |i: int| ScalarUniformValue::of_word(self.vec_type().scalar_type(), self.words()[i]),
        )
    }

    /// The vector of shape `v` whose components have the given words.
    pub open spec fn of_words(v: VecType, words: Seq<u32>) -> VectorUniformValue
        recommends
            words.len() == v.arity(),
    {
        match v {
            VecType::Vec2(s) => VectorUniformValue::Vec2(
                Vec2UniformValue::of_words(s, words[0], words[1]),
            ),
            VecType::Vec3(s) => VectorUniformValue::Vec3(
                Vec3UniformValue::of_words(s, words[0], words[1], words[2]),
            ),
            VecType::Vec4(s) => VectorUniformValue::Vec4(
                Vec4UniformValue::of_words(s, words[0], words[1], words[2], words[3]),
            ),
        }
    }

    /// `r` is this vector converted to shape `v`: the components that both
    /// shapes have are converted one by one as scalars are, and the components
    /// that only `v` has are zero.
    pub open spec fn casts_to_vec(self, v: VecType, r: VectorUniformValue) -> bool {
        &&& r.vec_type() == v
        &&& forall|i: int|
            0 <= i < v.arity() && i < self.vec_type().arity() ==> (
            #[trigger] self.components()[i]).casts_to(v.scalar_type(), r.components()[i])
        &&& forall|i: int|
            self.vec_type().arity() <= i < v.arity() ==> #[trigger] r.components()[i]
                == ScalarUniformValue::spec_zero(v.scalar_type())
    }

    /// The shape of the vector.
    pub fn get_type(&self) -> (v: VecType)
        ensures
            v == self.vec_type(),
    {
        match self {
            VectorUniformValue::Vec2(v) => VecType::Vec2(v.inner_type()),
            VectorUniformValue::Vec3(v) => VecType::Vec3(v.inner_type()),
            VectorUniformValue::Vec4(v) => VecType::Vec4(v.inner_type()),
        }
    }

    /// The components, each as a scalar value.
    pub fn to_components(&self) -> (r: Vec<ScalarUniformValue>)
        ensures
            r@ == self.components(),
    {
        let r = match self {
            VectorUniformValue::Vec2(v) => v.to_components(),
            VectorUniformValue::Vec3(v) => v.to_components(),
            VectorUniformValue::Vec4(v) => v.to_components(),
        };
        assert(r@ =~= self.components());
        r
    }

    /// The 32-bit words of the components, in order.
    pub fn to_words(&self) -> (r: Vec<u32>)
        ensures
            r@ == self.words(),
            r@.len() == self.vec_type().arity(),
    {
        let components = self.to_components();
        let mut r: Vec<u32> = Vec::new();
        let mut i: usize = 0;
        while i < components.len()
            invariant
                i <= components@.len(),
                components@ == self.components(),
                r@.len() == i,
                forall|j: int| 0 <= j < i ==> #[trigger] r@[j] == self.words()[j],
            decreases components@.len() - i,
        {
            proof {
                crate::bytes::lemma_signed_round_trip(0, self.words()[i as int]);
            }
            r.push(components[i].to_word());
            i = i + 1;
        }
        assert(self.words().len() == self.vec_type().arity());
        assert(r@ =~= self.words());
        r
    }

    /// The vector of shape `v` whose components have the given words.
    pub fn from_words(v: VecType, words: &Vec<u32>) -> (r: VectorUniformValue)
        requires
            words@.len() == v.arity(),
        ensures
            r == Self::of_words(v, words@),
            r.vec_type() == v,
            r.words() == words@,
    {
        let r = match v {
            VecType::Vec2(s) => VectorUniformValue::Vec2(
                Vec2UniformValue::from_words(s, words[0], words[1]),
            ),
            VecType::Vec3(s) => VectorUniformValue::Vec3(
                Vec3UniformValue::from_words(s, words[0], words[1], words[2]),
            ),
            VecType::Vec4(s) => VectorUniformValue::Vec4(
                Vec4UniformValue::from_words(s, words[0], words[1], words[2], words[3]),
            ),
        };
        assert(r.words() =~= words@);
        r
    }

    /// Converts the vector to shape `v`, keeping the components that both
    /// shapes have and filling the others with zero.
    pub fn cast_to_vec(&self, v: VecType) -> (r: VectorUniformValue)
        ensures
            self.casts_to_vec(v, r),
    {
        let s = v.inner_type();
        let n = v.len();
        let components = self.to_components();
        let mut words: Vec<u32> = Vec::new();
        let ghost mut casted: Seq<ScalarUniformValue> = Seq::empty();
        let mut i: usize = 0;
        while i < n
            invariant
                i <= n,
                n == v.arity(),
                s == v.scalar_type(),
                components@ == self.components(),
                words@.len() == i,
                casted.len() == i,
                forall|j: int|
                    0 <= j < i ==> (#[trigger] casted[j]).scalar_type() == s && casted[j].word()
                        == words@[j],
                forall|j: int|
                    0 <= j < i && j < components@.len() ==> (#[trigger] components@[j]).casts_to(
                        s,
                        casted[j],
                    ),
                forall|j: int|
                    components@.len() <= j < i ==> #[trigger] casted[j]
                        == ScalarUniformValue::spec_zero(s),
            decreases n - i,
        {
            let c = if i < components.len() {
                components[i].cast_to_scalar(s)
            } else {
                ScalarUniformValue::zero(s)
            };
            words.push(c.to_word());
            proof {
                casted = casted.push(c);
            }
            i = i + 1;
        }
        let r = Self::from_words(v, &words);
        proof {
            assert forall|j: int| 0 <= j < v.arity() implies #[trigger] r.components()[j]
                == casted[j] by {
                crate::uniform_types::scalar::lemma_of_word_round_trip(casted[j]);
            }
        }
        r
    }

    /// Converts the vector to a scalar of kind `s`: its first component,
    /// converted as scalars are.
    pub fn cast_to_scalar(&self, s: ScalarType) -> (r: ScalarUniformValue)
        ensures
            self.components()[0].casts_to(s, r),
            r.scalar_type() == s,
    {
        let components = self.to_components();
        components[0].cast_to_scalar(s)
    }

    /// Converts every component to kind `s`, keeping their number.
    pub fn change_inner_type(&mut self, s: ScalarType)
        ensures
            old(self).casts_to_vec(old(self).vec_type().with_scalar(s), *final(self)),
    {
        let v = self.get_type().change_inner_type(s);
        *self = self.cast_to_vec(v);
    }

    /// The bytes of the components, in order, each least significant byte
    /// first.
    pub fn to_le_bytes(&self) -> (bytes: Vec<u8>)
        ensures
            bytes@ == words_bytes(self.words()),
            bytes@.len() == 4 * self.vec_type().arity(),
    {
        encode_words(&self.to_words())
    }
}

} // verus!
