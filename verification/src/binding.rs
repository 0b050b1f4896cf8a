//! One named uniform value and the device buffer that holds its bytes.
//!
//! The library keeps a model of the device: what each buffer holds, and which
//! allocation it is. Whoever owns the real device replays the model on it.

use crate::float::Float;
use crate::uniform_types::matrix::MatrixType;
use crate::uniform_types::scalar::{ScalarType, ScalarUniformValue};
use crate::uniform_types::vector::VecType;
use crate::uniform_types::{BuiltinValue, UniformType, UniformValue};
use vstd::prelude::*;

verus! {

/// The model of a device buffer: the bytes it holds, and a number that changes
/// whenever a new buffer takes the place of an old one.
pub struct Buffer {
    pub contents: Vec<u8>,
    pub generation: u64,
}

/// What a buffer is: its bytes and its allocation number.
pub struct BufferView {
    pub contents: Seq<u8>,
    pub generation: u64,
}

/// One slot of a group as a layout lists it: the index under which a shader
/// finds the buffer.
#[derive(Debug, Clone, Copy, PartialEq, Eq, Structural)]
pub struct BindGroupLayoutEntry {
    pub binding: u32,
}

/// One slot of a group: the index under which a shader finds a buffer, and
/// the allocation number of that buffer.
#[derive(Debug, Clone, Copy, PartialEq, Eq, Structural)]
pub struct BindGroupEntry {
    pub binding: u32,
    pub buffer: u64,
}

/// A named value with its buffer.
pub struct UniformBinding {
    pub buffer: Buffer,
    pub value: UniformValue,
    pub name: String,
}

/// What a binding is: its value, its name and its buffer.
pub struct BindingView {
    pub value: UniformValue,
    pub name: Seq<char>,
    pub buffer: BufferView,
}

/// The allocation number that follows `generation`.
pub open spec fn next_generation(generation: u64) -> u64 {
    if generation == u64::MAX {
        0
    } else {
        (generation + 1) as u64
    }
}

/// The value that a new binding holds until it is given another: the
/// binary32 scalar zero.
pub open spec fn spec_default_uniform() -> UniformValue {
    UniformValue::Scalar(ScalarUniformValue::F32(Float { bits: 0 }))
}

/// The value that a new binding holds until it is given another.
pub fn default_uniform() -> (v: UniformValue)
    ensures
        v == spec_default_uniform(),
{
    UniformValue::Scalar(ScalarUniformValue::F32(Float::zero()))
}

impl View for Buffer {
    type V = BufferView;

    open spec fn view(&self) -> BufferView {
        BufferView { contents: self.contents@, generation: self.generation }
    }
}

impl View for UniformBinding {
    type V = BindingView;

    open spec fn view(&self) -> BindingView {
        BindingView { value: self.value, name: self.name@, buffer: self.buffer@ }
    }
}

impl BindingView {
    /// The buffer has exactly as many bytes as the value takes.
    pub open spec fn wf(self) -> bool {
        self.buffer.contents.len() == self.value.encoded_size()
    }

    /// A new binding for `value`: named "unnamed", with a first buffer that
    /// holds the bytes of the value.
    pub open spec fn new(value: UniformValue) -> BindingView {
        BindingView {
            value,
            name: "unnamed"@,
            buffer: BufferView { contents: value.encoding(), generation: 0 },
        }
    }

    /// The binding after `value` was written to it. If the value takes as
    /// many bytes as the buffer has, the bytes go into that buffer; if not, a
    /// new buffer of the right size takes its place.
    pub open spec fn written(self, value: UniformValue) -> BindingView {
        BindingView {
            value,
            name: self.name,
            buffer: BufferView {
                contents: value.encoding(),
                generation: if value.encoded_size() == self.buffer.contents.len() {
                    self.buffer.generation
                } else {
                    next_generation(self.buffer.generation)
                },
            },
        }
    }

    /// The slot that lists this binding's buffer under `index`.
    pub open spec fn entry(self, index: u32) -> BindGroupEntry {
        BindGroupEntry { binding: index, buffer: self.buffer.generation }
    }
}

/// The shape that a binding takes when a shader asks for `size` bytes: the
/// shape whose components take exactly that many.
pub open spec fn spec_size_type(size: u64) -> Option<UniformType> {
    if size == 4 {
        Some(UniformType::Scalar(ScalarType::F32))
    } else if size == 8 {
        Some(UniformType::Vec(VecType::Vec2(ScalarType::F32)))
    } else if size == 12 {
        Some(UniformType::Vec(VecType::Vec3(ScalarType::F32)))
    } else if size == 16 {
        Some(UniformType::Vec(VecType::Vec4(ScalarType::F32)))
    } else if size == 24 {
        Some(UniformType::Matrix(MatrixType::M2x3))
    } else if size == 32 {
        Some(UniformType::Matrix(MatrixType::M2x4))
    } else if size == 36 {
        Some(UniformType::Matrix(MatrixType::M3x3))
    } else if size == 48 {
        Some(UniformType::Matrix(MatrixType::M3x4))
    } else if size == 64 {
        Some(UniformType::Matrix(MatrixType::M4x4))
    } else {
        None
    }
}

/// The shape that a binding takes when a shader asks for `size` bytes; none
/// for a size that no shape in the table has.
pub fn size_type(size: u64) -> (t: Option<UniformType>)
    ensures
        t == spec_size_type(size),
{
    if size == 4 {
        Some(UniformType::Scalar(ScalarType::F32))
    } else if size == 8 {
        Some(UniformType::Vec(VecType::Vec2(ScalarType::F32)))
    } else if size == 12 {
        Some(UniformType::Vec(VecType::Vec3(ScalarType::F32)))
    } else if size == 16 {
        Some(UniformType::Vec(VecType::Vec4(ScalarType::F32)))
    } else if size == 24 {
        Some(UniformType::Matrix(MatrixType::M2x3))
    } else if size == 32 {
        Some(UniformType::Matrix(MatrixType::M2x4))
    } else if size == 36 {
        Some(UniformType::Matrix(MatrixType::M3x3))
    } else if size == 48 {
        Some(UniformType::Matrix(MatrixType::M3x4))
    } else if size == 64 {
        Some(UniformType::Matrix(MatrixType::M4x4))
    } else {
        None
    }
}

/// Every shape in the table has components of exactly the size it is listed
/// under, and takes at least that many bytes in a buffer.
pub proof fn lemma_size_type_matches(size: u64)
    ensures
        spec_size_type(size) matches Some(t) ==> t.natural_size() == size && t.encoded_size()
            >= size,
{
}

impl UniformBinding {
    /// The buffer has exactly as many bytes as the value takes.
    pub open spec fn wf(&self) -> bool {
        self@.wf()
    }

    /// The slot of a layout that lists this binding under `index`.
    pub fn bgl_entry(&self, index: u32) -> (e: BindGroupLayoutEntry)
        ensures
            e.binding == index,
    {
        BindGroupLayoutEntry { binding: index }
    }

    /// The slot of a group that lists this binding's buffer under `index`.
    pub fn bg_entry(&self, index: u32) -> (e: BindGroupEntry)
        ensures
            e == self@.entry(index),
    {
        BindGroupEntry { binding: index, buffer: self.buffer.generation }
    }

    /// A binding for `value`, named "unnamed", with a new buffer that holds
    /// the bytes of the value.
    pub fn new(value: UniformValue) -> (r: UniformBinding)
        ensures
            r@ == BindingView::new(value),
            r.wf(),
    {
        let contents = value.to_le_bytes();
        UniformBinding {
            buffer: Buffer { contents, generation: 0 },
            value,
            name: "unnamed".to_owned(),
        }
    }

    /// Stores `value` and puts its bytes on the device: into the buffer at
    /// hand if the value takes as many bytes as the buffer has, into a new
    /// buffer of the right size if not. Returns whether a new buffer was
    /// made.
    pub fn write(&mut self, value: UniformValue) -> (reallocated: bool)
        ensures
            final(self)@ == old(self)@.written(value),
            final(self).wf(),
            reallocated == (value.encoded_size() != old(self)@.buffer.contents.len()),
    {
        let bytes = value.to_le_bytes();
        let reallocated = bytes.len() != self.buffer.contents.len();
        if reallocated {
            let generation = if self.buffer.generation == u64::MAX {
                0
            } else {
                self.buffer.generation + 1
            };
            self.buffer = Buffer { contents: bytes, generation };
        } else {
            self.buffer.contents = bytes;
        }
        self.value = value;
        reallocated
    }

    /// Puts the bytes of the value on the device again, as [`Self::write`]
    /// does.
    pub fn update_buffer(&mut self) -> (reallocated: bool)
        ensures
            final(self)@ == old(self)@.written(old(self).value),
            final(self).wf(),
            reallocated == (old(self).value.encoded_size() != old(self)@.buffer.contents.len()),
    {
        let value = self.value;
        self.write(value)
    }

    /// Converts the value to shape `new_type` and writes the result. Returns
    /// whether a new buffer was made.
    pub fn change_type(&mut self, new_type: UniformType) -> (reallocated: bool)
        requires
            old(self).value !is BuiltIn,
        ensures
            old(self).value.casts_to(new_type, final(self).value),
            final(self).value.uniform_type() == Some(new_type),
            final(self)@ == old(self)@.written(final(self).value),
            final(self).wf(),
            reallocated == (new_type.encoded_size() != old(self)@.buffer.contents.len()),
    {
        let new_value = self.value.cast_to(new_type);
        proof {
            crate::uniform_types::lemma_encoded_size(new_value);
        }
        self.write(new_value)
    }

    /// Adds one to a scalar and writes it into the buffer at hand.
    pub fn increase(&mut self)
        requires
            old(self).wf(),
            old(self).value is Scalar,
            old(self).value->Scalar_0.can_increase(),
        ensures
            final(self).value is Scalar,
            old(self).value->Scalar_0.steps_to(false, final(self).value->Scalar_0),
            final(self)@ == old(self)@.written(final(self).value),
            final(self)@.buffer.generation == old(self)@.buffer.generation,
            final(self).wf(),
    {
        let mut value = self.value;
        value.increase();
        self.write(value);
    }

    /// Takes one away from a scalar and writes it into the buffer at hand.
    pub fn decrease(&mut self)
        requires
            old(self).wf(),
            old(self).value is Scalar,
            old(self).value->Scalar_0.can_decrease(),
        ensures
            final(self).value is Scalar,
            old(self).value->Scalar_0.steps_to(true, final(self).value->Scalar_0),
            final(self)@ == old(self)@.written(final(self).value),
            final(self)@.buffer.generation == old(self)@.buffer.generation,
            final(self).wf(),
    {
        let mut value = self.value;
        value.decrease();
        self.write(value);
    }

    /// Converts every component of a vector to kind `inner_type` and writes
    /// the result, which takes as many bytes as before.
    pub fn change_inner_type(&mut self, inner_type: ScalarType) -> (reallocated: bool)
        requires
            old(self).value is Vector,
        ensures
            final(self).value is Vector,
            old(self).value->Vector_0.casts_to_vec(
                old(self).value->Vector_0.vec_type().with_scalar(inner_type),
                final(self).value->Vector_0,
            ),
            final(self)@ == old(self)@.written(final(self).value),
            final(self).wf(),
            reallocated == (old(self).value.encoded_size() != old(self)@.buffer.contents.len()),
    {
        let mut value = self.value;
        value.change_inner_type(inner_type);
        self.write(value)
    }

    /// Replaces a matrix by the zero matrix of shape `matrix_size` and writes
    /// it. Returns whether a new buffer was made.
    pub fn change_matrix_size(&mut self, matrix_size: MatrixType) -> (reallocated: bool)
        requires
            old(self).value is Matrix,
        ensures
            final(self).value is Matrix,
            final(self).value->Matrix_0.matrix_type() == matrix_size,
            final(self).value->Matrix_0.is_zero(),
            final(self)@ == old(self)@.written(final(self).value),
            final(self).wf(),
            reallocated == (matrix_size.encoded_size() != old(self)@.buffer.contents.len()),
    {
        let mut value = self.value;
        value.change_matrix_size(matrix_size);
        self.write(value)
    }

    /// Gives the binding the shape that the table lists under `new_size`, as
    /// [`Self::change_type`] does. Where the table lists none, or the value is
    /// a built-in, nothing changes and the result is `None`; otherwise it says
    /// whether a new buffer was made.
    pub fn change_binding_size(&mut self, new_size: u64) -> (reallocated: Option<bool>)
        ensures
            spec_size_type(new_size) is None || old(self).value is BuiltIn ==> {
                &&& reallocated is None
                &&& *final(self) == *old(self)
            },
            spec_size_type(new_size) matches Some(t) ==> old(self).value is BuiltIn || {
                &&& old(self).value.casts_to(t, final(self).value)
                &&& final(self).value.uniform_type() == Some(t)
                &&& final(self)@ == old(self)@.written(final(self).value)
                &&& final(self).wf()
                &&& reallocated == Some(t.encoded_size() != old(self)@.buffer.contents.len())
            },
    {
        match size_type(new_size) {
            None => None,
            Some(t) => {
                match self.value {
                    UniformValue::BuiltIn(_) => None,
                    _ => Some(self.change_type(t)),
                }
            },
        }
    }

    /// Renames the binding.
    pub fn set_name(&mut self, name: String)
        ensures
            final(self)@ == (BindingView { name: name@, ..old(self)@ }),
    {
        self.name = name;
    }

    /// Whether the value is the time built-in.
    pub fn is_time(&self) -> (r: bool)
        ensures
            r == (self.value == UniformValue::BuiltIn(BuiltinValue::Time)),
    {
        match self.value {
            UniformValue::BuiltIn(BuiltinValue::Time) => true,
            _ => false,
        }
    }
}

} // verus!
