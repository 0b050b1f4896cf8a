//! What an editor asks of a binding set, and what the set does about it.

use crate::binding::spec_default_uniform;
use crate::float::Float;
use crate::group::{GroupView, MAX_BINDINGS};
use crate::uniform_types::matrix::MatrixType;
use crate::uniform_types::scalar::ScalarType;
use crate::uniform_types::vector::VecType;
use crate::uniform_types::{UniformType, UniformValue};
use crate::uniforms::{Uniforms, UniformsView};
use vstd::prelude::*;

verus! {

/// One request of an editor. Places are a group index and a binding index.
#[derive(Debug, Clone, Copy, PartialEq, Eq, Structural)]
pub enum UniformEditEvent {
    /// The value at a place was edited: put its bytes on the device.
    UpdateBuffer(usize, usize),
    /// Append a default binding to a group.
    AddUniform(usize),
    /// Append an empty group.
    AddBindGroup,
    /// Convert the value at a place to a shape.
    ChangeType(UniformType, usize, usize),
    /// Add one to the scalar at a place.
    Increase(usize, usize),
    /// Take one from the scalar at a place.
    Decrease(usize, usize),
    /// Convert the components of the vector at a place to a kind.
    ChangeInnerType(ScalarType, usize, usize),
    /// Replace the matrix at a place by a zero matrix of a shape.
    ChangeMatrixSize(MatrixType, usize, usize),
}

/// The shape of a mesh that a shader is drawn on.
#[derive(Debug, Clone, Copy)]
pub enum MeshConfig {
    /// Two triangles that cover the screen.
    Screen2D,
    /// A plane of a size along x and z, cut into a number of squares along
    /// each.
    Plane((Float, Float), (u32, u32)),
    Sphere,
    Cube,
    Cylinder,
    Cone,
    Torus,
}

impl UniformEditEvent {
    /// The set can do what is asked: the place is there, the value at it is
    /// of the family that the request is made for, and an integer that is to
    /// be moved by one is not at the end of its range.
    pub open spec fn applies(self, set: UniformsView) -> bool {
        match self {
            UniformEditEvent::UpdateBuffer(g, b) => set.has(g as int, b as int),
            UniformEditEvent::AddUniform(g) => g < set.groups.len() && set.groups[g as int].bindings.len()
                < MAX_BINDINGS,
            UniformEditEvent::AddBindGroup => true,
            UniformEditEvent::ChangeType(_, g, b) => set.has(g as int, b as int) && set.binding(
                g as int,
                b as int,
            ).value !is BuiltIn,
            UniformEditEvent::Increase(g, b) => set.has(g as int, b as int) && (set.binding(
                g as int,
                b as int,
            ).value matches UniformValue::Scalar(s) && s.can_increase()),
            UniformEditEvent::Decrease(g, b) => set.has(g as int, b as int) && (set.binding(
                g as int,
                b as int,
            ).value matches UniformValue::Scalar(s) && s.can_decrease()),
            UniformEditEvent::ChangeInnerType(_, g, b) => set.has(g as int, b as int)
                && set.binding(g as int, b as int).value is Vector,
            UniformEditEvent::ChangeMatrixSize(_, g, b) => set.has(g as int, b as int)
                && set.binding(g as int, b as int).value is Matrix,
        }
    }

    /// `after` is `before` with another value at a place, written to the
    /// device as a write to a binding is: in place if the size is the same,
    /// to a new buffer if not.
    pub open spec fn rewrites(
        before: UniformsView,
        after: UniformsView,
        g: usize,
        b: usize,
    ) -> bool {
        &&& after.has(g as int, b as int)
        &&& after == before.with_binding(
            g as int,
            b as int,
            before.binding(g as int, b as int).written(after.binding(g as int, b as int).value),
        )
    }

    /// `after` is `before` with the request done.
    pub open spec fn done(self, before: UniformsView, after: UniformsView) -> bool {
        match self {
            UniformEditEvent::UpdateBuffer(g, b) => Self::rewrites(before, after, g, b)
                && after.binding(g as int, b as int).value == before.binding(
                g as int,
                b as int,
            ).value,
            UniformEditEvent::AddUniform(g) => after == before.with_group(
                g as int,
                before.groups[g as int].added(spec_default_uniform()),
            ),
            UniformEditEvent::AddBindGroup => after == (UniformsView {
                groups: before.groups.push(GroupView::empty()),
                ..before
            }),
            UniformEditEvent::ChangeType(t, g, b) => Self::rewrites(before, after, g, b)
                && before.binding(g as int, b as int).value.casts_to(
                t,
                after.binding(g as int, b as int).value,
            ),
            UniformEditEvent::Increase(g, b) => Self::rewrites(before, after, g, b)
                && after.binding(g as int, b as int).value is Scalar && before.binding(
                g as int,
                b as int,
            ).value->Scalar_0.steps_to(false, after.binding(g as int, b as int).value->Scalar_0),
            UniformEditEvent::Decrease(g, b) => Self::rewrites(before, after, g, b)
                && after.binding(g as int, b as int).value is Scalar && before.binding(
                g as int,
                b as int,
            ).value->Scalar_0.steps_to(true, after.binding(g as int, b as int).value->Scalar_0),
            UniformEditEvent::ChangeInnerType(s, g, b) => Self::rewrites(before, after, g, b)
                && after.binding(g as int, b as int).value is Vector && before.binding(
                g as int,
                b as int,
            ).value->Vector_0.casts_to_vec(
                before.binding(g as int, b as int).value->Vector_0.vec_type().with_scalar(s),
                after.binding(g as int, b as int).value->Vector_0,
            ),
            UniformEditEvent::ChangeMatrixSize(m, g, b) => Self::rewrites(before, after, g, b) && (
            after.binding(g as int, b as int).value matches UniformValue::Matrix(x)
                && x.matrix_type() == m && x.is_zero()),
        }
    }
}

impl Uniforms {
    /// Whether the set has a binding at a place.
    pub fn has(&self, g_index: usize, b_index: usize) -> (r: bool)
        ensures
            r == self@.has(g_index as int, b_index as int),
    {
        g_index < self.groups.len() && b_index < self.groups[g_index].bindings.len()
    }

    /// Does what an editor asks, if the set can: see
    /// [`UniformEditEvent::applies`]. Returns whether it did; if not, the set
    /// is as it was.
    pub fn handle_edit(&mut self, event: UniformEditEvent) -> (applied: bool)
        requires
            old(self).wf(),
        ensures
            final(self).wf(),
            applied == event.applies(old(self)@),
            applied ==> event.done(old(self)@, final(self)@),
            !applied ==> final(self)@ == old(self)@,
    {
        match event {
            UniformEditEvent::UpdateBuffer(g, b) => {
                if !self.has(g, b) {
                    return false;
                }
                self.update_buffer(g, b);
                true
            },
            UniformEditEvent::AddUniform(g) => {
                if g >= self.groups.len() {
                    return false;
                }
                if self.groups[g].bindings.len() as u64 >= MAX_BINDINGS {
                    return false;
                }
                self.add_f32(g);
                true
            },
            UniformEditEvent::AddBindGroup => {
                self.add_bind_group();
                true
            },
            UniformEditEvent::ChangeType(t, g, b) => {
                if !self.has(g, b) {
                    return false;
                }
                match self.groups[g].bindings[b].value {
                    UniformValue::BuiltIn(_) => false,
                    _ => {
                        self.change_type(t, g, b);
                        true
                    },
                }
            },
            UniformEditEvent::Increase(g, b) => {
                if !self.has(g, b) {
                    return false;
                }
                match self.groups[g].bindings[b].value {
                    UniformValue::Scalar(s) => {
                        if !s.increasable() {
                            return false;
                        }
                        self.increase(g, b);
                        true
                    },
                    _ => false,
                }
            },
            UniformEditEvent::Decrease(g, b) => {
                if !self.has(g, b) {
                    return false;
                }
                match self.groups[g].bindings[b].value {
                    UniformValue::Scalar(s) => {
                        if !s.decreasable() {
                            return false;
                        }
                        self.decrease(g, b);
                        true
                    },
                    _ => false,
                }
            },
            UniformEditEvent::ChangeInnerType(s, g, b) => {
                if !self.has(g, b) {
                    return false;
                }
                match self.groups[g].bindings[b].value {
                    UniformValue::Vector(_) => {
                        self.change_inner_type(s, g, b);
                        true
                    },
                    _ => false,
                }
            },
            UniformEditEvent::ChangeMatrixSize(m, g, b) => {
                if !self.has(g, b) {
                    return false;
                }
                match self.groups[g].bindings[b].value {
                    UniformValue::Matrix(_) => {
                        self.change_matrix_size(m, g, b);
                        true
                    },
                    _ => false,
                }
            },
        }
    }

    /// Enables the camera for every mesh but the one that covers the screen.
    pub fn auto_enable_camera(&mut self, mesh_config: &MeshConfig)
        requires
            old(self).wf(),
            old(self)@.has_camera(),
        ensures
            final(self)@ == old(self)@.with_camera_enabled(!(*mesh_config is Screen2D)),
            final(self).wf(),
            final(self)@.has_camera(),
    {
        match mesh_config {
            MeshConfig::Screen2D => self.enable_camera(false),
            _ => self.enable_camera(true),
        }
    }
}

/// The name of a kind of number, as an editor shows it.
pub open spec fn scalar_label(s: ScalarType) -> Seq<char> {
    match s {
        ScalarType::U32 => "u32"@,
        ScalarType::I32 => "i32"@,
        ScalarType::F32 => "f32"@,
    }
}

/// The name of a shape, as an editor shows it: the kind of a scalar, the
/// number of components of a vector, and the family of anything else.
pub open spec fn type_label(t: UniformType) -> Seq<char> {
    match t {
        UniformType::Scalar(s) => scalar_label(s),
        UniformType::Vec(VecType::Vec2(_)) => "vec2"@,
        UniformType::Vec(VecType::Vec3(_)) => "vec3"@,
        UniformType::Vec(VecType::Vec4(_)) => "vec4"@,
        UniformType::Matrix(_) => "matrix"@,
        UniformType::Transform => "transform"@,
    }
}

/// The name of a shape of matrix, as an editor shows it: columns by rows.
pub open spec fn matrix_label(m: MatrixType) -> Seq<char> {
    match m {
        MatrixType::M2x2 => "2x2"@,
        MatrixType::M2x3 => "2x3"@,
        MatrixType::M2x4 => "2x4"@,
        MatrixType::M3x2 => "3x2"@,
        MatrixType::M3x3 => "3x3"@,
        MatrixType::M3x4 => "3x4"@,
        MatrixType::M4x2 => "4x2"@,
        MatrixType::M4x3 => "4x3"@,
        MatrixType::M4x4 => "4x4"@,
    }
}

impl ScalarType {
    /// The name of the kind, as an editor shows it.
    pub fn label(&self) -> (r: &'static str)
        ensures
            r@ == scalar_label(*self),
    {
        match self {
            ScalarType::U32 => "u32",
            ScalarType::I32 => "i32",
            ScalarType::F32 => "f32",
        }
    }
}

impl UniformType {
    /// The name of the shape, as an editor shows it.
    pub fn label(&self) -> (r: &'static str)
        ensures
            r@ == type_label(*self),
    {
        match self {
            UniformType::Scalar(s) => s.label(),
            UniformType::Vec(VecType::Vec2(_)) => "vec2",
            UniformType::Vec(VecType::Vec3(_)) => "vec3",
            UniformType::Vec(VecType::Vec4(_)) => "vec4",
            UniformType::Matrix(_) => "matrix",
            UniformType::Transform => "transform",
        }
    }
}

impl MatrixType {
    /// The name of the shape, as an editor shows it.
    pub fn label(&self) -> (r: &'static str)
        ensures
            r@ == matrix_label(*self),
    {
        match self {
            MatrixType::M2x2 => "2x2",
            MatrixType::M2x3 => "2x3",
            MatrixType::M2x4 => "2x4",
            MatrixType::M3x2 => "3x2",
            MatrixType::M3x3 => "3x3",
            MatrixType::M3x4 => "3x4",
            MatrixType::M4x2 => "4x2",
            MatrixType::M4x3 => "4x3",
            MatrixType::M4x4 => "4x4",
        }
    }
}

} // verus!
