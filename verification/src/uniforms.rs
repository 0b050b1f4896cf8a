//! The full set of binding groups that a shader sees, with the places of the
//! two built-in values.

use crate::binding::{spec_default_uniform, spec_size_type, BindingView, BufferView};
use crate::bytes::{le_bytes, word_to_le_bytes};
use crate::float::Float;
use crate::group::{GroupView, UniformGroup, MAX_BINDINGS};
use crate::uniform_types::matrix::MatrixType;
use crate::uniform_types::scalar::ScalarType;
use crate::uniform_types::{BuiltinValue, CameraMatrices, Point3, UniformType, UniformValue};
use vstd::prelude::*;

verus! {

/// Binding groups in order, and where the time and the camera sit among them,
/// each as a group index and a binding index.
pub struct Uniforms {
    pub groups: Vec<UniformGroup>,
    pub time_uniform_location: (usize, usize),
    pub camera_uniform_location: (usize, usize),
}

/// What a set of groups is.
pub struct UniformsView {
    pub groups: Seq<GroupView>,
    pub time_uniform_location: (usize, usize),
    pub camera_uniform_location: (usize, usize),
}

/// The camera that a new set starts with: at (-1.5, 1.2, 0.5), yaw and pitch
/// -45 degrees in radians, not enabled, its matrices not yet computed.
pub open spec fn spec_default_camera() -> UniformValue {
    UniformValue::BuiltIn(
        BuiltinValue::Camera {
            position: Point3 {
                x: Float { bits: 0xbfc0_0000 },
                y: Float { bits: 0x3f99_999a },
                z: Float { bits: 0x3f00_0000 },
            },
            yaw: Float { bits: 0xbf49_0fdb },
            pitch: Float { bits: 0xbf49_0fdb },
            enabled: false,
            resolved: CameraMatrices::spec_identity(),
        },
    )
}

impl UniformsView {
    /// Every group is well formed.
    pub open spec fn wf(self) -> bool {
        forall|g: int| 0 <= g < self.groups.len() ==> (#[trigger] self.groups[g]).wf()
    }

    /// `g_index` and `b_index` name a binding of the set.
    pub open spec fn has(self, g_index: int, b_index: int) -> bool {
        0 <= g_index < self.groups.len() && 0 <= b_index < self.groups[g_index].bindings.len()
    }

    /// The binding at a place.
    pub open spec fn binding(self, g_index: int, b_index: int) -> BindingView
        recommends
            self.has(g_index, b_index),
    {
        self.groups[g_index].bindings[b_index]
    }

    /// The place recorded for the time names a binding that holds it.
    pub open spec fn has_time(self) -> bool {
        &&& self.has(self.time_uniform_location.0 as int, self.time_uniform_location.1 as int)
        &&& self.binding(
            self.time_uniform_location.0 as int,
            self.time_uniform_location.1 as int,
        ).value == UniformValue::BuiltIn(BuiltinValue::Time)
    }

    /// The place recorded for the camera names a binding that holds one.
    pub open spec fn has_camera(self) -> bool {
        &&& self.has(self.camera_uniform_location.0 as int, self.camera_uniform_location.1 as int)
        &&& self.binding(
            self.camera_uniform_location.0 as int,
            self.camera_uniform_location.1 as int,
        ).value matches UniformValue::BuiltIn(BuiltinValue::Camera { .. })
    }

    /// The set with `group` in place of the group at `g_index`.
    pub open spec fn with_group(self, g_index: int, group: GroupView) -> UniformsView {
        UniformsView { groups: self.groups.update(g_index, group), ..self }
    }

    /// The set with `binding` at a place, and the record of its group brought
    /// up to date.
    pub open spec fn with_binding(self, g_index: int, b_index: int, binding: BindingView)
        -> UniformsView {
        self.with_group(g_index, self.groups[g_index].with_binding(b_index, binding))
    }

    /// The set with `elapsed_time` written into the buffer of the time
    /// binding, least significant byte first. The buffer stays the same
    /// buffer.
    pub open spec fn with_time(self, elapsed_time: u32) -> UniformsView
        recommends
            self.has_time(),
    {
        let g_index = self.time_uniform_location.0 as int;
        let b_index = self.time_uniform_location.1 as int;
        self.with_binding(
            g_index,
            b_index,
            BindingView {
                buffer: BufferView {
                    contents: le_bytes(elapsed_time),
                    generation: self.binding(g_index, b_index).buffer.generation,
                },
                ..self.binding(g_index, b_index)
            },
        )
    }

    /// The set with the flag of the camera set to `enable`, and the bytes of
    /// the camera written into its buffer.
    pub open spec fn with_camera_enabled(self, enable: bool) -> UniformsView
        recommends
            self.has_camera(),
    {
        let g_index = self.camera_uniform_location.0 as int;
        let b_index = self.camera_uniform_location.1 as int;
        self.with_binding(
            g_index,
            b_index,
            self.binding(g_index, b_index).written(
                UniformValue::BuiltIn(
                    self.binding(g_index, b_index).value->BuiltIn_0.with_enabled(enable),
                ),
            ),
        )
    }

    /// The set that a session starts with: the time alone in group 0 and the
    /// default camera alone in group 1.
    pub open spec fn new() -> UniformsView {
        UniformsView {
            groups: seq![
                GroupView::empty().added(UniformValue::BuiltIn(BuiltinValue::Time)),
                GroupView::empty().added(spec_default_camera()),
            ],
            time_uniform_location: (0, 0),
            camera_uniform_location: (1, 0),
        }
    }

    /// The set with enough empty groups after the others that `group` is an
    /// index of it, and with `binding` defined in that group.
    pub open spec fn defined(self, group: u32, binding: u32) -> UniformsView {
        let missing = if group >= self.groups.len() {
            (group + 1 - self.groups.len()) as nat
        } else {
            0
        };
        let groups = self.groups + Seq::new(missing, |i: int| GroupView::empty());
        UniformsView { groups: groups.update(group as int, groups[group as int].defined(binding)), ..self }
    }
}

impl View for Uniforms {
    type V = UniformsView;

    open spec fn view(&self) -> UniformsView {
        UniformsView {
            groups: Seq::new(self.groups@.len(), |i: int| self.groups@[i]@),
            time_uniform_location: self.time_uniform_location,
            camera_uniform_location: self.camera_uniform_location,
        }
    }
}

/// Defining a binding twice is the same as defining it once: the set has the
/// same groups of the same lengths, and every binding that was there before is
/// as it was.
pub proof fn lemma_define_binding_idempotent(set: UniformsView, group: u32, binding: u32)
    ensures
        set.defined(group, binding).defined(group, binding) == set.defined(group, binding),
        forall|g: int, b: int|
            set.has(g, b) ==> set.defined(group, binding).has(g, b) && set.defined(
                group,
                binding,
            ).binding(g, b) == set.binding(g, b),
        set.defined(group, binding).has(group as int, binding as int),
{
    let once = set.defined(group, binding);
    let twice = once.defined(group, binding);
    let padded = set.groups + Seq::new(
        if group >= set.groups.len() {
            (group + 1 - set.groups.len()) as nat
        } else {
            0
        },
        |i: int| GroupView::empty(),
    );
    crate::group::lemma_define_binding_idempotent(padded[group as int], binding);
    assert(once.groups + Seq::new(0, |i: int| GroupView::empty()) =~= once.groups);
    assert(twice.groups =~= once.groups);
}

impl Uniforms {
    /// Every group is well formed.
    pub open spec fn wf(&self) -> bool {
        self@.wf()
    }

    /// The camera that a new set starts with.
    pub fn default_camera() -> (v: UniformValue)
        ensures
            v == spec_default_camera(),
    {
        UniformValue::BuiltIn(
            BuiltinValue::Camera {
                position: Point3 {
                    x: Float { bits: 0xbfc0_0000 },
                    y: Float { bits: 0x3f99_999a },
                    z: Float { bits: 0x3f00_0000 },
                },
                yaw: Float { bits: 0xbf49_0fdb },
                pitch: Float { bits: 0xbf49_0fdb },
                enabled: false,
                resolved: CameraMatrices::identity(),
            },
        )
    }

    /// The set that a session starts with.
    pub fn new() -> (r: Uniforms)
        ensures
            r@ == UniformsView::new(),
            r.wf(),
            r@.has_time(),
            r@.has_camera(),
    {
        let mut group0 = UniformGroup::new();
        group0.add_custom(UniformValue::BuiltIn(BuiltinValue::Time));
        let mut group1 = UniformGroup::new();
        group1.add_custom(Self::default_camera());
        let mut groups: Vec<UniformGroup> = Vec::new();
        groups.push(group0);
        groups.push(group1);
        let r = Uniforms { groups, time_uniform_location: (0, 0), camera_uniform_location: (1, 0) };
        assert(r@.groups =~= UniformsView::new().groups);
        r
    }

    /// A set without groups.
    pub fn empty() -> (r: Uniforms)
        ensures
            r@.groups == Seq::<GroupView>::empty(),
            r@.time_uniform_location == (0usize, 0usize),
            r@.camera_uniform_location == (1usize, 0usize),
            r.wf(),
    {
        let r = Uniforms {
            groups: Vec::new(),
            time_uniform_location: (0, 0),
            camera_uniform_location: (1, 0),
        };
        assert(r@.groups =~= Seq::<GroupView>::empty());
        r
    }

    /// Appends a binding for the default value to the group at `g_index`.
    pub fn add_f32(&mut self, g_index: usize)
        requires
            old(self).wf(),
            g_index < old(self)@.groups.len(),
            old(self)@.groups[g_index as int].bindings.len() < MAX_BINDINGS,
        ensures
            final(self)@ == old(self)@.with_group(
                g_index as int,
                old(self)@.groups[g_index as int].added(spec_default_uniform()),
            ),
            final(self).wf(),
    {
        self.groups[g_index].add_f32();
        assert(self@.groups =~= old(self)@.groups.update(
            g_index as int,
            old(self)@.groups[g_index as int].added(spec_default_uniform()),
        ));
    }

    /// Puts the bytes of the value at a place on the device again.
    pub fn update_buffer(&mut self, g_index: usize, b_index: usize)
        requires
            old(self).wf(),
            old(self)@.has(g_index as int, b_index as int),
        ensures
            final(self)@ == old(self)@.with_binding(
                g_index as int,
                b_index as int,
                old(self)@.binding(g_index as int, b_index as int).written(
                    old(self)@.binding(g_index as int, b_index as int).value,
                ),
            ),
            final(self).wf(),
    {
        self.groups[g_index].update_buffer(b_index);
        assert(self@.groups =~= old(self)@.groups.update(g_index as int, self@.groups[g_index as int]));
    }

    /// Appends an empty group.
    pub fn add_bind_group(&mut self)
        requires
            old(self).wf(),
        ensures
            final(self)@ == (UniformsView {
                groups: old(self)@.groups.push(GroupView::empty()),
                ..old(self)@
            }),
            final(self).wf(),
    {
        self.groups.push(UniformGroup::new());
        assert(self@.groups =~= old(self)@.groups.push(GroupView::empty()));
    }

    /// Writes the elapsed milliseconds into the buffer of the time binding.
    /// The buffer stays the same buffer, and the record of its group is not
    /// touched.
    pub fn update_time(&mut self, elapsed_time: u32)
        requires
            old(self).wf(),
            old(self)@.has_time(),
        ensures
            final(self)@ == old(self)@.with_time(elapsed_time),
            final(self).wf(),
            final(self)@.has_time(),
    {
        let (g_index, b_index) = self.time_uniform_location;
        let quad = word_to_le_bytes(elapsed_time);
        let mut bytes: Vec<u8> = Vec::new();
        bytes.push(quad[0]);
        bytes.push(quad[1]);
        bytes.push(quad[2]);
        bytes.push(quad[3]);
        assert(bytes@ =~= le_bytes(elapsed_time));
        self.groups[g_index].bindings[b_index].buffer.contents = bytes;
        proof {
            let ghost changed = BindingView {
                buffer: BufferView {
                    contents: le_bytes(elapsed_time),
                    generation: old(self)@.binding(g_index as int, b_index as int).buffer.generation,
                },
                ..old(self)@.binding(g_index as int, b_index as int)
            };
            assert(self@.groups[g_index as int].bindings =~= old(
                self,
            )@.groups[g_index as int].bindings.update(b_index as int, changed));
            assert(self@.groups[g_index as int].bind_group =~= crate::group::fresh_entries(
                self@.groups[g_index as int].bindings,
            ));
            assert(self@.groups =~= old(self)@.groups.update(
                g_index as int,
                old(self)@.groups[g_index as int].with_binding(b_index as int, changed),
            ));
        }
    }

    /// Sets whether the camera is enabled and writes its bytes, which are as
    /// many as before, whatever the flag was.
    pub fn enable_camera(&mut self, enable: bool)
        requires
            old(self).wf(),
            old(self)@.has_camera(),
        ensures
            final(self)@ == old(self)@.with_camera_enabled(enable),
            final(self).wf(),
            final(self)@.has_camera(),
    {
        let (g_index, b_index) = self.camera_uniform_location;
        let value = self.groups[g_index].bindings[b_index].value;
        match value {
            UniformValue::BuiltIn(mut camera) => {
                camera.set_enabled(enable);
                self.groups[g_index].bindings[b_index].value = UniformValue::BuiltIn(camera);
            },
            _ => {},
        }
        proof {
            let ghost staged = BindingView {
                value: self@.binding(g_index as int, b_index as int).value,
                ..old(self)@.binding(g_index as int, b_index as int)
            };
            assert(self@.groups[g_index as int].bindings =~= old(
                self,
            )@.groups[g_index as int].bindings.update(b_index as int, staged));
            assert(staged.wf());
            assert(self@.groups[g_index as int].bind_group =~= crate::group::fresh_entries(
                self@.groups[g_index as int].bindings,
            ));
            assert forall|j: int| 0 <= j < self@.groups.len() implies (
            #[trigger] self@.groups[j]).wf() by {
                if j != g_index {
                    assert(self@.groups[j] == old(self)@.groups[j]);
                }
            }
        }
        self.update_buffer(g_index, b_index);
        proof {
            assert(self@.groups[g_index as int].bindings =~= old(
                self,
            )@.groups[g_index as int].bindings.update(
                b_index as int,
                self@.binding(g_index as int, b_index as int),
            ));
            assert(self@.groups =~= old(self)@.groups.update(
                g_index as int,
                self@.groups[g_index as int],
            ));
        }
    }

    /// Appends empty groups until `group` is an index of the set, then
    /// defines `binding` in that group.
    pub fn define_binding(&mut self, group: u32, binding: u32)
        requires
            old(self).wf(),
        ensures
            final(self)@ == old(self)@.defined(group, binding),
            final(self).wf(),
            final(self)@.has(group as int, binding as int),
    {
        while self.groups.len() <= group as usize
            invariant
                self.wf(),
                self.time_uniform_location == old(self).time_uniform_location,
                self.camera_uniform_location == old(self).camera_uniform_location,
                old(self)@.groups.len() <= self@.groups.len(),
                self@.groups.len() <= old(self)@.groups.len() || self@.groups.len() <= group + 1,
                self@.groups =~= old(self)@.groups + Seq::new(
                    (self@.groups.len() - old(self)@.groups.len()) as nat,
                    |i: int| GroupView::empty(),
                ),
            decreases group + 1 - self@.groups.len(),
        {
            let ghost before = self@;
            self.add_bind_group();
            assert(self@.groups =~= before.groups.push(GroupView::empty()));
        }
        let ghost padded = self@.groups;
        assert(self@.groups[group as int].wf());
        self.groups[group as usize].define_binding(binding);
        assert(self@.groups =~= padded.update(group as int, padded[group as int].defined(binding)));
    }

    /// Converts the value at a place to shape `unitype` and writes it.
    pub fn change_type(&mut self, unitype: UniformType, g_index: usize, b_index: usize)
        requires
            old(self).wf(),
            old(self)@.has(g_index as int, b_index as int),
            old(self)@.binding(g_index as int, b_index as int).value !is BuiltIn,
        ensures
            final(self)@.has(g_index as int, b_index as int),
            old(self)@.binding(g_index as int, b_index as int).value.casts_to(
                unitype,
                final(self)@.binding(g_index as int, b_index as int).value,
            ),
            final(self)@.binding(g_index as int, b_index as int).value.uniform_type() == Some(
                unitype,
            ),
            final(self)@ == old(self)@.with_binding(
                g_index as int,
                b_index as int,
                old(self)@.binding(g_index as int, b_index as int).written(
                    final(self)@.binding(g_index as int, b_index as int).value,
                ),
            ),
            final(self).wf(),
    {
        self.groups[g_index].change_type(unitype, b_index);
        assert(self@.groups =~= old(self)@.groups.update(g_index as int, self@.groups[g_index as int]));
    }

    /// Adds one to the scalar at a place and writes it.
    pub fn increase(&mut self, g_index: usize, b_index: usize)
        requires
            old(self).wf(),
            old(self)@.has(g_index as int, b_index as int),
            old(self)@.binding(g_index as int, b_index as int).value is Scalar,
            old(self)@.binding(g_index as int, b_index as int).value->Scalar_0.can_increase(),
        ensures
            final(self)@.has(g_index as int, b_index as int),
            final(self)@.binding(g_index as int, b_index as int).value is Scalar,
            old(self)@.binding(g_index as int, b_index as int).value->Scalar_0.steps_to(
                false,
                final(self)@.binding(g_index as int, b_index as int).value->Scalar_0,
            ),
            final(self)@ == old(self)@.with_binding(
                g_index as int,
                b_index as int,
                old(self)@.binding(g_index as int, b_index as int).written(
                    final(self)@.binding(g_index as int, b_index as int).value,
                ),
            ),
            final(self).wf(),
    {
        self.groups[g_index].increase(b_index);
        assert(self@.groups =~= old(self)@.groups.update(g_index as int, self@.groups[g_index as int]));
    }

    /// Takes one away from the scalar at a place and writes it.
    pub fn decrease(&mut self, g_index: usize, b_index: usize)
        requires
            old(self).wf(),
            old(self)@.has(g_index as int, b_index as int),
            old(self)@.binding(g_index as int, b_index as int).value is Scalar,
            old(self)@.binding(g_index as int, b_index as int).value->Scalar_0.can_decrease(),
        ensures
            final(self)@.has(g_index as int, b_index as int),
            final(self)@.binding(g_index as int, b_index as int).value is Scalar,
            old(self)@.binding(g_index as int, b_index as int).value->Scalar_0.steps_to(
                true,
                final(self)@.binding(g_index as int, b_index as int).value->Scalar_0,
            ),
            final(self)@ == old(self)@.with_binding(
                g_index as int,
                b_index as int,
                old(self)@.binding(g_index as int, b_index as int).written(
                    final(self)@.binding(g_index as int, b_index as int).value,
                ),
            ),
            final(self).wf(),
    {
        self.groups[g_index].decrease(b_index);
        assert(self@.groups =~= old(self)@.groups.update(g_index as int, self@.groups[g_index as int]));
    }

    /// Converts every component of the vector at a place to kind
    /// `inner_type` and writes it.
    pub fn change_inner_type(&mut self, inner_type: ScalarType, g_index: usize, b_index: usize)
        requires
            old(self).wf(),
            old(self)@.has(g_index as int, b_index as int),
            old(self)@.binding(g_index as int, b_index as int).value is Vector,
        ensures
            final(self)@.has(g_index as int, b_index as int),
            final(self)@.binding(g_index as int, b_index as int).value is Vector,
            old(self)@.binding(g_index as int, b_index as int).value->Vector_0.casts_to_vec(
                old(self)@.binding(
                    g_index as int,
                    b_index as int,
                ).value->Vector_0.vec_type().with_scalar(inner_type),
                final(self)@.binding(g_index as int, b_index as int).value->Vector_0,
            ),
            final(self)@ == old(self)@.with_binding(
                g_index as int,
                b_index as int,
                old(self)@.binding(g_index as int, b_index as int).written(
                    final(self)@.binding(g_index as int, b_index as int).value,
                ),
            ),
            final(self).wf(),
    {
        self.groups[g_index].change_inner_type(inner_type, b_index);
        assert(self@.groups =~= old(self)@.groups.update(g_index as int, self@.groups[g_index as int]));
    }

    /// Gives the binding at a place the shape that the table lists under
    /// `new_size`. Where the table lists none, or the value is a built-in,
    /// nothing changes and the result is `false`.
    pub fn change_binding_size(&mut self, g_index: usize, b_index: usize, new_size: u64) -> (changed:
        bool)
        requires
            old(self).wf(),
            old(self)@.has(g_index as int, b_index as int),
        ensures
            changed == (spec_size_type(new_size) is Some && old(self)@.binding(
                g_index as int,
                b_index as int,
            ).value !is BuiltIn),
            !changed ==> final(self)@ == old(self)@,
            changed ==> {
                &&& final(self)@.has(g_index as int, b_index as int)
                &&& old(self)@.binding(g_index as int, b_index as int).value.casts_to(
                    spec_size_type(new_size)->Some_0,
                    final(self)@.binding(g_index as int, b_index as int).value,
                )
                &&& final(self)@.binding(g_index as int, b_index as int).value.uniform_type()
                    == spec_size_type(new_size)
                &&& final(self)@ == old(self)@.with_binding(
                    g_index as int,
                    b_index as int,
                    old(self)@.binding(g_index as int, b_index as int).written(
                        final(self)@.binding(g_index as int, b_index as int).value,
                    ),
                )
            },
            final(self).wf(),
    {
        let changed = self.groups[g_index].change_binding_size(b_index, new_size);
        assert(self@.groups =~= old(self)@.groups.update(g_index as int, self@.groups[g_index as int]));
        if !changed {
            assert(self@.groups =~= old(self)@.groups);
        }
        changed
    }

    /// Replaces the matrix at a place by the zero matrix of shape
    /// `matrix_size` and writes it.
    pub fn change_matrix_size(&mut self, matrix_size: MatrixType, g_index: usize, b_index: usize)
        requires
            old(self).wf(),
            old(self)@.has(g_index as int, b_index as int),
            old(self)@.binding(g_index as int, b_index as int).value is Matrix,
        ensures
            final(self)@.has(g_index as int, b_index as int),
            final(self)@.binding(g_index as int, b_index as int).value is Matrix,
            final(self)@.binding(g_index as int, b_index as int).value->Matrix_0.matrix_type()
                == matrix_size,
            final(self)@.binding(g_index as int, b_index as int).value->Matrix_0.is_zero(),
            final(self)@ == old(self)@.with_binding(
                g_index as int,
                b_index as int,
                old(self)@.binding(g_index as int, b_index as int).written(
                    final(self)@.binding(g_index as int, b_index as int).value,
                ),
            ),
            final(self).wf(),
    {
        self.groups[g_index].change_matrix_size(matrix_size, b_index);
        assert(self@.groups =~= old(self)@.groups.update(g_index as int, self@.groups[g_index as int]));
    }
}

} // verus!
