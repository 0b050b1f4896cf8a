//! An ordered list of bindings that a shader addresses as one group, and the
//! device's record of which buffer sits under which index.

use crate::binding::{
    default_uniform, spec_default_uniform, spec_size_type, BindGroupEntry, BindGroupLayoutEntry,
    BindingView, UniformBinding,
};
use crate::uniform_types::matrix::MatrixType;
use crate::uniform_types::scalar::ScalarType;
use crate::uniform_types::{UniformType, UniformValue};
use vstd::prelude::*;

verus! {

/// The most bindings that a group can hold: their indices are 32-bit.
pub const MAX_BINDINGS: u64 = 0x1_0000_0000;

/// The device's record of a group: one slot for each binding, in order.
pub struct BindGroup {
    pub entries: Vec<BindGroupEntry>,
}

/// Bindings that share one group.
pub struct UniformGroup {
    pub bindings: Vec<UniformBinding>,
    pub bind_group: BindGroup,
}

/// What a group is: its bindings in order, and the slots that the device has
/// on record for it.
pub struct GroupView {
    pub bindings: Seq<BindingView>,
    pub bind_group: Seq<BindGroupEntry>,
}

/// The slots that describe `bindings`: the binding at each index, under that
/// index, with the buffer it has now.
pub open spec fn fresh_entries(bindings: Seq<BindingView>) -> Seq<BindGroupEntry> {
    Seq::new(bindings.len(), |i: int| bindings[i].entry(i as u32))
}

impl GroupView {
    /// Every buffer has the size of its value, the indices fit in 32 bits, and
    /// the device's record describes the bindings as they are now.
    pub open spec fn wf(self) -> bool {
        &&& self.bindings.len() <= MAX_BINDINGS
        &&& forall|i: int| 0 <= i < self.bindings.len() ==> (#[trigger] self.bindings[i]).wf()
        &&& self.bind_group == fresh_entries(self.bindings)
    }

    /// A group without bindings.
    pub open spec fn empty() -> GroupView {
        GroupView { bindings: Seq::empty(), bind_group: Seq::empty() }
    }

    /// The group with its record brought up to date.
    pub open spec fn refreshed(self) -> GroupView {
        GroupView { bind_group: fresh_entries(self.bindings), ..self }
    }

    /// The group with `binding` in place of the binding at `index`, and its
    /// record brought up to date.
    pub open spec fn with_binding(self, index: int, binding: BindingView) -> GroupView {
        GroupView { bindings: self.bindings.update(index, binding), ..self }.refreshed()
    }

    /// The group with a new binding for `value` after the others, and its
    /// record brought up to date.
    pub open spec fn added(self, value: UniformValue) -> GroupView {
        GroupView { bindings: self.bindings.push(BindingView::new(value)), ..self }.refreshed()
    }

    /// The group with enough new default bindings after the others that
    /// `binding` is an index of it, and its record brought up to date.
    pub open spec fn defined(self, binding: u32) -> GroupView {
        let missing = if binding >= self.bindings.len() {
            (binding + 1 - self.bindings.len()) as nat
        } else {
            0
        };
        GroupView {
            bindings: self.bindings + Seq::new(
                missing,
                |i: int| BindingView::new(spec_default_uniform()),
            ),
            ..self
        }.refreshed()
    }
}

impl View for UniformGroup {
    type V = GroupView;

    open spec fn view(&self) -> GroupView {
        GroupView {
            bindings: Seq::new(self.bindings@.len(), |i: int| self.bindings@[i]@),
            bind_group: self.bind_group.entries@,
        }
    }
}

/// Defining an index twice is the same as defining it once.
pub proof fn lemma_define_binding_idempotent(group: GroupView, binding: u32)
    ensures
        group.defined(binding).defined(binding) == group.defined(binding),
        group.defined(binding).bindings.len() == if binding >= group.bindings.len() {
            binding + 1
        } else {
            group.bindings.len() as int
        },
        forall|i: int|
            0 <= i < group.bindings.len() ==> group.defined(binding).bindings[i]
                == group.bindings[i],
{
    let once = group.defined(binding);
    let twice = once.defined(binding);
    assert(twice.bindings =~= once.bindings);
}

/// A group that is up to date stays as it is when an index that it has is
/// defined.
pub proof fn lemma_define_existing(group: GroupView, binding: u32)
    requires
        group.wf(),
        binding < group.bindings.len(),
    ensures
        group.defined(binding) == group,
{
    assert(group.defined(binding).bindings =~= group.bindings);
}

impl UniformGroup {
    /// Every buffer has the size of its value, the indices fit in 32 bits, and
    /// the device's record describes the bindings as they are now.
    pub open spec fn wf(&self) -> bool {
        self@.wf()
    }

    /// A group without bindings.
    pub fn new() -> (r: UniformGroup)
        ensures
            r@ == GroupView::empty(),
            r.wf(),
    {
        let r = UniformGroup { bindings: Vec::new(), bind_group: BindGroup { entries: Vec::new() } };
        assert(r@.bindings =~= Seq::empty());
        assert(r@.bind_group =~= fresh_entries(r@.bindings));
        r
    }

    /// The layout of the group: one slot for each binding, under its index.
    pub fn bg_layout(&self) -> (layout: Vec<BindGroupLayoutEntry>)
        requires
            self@.bindings.len() <= MAX_BINDINGS,
        ensures
            layout@.len() == self@.bindings.len(),
            forall|i: int| 0 <= i < layout@.len() ==> (#[trigger] layout@[i]).binding == i,
    {
        let mut entries: Vec<BindGroupLayoutEntry> = Vec::new();
        let mut index: usize = 0;
        while index < self.bindings.len()
            invariant
                index <= self.bindings@.len(),
                self.bindings@.len() <= MAX_BINDINGS,
                entries@.len() == index,
                forall|i: int| 0 <= i < index ==> (#[trigger] entries@[i]).binding == i,
            decreases self.bindings@.len() - index,
        {
            entries.push(self.bindings[index].bgl_entry(index as u32));
            index = index + 1;
        }
        entries
    }

    /// Brings the device's record up to date with the bindings.
    pub fn refresh_bind_group(&mut self)
        requires
            old(self)@.bindings.len() <= MAX_BINDINGS,
        ensures
            final(self)@ == old(self)@.refreshed(),
            final(self).bindings == old(self).bindings,
    {
        let mut entries: Vec<BindGroupEntry> = Vec::new();
        let mut index: usize = 0;
        while index < self.bindings.len()
            invariant
                index <= self.bindings@.len(),
                self.bindings@.len() <= MAX_BINDINGS,
                entries@.len() == index,
                forall|i: int|
                    0 <= i < index ==> #[trigger] entries@[i] == self.bindings@[i]@.entry(i as u32),
            decreases self.bindings@.len() - index,
        {
            entries.push(self.bindings[index].bg_entry(index as u32));
            index = index + 1;
        }
        self.bind_group = BindGroup { entries };
        assert(self@.bind_group =~= fresh_entries(self@.bindings));
    }

    /// Appends a binding for the default value.
    pub fn add_f32(&mut self)
        requires
            old(self).wf(),
            old(self)@.bindings.len() < MAX_BINDINGS,
        ensures
            final(self)@ == old(self)@.added(spec_default_uniform()),
            final(self).wf(),
    {
        self.add_custom(default_uniform());
    }

    /// Appends a binding for `uniform`.
    pub fn add_custom(&mut self, uniform: UniformValue)
        requires
            old(self).wf(),
            old(self)@.bindings.len() < MAX_BINDINGS,
        ensures
            final(self)@ == old(self)@.added(uniform),
            final(self).wf(),
    {
        self.bindings.push(UniformBinding::new(uniform));
        assert(self@.bindings =~= old(self)@.bindings.push(BindingView::new(uniform)));
        self.refresh_bind_group();
    }

    /// Puts the bytes of the value at `b_index` on the device again.
    pub fn update_buffer(&mut self, b_index: usize)
        requires
            old(self).wf(),
            b_index < old(self)@.bindings.len(),
        ensures
            final(self)@ == old(self)@.with_binding(
                b_index as int,
                old(self)@.bindings[b_index as int].written(
                    old(self)@.bindings[b_index as int].value,
                ),
            ),
            final(self).wf(),
    {
        self.bindings[b_index].update_buffer();
        assert(self@.bindings =~= old(self)@.bindings.update(
            b_index as int,
            old(self)@.bindings[b_index as int].written(old(self)@.bindings[b_index as int].value),
        ));
        self.refresh_bind_group();
    }

    /// Appends default bindings until `binding` is an index of the group,
    /// then brings the device's record up to date.
    pub fn define_binding(&mut self, binding: u32)
        requires
            old(self).wf(),
        ensures
            final(self)@ == old(self)@.defined(binding),
            final(self).wf(),
            binding < final(self)@.bindings.len(),
    {
        while self.bindings.len() <= binding as usize
            invariant
                self.wf(),
                old(self)@.bindings.len() <= self@.bindings.len(),
                self@.bindings.len() <= old(self)@.bindings.len() || self@.bindings.len()
                    <= binding + 1,
                self@.bindings =~= old(self)@.bindings + Seq::new(
                    (self@.bindings.len() - old(self)@.bindings.len()) as nat,
                    |i: int| BindingView::new(spec_default_uniform()),
                ),
            decreases binding + 1 - self@.bindings.len(),
        {
            let ghost before = self@;
            self.add_f32();
            assert(self@.bindings =~= before.bindings.push(
                BindingView::new(spec_default_uniform()),
            ));
        }
        proof {
            assert(self@.bindings =~= old(self)@.defined(binding).bindings);
            assert(self@.bind_group =~= fresh_entries(self@.bindings));
        }
    }

    /// Converts the value at `b_index` to shape `unitype`, writes it, and
    /// brings the device's record up to date.
    pub fn change_type(&mut self, unitype: UniformType, b_index: usize)
        requires
            old(self).wf(),
            b_index < old(self)@.bindings.len(),
            old(self)@.bindings[b_index as int].value !is BuiltIn,
        ensures
            b_index < final(self)@.bindings.len(),
            old(self)@.bindings[b_index as int].value.casts_to(
                unitype,
                final(self)@.bindings[b_index as int].value,
            ),
            final(self)@.bindings[b_index as int].value.uniform_type() == Some(unitype),
            final(self)@ == old(self)@.with_binding(
                b_index as int,
                old(self)@.bindings[b_index as int].written(
                    final(self)@.bindings[b_index as int].value,
                ),
            ),
            final(self).wf(),
    {
        self.bindings[b_index].change_type(unitype);
        assert(self@.bindings =~= old(self)@.bindings.update(
            b_index as int,
            self@.bindings[b_index as int],
        ));
        self.refresh_bind_group();
    }

    /// Adds one to the scalar at `b_index` and writes it. The buffer stays
    /// the same buffer, so the device's record stays as it is.
    pub fn increase(&mut self, b_index: usize)
        requires
            old(self).wf(),
            b_index < old(self)@.bindings.len(),
            old(self)@.bindings[b_index as int].value is Scalar,
            old(self)@.bindings[b_index as int].value->Scalar_0.can_increase(),
        ensures
            b_index < final(self)@.bindings.len(),
            final(self)@.bindings[b_index as int].value is Scalar,
            old(self)@.bindings[b_index as int].value->Scalar_0.steps_to(
                false,
                final(self)@.bindings[b_index as int].value->Scalar_0,
            ),
            final(self)@ == old(self)@.with_binding(
                b_index as int,
                old(self)@.bindings[b_index as int].written(
                    final(self)@.bindings[b_index as int].value,
                ),
            ),
            final(self)@.bind_group == old(self)@.bind_group,
            final(self).wf(),
    {
        self.bindings[b_index].increase();
        assert(self@.bindings =~= old(self)@.bindings.update(
            b_index as int,
            self@.bindings[b_index as int],
        ));
        assert(self@.bind_group =~= fresh_entries(self@.bindings));
    }

    /// Takes one away from the scalar at `b_index` and writes it. The buffer stays
    /// the same buffer, so the device's record stays as it is.
    pub fn decrease(&mut self, b_index: usize)
        requires
            old(self).wf(),
            b_index < old(self)@.bindings.len(),
            old(self)@.bindings[b_index as int].value is Scalar,
            old(self)@.bindings[b_index as int].value->Scalar_0.can_decrease(),
        ensures
            b_index < final(self)@.bindings.len(),
            final(self)@.bindings[b_index as int].value is Scalar,
            old(self)@.bindings[b_index as int].value->Scalar_0.steps_to(
                true,
                final(self)@.bindings[b_index as int].value->Scalar_0,
            ),
            final(self)@ == old(self)@.with_binding(
                b_index as int,
                old(self)@.bindings[b_index as int].written(
                    final(self)@.bindings[b_index as int].value,
                ),
            ),
            final(self)@.bind_group == old(self)@.bind_group,
            final(self).wf(),
    {
        self.bindings[b_index].decrease();
        assert(self@.bindings =~= old(self)@.bindings.update(
            b_index as int,
            self@.bindings[b_index as int],
        ));
        assert(self@.bind_group =~= fresh_entries(self@.bindings));
    }

    /// Converts every component of the vector at `b_index` to kind
    /// `inner_type`, writes it, and brings the device's record up to date.
    pub fn change_inner_type(&mut self, inner_type: ScalarType, b_index: usize)
        requires
            old(self).wf(),
            b_index < old(self)@.bindings.len(),
            old(self)@.bindings[b_index as int].value is Vector,
        ensures
            b_index < final(self)@.bindings.len(),
            final(self)@.bindings[b_index as int].value is Vector,
            old(self)@.bindings[b_index as int].value->Vector_0.casts_to_vec(
                old(self)@.bindings[b_index as int].value->Vector_0.vec_type().with_scalar(
                    inner_type,
                ),
                final(self)@.bindings[b_index as int].value->Vector_0,
            ),
            final(self)@ == old(self)@.with_binding(
                b_index as int,
                old(self)@.bindings[b_index as int].written(
                    final(self)@.bindings[b_index as int].value,
                ),
            ),
            final(self).wf(),
    {
        self.bindings[b_index].change_inner_type(inner_type);
        assert(self@.bindings =~= old(self)@.bindings.update(
            b_index as int,
            self@.bindings[b_index as int],
        ));
        self.refresh_bind_group();
    }

    /// Gives the binding at `b_index` the shape that the table lists under
    /// `new_size`, and brings the device's record up to date. Where the table
    /// lists none, or the value is a built-in, nothing changes and the result
    /// is `false`.
    pub fn change_binding_size(&mut self, b_index: usize, new_size: u64) -> (changed: bool)
        requires
            old(self).wf(),
            b_index < old(self)@.bindings.len(),
        ensures
            changed == (spec_size_type(new_size) is Some && old(
                self,
            )@.bindings[b_index as int].value !is BuiltIn),
            !changed ==> final(self)@ == old(self)@,
            changed ==> {
                &&& b_index < final(self)@.bindings.len()
                &&& old(self)@.bindings[b_index as int].value.casts_to(
                    spec_size_type(new_size)->Some_0,
                    final(self)@.bindings[b_index as int].value,
                )
                &&& final(self)@.bindings[b_index as int].value.uniform_type() == spec_size_type(
                    new_size,
                )
                &&& final(self)@ == old(self)@.with_binding(
                    b_index as int,
                    old(self)@.bindings[b_index as int].written(
                        final(self)@.bindings[b_index as int].value,
                    ),
                )
            },
            final(self).wf(),
    {
        let outcome = self.bindings[b_index].change_binding_size(new_size);
        assert(self@.bindings =~= old(self)@.bindings.update(
            b_index as int,
            self@.bindings[b_index as int],
        ));
        match outcome {
            None => {
                assert(self@.bindings =~= old(self)@.bindings);
                false
            },
            Some(_) => {
                self.refresh_bind_group();
                true
            },
        }
    }

    /// Replaces the matrix at `b_index` by the zero matrix of shape
    /// `matrix_size`, writes it, and brings the device's record up to date.
    pub fn change_matrix_size(&mut self, matrix_size: MatrixType, b_index: usize)
        requires
            old(self).wf(),
            b_index < old(self)@.bindings.len(),
            old(self)@.bindings[b_index as int].value is Matrix,
        ensures
            b_index < final(self)@.bindings.len(),
            final(self)@.bindings[b_index as int].value is Matrix,
            final(self)@.bindings[b_index as int].value->Matrix_0.matrix_type() == matrix_size,
            final(self)@.bindings[b_index as int].value->Matrix_0.is_zero(),
            final(self)@ == old(self)@.with_binding(
                b_index as int,
                old(self)@.bindings[b_index as int].written(
                    final(self)@.bindings[b_index as int].value,
                ),
            ),
            final(self).wf(),
    {
        self.bindings[b_index].change_matrix_size(matrix_size);
        assert(self@.bindings =~= old(self)@.bindings.update(
            b_index as int,
            self@.bindings[b_index as int],
        ));
        self.refresh_bind_group();
    }

    /// Renames the binding at `b_index`.
    pub fn set_name(&mut self, b_index: usize, name: String)
        requires
            old(self).wf(),
            b_index < old(self)@.bindings.len(),
        ensures
            final(self)@ == old(self)@.with_binding(
                b_index as int,
                BindingView { name: name@, ..old(self)@.bindings[b_index as int] },
            ),
            final(self).wf(),
    {
        self.bindings[b_index].set_name(name);
        assert(self@.bindings =~= old(self)@.bindings.update(
            b_index as int,
            BindingView { name: name@, ..old(self)@.bindings[b_index as int] },
        ));
        assert(self@.bind_group =~= fresh_entries(self@.bindings));
    }
}

} // verus!
