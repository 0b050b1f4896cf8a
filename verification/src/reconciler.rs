//! The repair loop between what a shader declares and what the binding set
//! provides: one decision for each answer of a pipeline build.
//!
//! Building a pipeline is the device's work. Whoever owns the device builds,
//! hands the answer to [`Reconciler::handle`], and builds again for as long as
//! the state is [`ReconcilerState::Repairing`].

use crate::binding::spec_size_type;
use crate::uniforms::{Uniforms, UniformsView};
use vstd::prelude::*;

verus! {

/// Why a pipeline build failed, as far as a repair depends on it.
#[derive(Debug, Clone, Copy, PartialEq, Eq, Structural)]
pub enum ErrorCategory {
    /// The shader declares a binding that the set does not have.
    MissingBinding { group: u32, binding: u32 },
    /// The shader declares more bytes for a binding than its buffer has.
    UndersizedBinding { group: u32, binding: u32, required_size: u64 },
    /// Anything else.
    Other,
}

/// The answer of one pipeline build.
#[derive(Debug, Clone, Copy, PartialEq, Eq, Structural)]
pub enum BuildOutcome {
    Built,
    Failed(ErrorCategory),
}

/// Where the loop stands.
#[derive(Debug, Clone, Copy, PartialEq, Eq, Structural)]
pub enum ReconcilerState {
    /// The last build succeeded; its pipeline is the active one.
    Stable,
    /// A failure was repaired; the pipeline is to be built again.
    Repairing,
    /// A failure has no repair; the pipeline that was active stays.
    Fatal,
}

/// The loop's state.
pub struct Reconciler {
    pub state: ReconcilerState,
}

impl ErrorCategory {
    /// The failure has a repair on `set` that changes the set:
    /// - a missing binding, if the set indeed lacks it;
    /// - an undersized binding, if the set has it, it is not a built-in, its
    ///   buffer is indeed smaller than required, and the table of shapes lists
    ///   the required size.
    pub open spec fn repairable(self, set: UniformsView) -> bool {
        match self {
            ErrorCategory::MissingBinding { group, binding } => !set.has(
                group as int,
                binding as int,
            ),
            ErrorCategory::UndersizedBinding { group, binding, required_size } => {
                &&& set.has(group as int, binding as int)
                &&& set.binding(group as int, binding as int).value !is BuiltIn
                &&& set.binding(group as int, binding as int).buffer.contents.len() < required_size
                &&& spec_size_type(required_size) is Some
            },
            ErrorCategory::Other => false,
        }
    }

    /// `after` is `before` with the failure repaired:
    /// - a missing binding is defined;
    /// - an undersized binding is converted to the shape that the table lists
    ///   for the required size, and written to a new buffer.
    pub open spec fn repairs(self, before: UniformsView, after: UniformsView) -> bool {
        match self {
            ErrorCategory::MissingBinding { group, binding } => after == before.defined(
                group,
                binding,
            ),
            ErrorCategory::UndersizedBinding { group, binding, required_size } => {
                &&& after.has(group as int, binding as int)
                &&& before.binding(group as int, binding as int).value.casts_to(
                    spec_size_type(required_size)->Some_0,
                    after.binding(group as int, binding as int).value,
                )
                &&& after.binding(group as int, binding as int).value.uniform_type()
                    == spec_size_type(required_size)
                &&& after == before.with_binding(
                    group as int,
                    binding as int,
                    before.binding(group as int, binding as int).written(
                        after.binding(group as int, binding as int).value,
                    ),
                )
            },
            ErrorCategory::Other => false,
        }
    }

    /// The failure no longer holds of `set`: the binding is there, and its
    /// buffer has the bytes required.
    pub open spec fn resolved(self, set: UniformsView) -> bool {
        match self {
            ErrorCategory::MissingBinding { group, binding } => set.has(
                group as int,
                binding as int,
            ),
            ErrorCategory::UndersizedBinding { group, binding, required_size } => {
                &&& set.has(group as int, binding as int)
                &&& set.binding(group as int, binding as int).buffer.contents.len()
                    >= required_size
            },
            ErrorCategory::Other => false,
        }
    }
}

/// A repair resolves the failure it was made for, so the next build cannot
/// fail in the same way.
pub proof fn lemma_repair_resolves(error: ErrorCategory, before: UniformsView, after: UniformsView)
    requires
        before.wf(),
        error.repairable(before),
        error.repairs(before, after),
    ensures
        error.resolved(after),
        !error.repairable(after),
        after != before,
{
    match error {
        ErrorCategory::MissingBinding { group, binding } => {
            crate::uniforms::lemma_define_binding_idempotent(before, group, binding);
        },
        ErrorCategory::UndersizedBinding { group, binding, required_size } => {
            let value = after.binding(group as int, binding as int).value;
            crate::binding::lemma_size_type_matches(required_size);
            crate::uniform_types::lemma_encoded_size(value);
            assert(after.binding(group as int, binding as int).buffer.contents.len()
                == value.encoded_size()) by {
                crate::bytes::lemma_words_round_trip(value.words());
            }
        },
        ErrorCategory::Other => {},
    }
}

impl Reconciler {
    /// A loop at rest.
    pub fn new() -> (r: Reconciler)
        ensures
            r.state == ReconcilerState::Stable,
    {
        Reconciler { state: ReconcilerState::Stable }
    }

    /// Repairs `set` for one failure. Returns whether it did; if not, the set
    /// is as it was.
    pub fn repair(uniforms: &mut Uniforms, error: ErrorCategory) -> (repaired: bool)
        requires
            old(uniforms).wf(),
        ensures
            final(uniforms).wf(),
            repaired == error.repairable(old(uniforms)@),
            repaired ==> error.repairs(old(uniforms)@, final(uniforms)@),
            !repaired ==> final(uniforms)@ == old(uniforms)@,
    {
        match error {
            ErrorCategory::MissingBinding { group, binding } => {
                if Self::has_binding(uniforms, group, binding) {
                    false
                } else {
                    uniforms.define_binding(group, binding);
                    true
                }
            },
            ErrorCategory::UndersizedBinding { group, binding, required_size } => {
                if !Self::has_binding(uniforms, group, binding) {
                    return false;
                }
                let g_index = group as usize;
                let b_index = binding as usize;
                let size = uniforms.groups[g_index].bindings[b_index].buffer.contents.len();
                if size as u64 >= required_size {
                    return false;
                }
                uniforms.change_binding_size(g_index, b_index, required_size)
            },
            ErrorCategory::Other => false,
        }
    }

    /// Whether the set has a binding at a place.
    pub fn has_binding(uniforms: &Uniforms, group: u32, binding: u32) -> (r: bool)
        ensures
            r == uniforms@.has(group as int, binding as int),
    {
        let g_index = group as usize;
        let b_index = binding as usize;
        g_index < uniforms.groups.len() && b_index < uniforms.groups[g_index].bindings.len()
    }

    /// Takes the answer of a build and decides how the loop goes on:
    /// - the build succeeded: the loop is stable, whatever it was;
    /// - it failed and the failure has a repair: the set is repaired and the
    ///   loop is repairing, so the pipeline is to be built again;
    /// - it failed otherwise: the loop is fatal and the set is as it was.
    pub fn handle(&mut self, uniforms: &mut Uniforms, outcome: BuildOutcome) -> (state:
        ReconcilerState)
        requires
            old(uniforms).wf(),
        ensures
            final(uniforms).wf(),
            final(self).state == state,
            outcome is Built ==> state == ReconcilerState::Stable && final(uniforms)@ == old(
                uniforms,
            )@,
            outcome matches BuildOutcome::Failed(error) ==> {
                &&& error.repairable(old(uniforms)@) ==> state == ReconcilerState::Repairing
                    && error.repairs(old(uniforms)@, final(uniforms)@)
                &&& !error.repairable(old(uniforms)@) ==> state == ReconcilerState::Fatal
                    && final(uniforms)@ == old(uniforms)@
            },
    {
        let state = match outcome {
            BuildOutcome::Built => ReconcilerState::Stable,
            BuildOutcome::Failed(error) => {
                if Self::repair(uniforms, error) {
                    ReconcilerState::Repairing
                } else {
                    ReconcilerState::Fatal
                }
            },
        };
        self.state = state;
        state
    }
}

/// What a shader declares of one binding: its place and the bytes it reads.
#[derive(Debug, Clone, Copy, PartialEq, Eq, Structural)]
pub struct Declaration {
    pub group: u32,
    pub binding: u32,
    pub size: u64,
}

impl Declaration {
    /// What a build says of this declaration against `set`: that the binding
    /// is missing, that its buffer is too small, or nothing.
    pub open spec fn violation(self, set: UniformsView) -> Option<ErrorCategory> {
        if !set.has(self.group as int, self.binding as int) {
            Some(ErrorCategory::MissingBinding { group: self.group, binding: self.binding })
        } else if set.binding(self.group as int, self.binding as int).buffer.contents.len()
            < self.size {
            Some(
                ErrorCategory::UndersizedBinding {
                    group: self.group,
                    binding: self.binding,
                    required_size: self.size,
                },
            )
        } else {
            None
        }
    }

    /// How far `set` is from meeting the declaration: two steps if the binding
    /// is missing, one if its buffer is too small, none if it is met.
    pub open spec fn deficit(self, set: UniformsView) -> nat {
        if !set.has(self.group as int, self.binding as int) {
            2
        } else if set.binding(self.group as int, self.binding as int).buffer.contents.len()
            < self.size {
            1
        } else {
            0
        }
    }

    /// What a build says of this declaration against the set.
    pub fn check(&self, uniforms: &Uniforms) -> (r: Option<ErrorCategory>)
        ensures
            r == self.violation(uniforms@),
    {
        if !Reconciler::has_binding(uniforms, self.group, self.binding) {
            return Some(
                ErrorCategory::MissingBinding { group: self.group, binding: self.binding },
            );
        }
        let size =
            uniforms.groups[self.group as usize].bindings[self.binding as usize].buffer.contents.len();
        if (size as u64) < self.size {
            Some(
                ErrorCategory::UndersizedBinding {
                    group: self.group,
                    binding: self.binding,
                    required_size: self.size,
                },
            )
        } else {
            None
        }
    }
}

/// The set meets every declaration.
pub open spec fn satisfied(set: UniformsView, shader: Seq<Declaration>) -> bool {
    forall|i: int| 0 <= i < shader.len() ==> (#[trigger] shader[i]).violation(set) is None
}

/// What a build of a shader against `set` says: the violation of the first
/// declaration from index `from` on that the set does not meet.
pub open spec fn first_violation(set: UniformsView, shader: Seq<Declaration>, from: int)
    -> BuildOutcome
    decreases shader.len() - from,
{
    if from < 0 || from >= shader.len() {
        BuildOutcome::Built
    } else {
        match shader[from].violation(set) {
            Some(error) => BuildOutcome::Failed(error),
            None => first_violation(set, shader, from + 1),
        }
    }
}

/// The sum of the deficits of the declarations.
pub open spec fn total_deficit(set: UniformsView, shader: Seq<Declaration>) -> nat
    decreases shader.len(),
{
    if shader.len() == 0 {
        0
    } else {
        total_deficit(set, shader.drop_last()) + shader.last().deficit(set)
    }
}

/// A build succeeds exactly if the set meets every declaration, and a
/// failure is the violation of a declaration.
pub proof fn lemma_first_violation(set: UniformsView, shader: Seq<Declaration>, from: int)
    requires
        0 <= from <= shader.len(),
    ensures
        first_violation(set, shader, from) is Built <==> forall|i: int|
            from <= i < shader.len() ==> (#[trigger] shader[i]).violation(set) is None,
        first_violation(set, shader, from) matches BuildOutcome::Failed(error) ==> exists|i: int|
            from <= i < shader.len() && (#[trigger] shader[i]).violation(set) == Some(error),
    decreases shader.len() - from,
{
    if from < shader.len() {
        lemma_first_violation(set, shader, from + 1);
        if shader[from].violation(set) is None {
            if first_violation(set, shader, from) is Failed {
                let error = first_violation(set, shader, from)->Failed_0;
                let i = choose|i: int|
                    from + 1 <= i < shader.len() && (#[trigger] shader[i]).violation(set) == Some(
                        error,
                    );
                assert(from <= i < shader.len() && shader[i].violation(set) == Some(error));
            }
        } else {
            assert(shader[from].violation(set) == Some(
                first_violation(set, shader, from)->Failed_0,
            ));
        }
    }
}

/// The deficits add up to at most two for each declaration.
pub proof fn lemma_total_deficit_bound(set: UniformsView, shader: Seq<Declaration>)
    ensures
        total_deficit(set, shader) <= 2 * shader.len(),
    decreases shader.len(),
{
    if shader.len() > 0 {
        lemma_total_deficit_bound(set, shader.drop_last());
    }
}

/// If no deficit grows, the sum does not grow; if one shrinks, the sum
/// shrinks.
pub proof fn lemma_total_deficit_shrinks(
    before: UniformsView,
    after: UniformsView,
    shader: Seq<Declaration>,
)
    requires
        forall|i: int|
            0 <= i < shader.len() ==> (#[trigger] shader[i]).deficit(after) <= shader[i].deficit(
                before,
            ),
    ensures
        total_deficit(after, shader) <= total_deficit(before, shader),
        (exists|i: int|
            0 <= i < shader.len() && (#[trigger] shader[i]).deficit(after) < shader[i].deficit(
                before,
            )) ==> total_deficit(after, shader) < total_deficit(before, shader),
    decreases shader.len(),
{
    if shader.len() > 0 {
        let shorter = shader.drop_last();
        assert forall|i: int| 0 <= i < shorter.len() implies (#[trigger] shorter[i]).deficit(after)
            <= shorter[i].deficit(before) by {
            assert(shorter[i] == shader[i]);
        }
        lemma_total_deficit_shrinks(before, after, shorter);
        assert(shader.last() == shader[shader.len() - 1]);
        if exists|i: int|
            0 <= i < shader.len() && (#[trigger] shader[i]).deficit(after) < shader[i].deficit(
                before,
            ) {
            let i = choose|i: int|
                0 <= i < shader.len() && (#[trigger] shader[i]).deficit(after) < shader[i].deficit(
                    before,
                );
            if i < shader.len() - 1 {
                assert(shorter[i] == shader[i]);
                assert(shorter[i].deficit(after) < shorter[i].deficit(before));
            }
        }
    }
}

/// A repair brings no declaration further from being met, and brings the
/// declaration it was made for nearer.
pub proof fn lemma_repair_progress(
    error: ErrorCategory,
    before: UniformsView,
    after: UniformsView,
    d: Declaration,
)
    requires
        before.wf(),
        error.repairable(before),
        error.repairs(before, after),
    ensures
        d.deficit(after) <= d.deficit(before),
        d.violation(before) == Some(error) ==> d.deficit(after) < d.deficit(before),
{
    lemma_repair_resolves(error, before, after);
    match error {
        ErrorCategory::MissingBinding { group, binding } => {
            crate::uniforms::lemma_define_binding_idempotent(before, group, binding);
            if before.has(d.group as int, d.binding as int) {
                assert(after.binding(d.group as int, d.binding as int) == before.binding(
                    d.group as int,
                    d.binding as int,
                ));
            }
        },
        ErrorCategory::UndersizedBinding { group, binding, required_size } => {
            assert(after.groups.len() == before.groups.len());
            if d.group == group {
                assert(after.groups[group as int].bindings.len()
                    == before.groups[group as int].bindings.len());
                if d.binding != binding && before.has(d.group as int, d.binding as int) {
                    assert(after.binding(d.group as int, d.binding as int) == before.binding(
                        d.group as int,
                        d.binding as int,
                    ));
                }
            } else if before.has(d.group as int, d.binding as int) {
                assert(after.groups[d.group as int] == before.groups[d.group as int]);
            }
        },
        ErrorCategory::Other => {},
    }
}

impl Reconciler {
    /// Stands in for a device: what a build of a shader with the given
    /// declarations says against the set.
    pub fn build(uniforms: &Uniforms, shader: &Vec<Declaration>) -> (outcome: BuildOutcome)
        ensures
            outcome == first_violation(uniforms@, shader@, 0),
            outcome is Built <==> satisfied(uniforms@, shader@),
    {
        let mut i: usize = 0;
        proof {
            lemma_first_violation(uniforms@, shader@, 0);
        }
        while i < shader.len()
            invariant
                i <= shader@.len(),
                first_violation(uniforms@, shader@, 0) == first_violation(
                    uniforms@,
                    shader@,
                    i as int,
                ),
            decreases shader@.len() - i,
        {
            match shader[i].check(uniforms) {
                Some(error) => {
                    return BuildOutcome::Failed(error);
                },
                None => {},
            }
            i = i + 1;
        }
        BuildOutcome::Built
    }

    /// Runs the loop against a shader with the given declarations until it
    /// comes to rest, and returns where it rests and how many repairs it
    /// made.
    ///
    /// The loop always comes to rest, after at most two repairs for each
    /// declaration. It rests stable exactly if the set then meets every
    /// declaration, and fatal exactly if the first declaration that the set
    /// does not meet has a violation without repair.
    pub fn reconcile(&mut self, uniforms: &mut Uniforms, shader: &Vec<Declaration>) -> (r: (
        ReconcilerState,
        u128,
    ))
        requires
            old(uniforms).wf(),
        ensures
            final(uniforms).wf(),
            final(self).state == r.0,
            r.0 != ReconcilerState::Repairing,
            r.0 == ReconcilerState::Stable <==> satisfied(final(uniforms)@, shader@),
            r.0 == ReconcilerState::Fatal ==> (first_violation(
                final(uniforms)@,
                shader@,
                0,
            ) matches BuildOutcome::Failed(error) && !error.repairable(final(uniforms)@)),
            r.1 + total_deficit(final(uniforms)@, shader@) <= total_deficit(
                old(uniforms)@,
                shader@,
            ),
            r.1 <= 2 * shader@.len(),
            r.1 == 0 ==> final(uniforms)@ == old(uniforms)@,
    {
        let mut repairs: u128 = 0;
        proof {
            lemma_total_deficit_bound(uniforms@, shader@);
            assert(shader@.len() == shader.len());
        }
        loop
            invariant
                uniforms.wf(),
                repairs + total_deficit(uniforms@, shader@) <= total_deficit(
                    old(uniforms)@,
                    shader@,
                ),
                total_deficit(old(uniforms)@, shader@) <= 2 * shader@.len(),
                shader@.len() <= usize::MAX,
                repairs == 0 ==> uniforms@ == old(uniforms)@,
            decreases total_deficit(uniforms@, shader@),
        {
            let outcome = Self::build(uniforms, shader);
            let ghost before = uniforms@;
            let state = self.handle(uniforms, outcome);
            match state {
                ReconcilerState::Repairing => {
                    proof {
                        let error = outcome->Failed_0;
                        lemma_first_violation(before, shader@, 0);
                        let i = choose|i: int|
                            0 <= i < shader@.len() && (#[trigger] shader@[i]).violation(before)
                                == Some(error);
                        assert forall|k: int| 0 <= k < shader@.len() implies (
                        #[trigger] shader@[k]).deficit(uniforms@) <= shader@[k].deficit(before) by {
                            lemma_repair_progress(error, before, uniforms@, shader@[k]);
                        }
                        lemma_repair_progress(error, before, uniforms@, shader@[i]);
                        assert(shader@[i].deficit(uniforms@) < shader@[i].deficit(before));
                        lemma_total_deficit_shrinks(before, uniforms@, shader@);
                    }
                    repairs = repairs + 1;
                },
                _ => {
                    return (state, repairs);
                },
            }
        }
    }
}

} // verus!
