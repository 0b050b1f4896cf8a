use uniform_bindings::float::Float;
use uniform_bindings::reconciler::{BuildOutcome, ErrorCategory, Reconciler, ReconcilerState};
use uniform_bindings::uniform_types::scalar::{ScalarType, ScalarUniformValue};
use uniform_bindings::uniform_types::vector::{Vec4UniformValue, VecType, VectorUniformValue};
use uniform_bindings::uniform_types::{BuiltinValue, UniformType, UniformValue};
use uniform_bindings::uniforms::Uniforms;

fn float(v: f32) -> Float {
    Float::from_bits(v.to_bits())
}

/// What a shader declares: a group, a binding and a size in bytes.
struct Declared {
    group: u32,
    binding: u32,
    size: u64,
}

/// Stands in for the device: the first declaration that the set does not meet.
fn build(uniforms: &Uniforms, shader: &[Declared]) -> BuildOutcome {
    for d in shader {
        if !Reconciler::has_binding(uniforms, d.group, d.binding) {
            return BuildOutcome::Failed(ErrorCategory::MissingBinding {
                group: d.group,
                binding: d.binding,
            });
        }
    }
    for d in shader {
        let b = &uniforms.groups[d.group as usize].bindings[d.binding as usize];
        if (b.buffer.contents.len() as u64) < d.size {
            return BuildOutcome::Failed(ErrorCategory::UndersizedBinding {
                group: d.group,
                binding: d.binding,
                required_size: d.size,
            });
        }
    }
    BuildOutcome::Built
}

fn run(uniforms: &mut Uniforms, shader: &[Declared], limit: usize) -> (ReconcilerState, usize) {
    let mut reconciler = Reconciler::new();
    let mut repairs = 0;
    loop {
        let state = reconciler.handle(uniforms, build(uniforms, shader));
        assert_eq!(reconciler.state, state);
        match state {
            ReconcilerState::Repairing => {
                repairs += 1;
                assert!(repairs <= limit, "no end of repairs");
            }
            other => return (other, repairs),
        }
    }
}

#[test]
fn a_new_reconciler_is_stable() {
    assert_eq!(Reconciler::new().state, ReconcilerState::Stable);
}

#[test]
fn the_default_set_converges_on_two_declarations() {
    let shader = [
        Declared { group: 0, binding: 2, size: 4 },
        Declared { group: 1, binding: 0, size: 16 },
    ];
    let mut u = Uniforms::new();
    let (state, repairs) = run(&mut u, &shader, 8);
    assert_eq!(state, ReconcilerState::Stable);
    assert!(repairs <= 2);
    assert_eq!(u.groups[0].bindings.len(), 3);
    assert_eq!(u.groups[0].bindings[2].buffer.contents.len(), 4);
    assert!(u.groups[1].bindings[0].buffer.contents.len() >= 16);
}

#[test]
fn an_empty_set_converges_on_two_declarations() {
    let shader = [
        Declared { group: 0, binding: 2, size: 4 },
        Declared { group: 1, binding: 0, size: 16 },
    ];
    let mut u = Uniforms::empty();
    let (state, repairs) = run(&mut u, &shader, 8);
    assert_eq!(state, ReconcilerState::Stable);
    // Two bindings to define, and one of them to widen.
    assert_eq!(repairs, 3);
    assert_eq!(u.groups.len(), 2);
    assert_eq!(u.groups[0].bindings.len(), 3);
    assert_eq!(u.groups[1].bindings.len(), 1);
    assert_eq!(
        u.groups[0].bindings[2].value,
        UniformValue::Scalar(ScalarUniformValue::F32(float(0.0)))
    );
    assert_eq!(u.groups[0].bindings[2].buffer.contents.len(), 4);
    assert_eq!(
        u.groups[1].bindings[0].value,
        UniformValue::Vector(VectorUniformValue::Vec4(Vec4UniformValue::F32(
            float(0.0),
            float(0.0),
            float(0.0),
            float(0.0)
        )))
    );
    assert_eq!(u.groups[1].bindings[0].buffer.contents.len(), 16);
    assert_eq!(build(&u, &shader), BuildOutcome::Built);
}

#[test]
fn a_missing_binding_is_defined() {
    let mut u = Uniforms::new();
    let mut r = Reconciler::new();
    let state = r.handle(
        &mut u,
        BuildOutcome::Failed(ErrorCategory::MissingBinding { group: 2, binding: 1 }),
    );
    assert_eq!(state, ReconcilerState::Repairing);
    assert_eq!(u.groups.len(), 3);
    assert_eq!(u.groups[2].bindings.len(), 2);
    assert_eq!(r.handle(&mut u, BuildOutcome::Built), ReconcilerState::Stable);
}

#[test]
fn an_undersized_binding_takes_the_shape_of_the_required_size() {
    let mut u = Uniforms::new();
    u.add_f32(0);
    u.change_type(UniformType::Scalar(ScalarType::U32), 0, 1);
    let mut r = Reconciler::new();
    let state = r.handle(
        &mut u,
        BuildOutcome::Failed(ErrorCategory::UndersizedBinding {
            group: 0,
            binding: 1,
            required_size: 12,
        }),
    );
    assert_eq!(state, ReconcilerState::Repairing);
    assert_eq!(
        u.groups[0].bindings[1].value.get_type(),
        Some(UniformType::Vec(VecType::Vec3(ScalarType::F32)))
    );
    assert_eq!(u.groups[0].bindings[1].buffer.contents, vec![0u8; 12]);
    assert_eq!(u.groups[0].bindings[1].buffer.generation, 1);
}

#[test]
fn an_undersized_binding_keeps_its_first_number() {
    let mut u = Uniforms::new();
    u.add_f32(0);
    u.change_type(UniformType::Scalar(ScalarType::U32), 0, 1);
    u.increase(0, 1);
    assert!(Reconciler::repair(
        &mut u,
        ErrorCategory::UndersizedBinding { group: 0, binding: 1, required_size: 16 }
    ));
    assert_eq!(
        u.groups[0].bindings[1].value,
        UniformValue::Vector(VectorUniformValue::Vec4(Vec4UniformValue::F32(
            float(1.0),
            float(0.0),
            float(0.0),
            float(0.0)
        )))
    );
}

#[test]
fn other_failures_are_fatal() {
    let mut u = Uniforms::new();
    let mut r = Reconciler::new();
    assert_eq!(
        r.handle(&mut u, BuildOutcome::Failed(ErrorCategory::Other)),
        ReconcilerState::Fatal
    );
    assert_eq!(r.state, ReconcilerState::Fatal);
    assert_eq!(u.groups.len(), 2);
    // A later build that succeeds makes the loop stable again.
    assert_eq!(r.handle(&mut u, BuildOutcome::Built), ReconcilerState::Stable);
}

#[test]
fn an_unlisted_size_is_fatal() {
    let mut u = Uniforms::new();
    u.add_f32(0);
    let mut r = Reconciler::new();
    for size in [20u64, 40, 80, 1000] {
        let state = r.handle(
            &mut u,
            BuildOutcome::Failed(ErrorCategory::UndersizedBinding {
                group: 0,
                binding: 1,
                required_size: size,
            }),
        );
        assert_eq!(state, ReconcilerState::Fatal);
    }
    assert_eq!(u.groups[0].bindings[1].buffer.contents.len(), 4);
    assert_eq!(u.groups[0].bindings[1].buffer.generation, 0);
}

#[test]
fn a_repair_that_would_change_nothing_is_fatal() {
    let mut u = Uniforms::new();
    let mut r = Reconciler::new();
    // The binding is there.
    assert_eq!(
        r.handle(
            &mut u,
            BuildOutcome::Failed(ErrorCategory::MissingBinding { group: 0, binding: 0 })
        ),
        ReconcilerState::Fatal
    );
    // The binding is not there.
    assert_eq!(
        r.handle(
            &mut u,
            BuildOutcome::Failed(ErrorCategory::UndersizedBinding {
                group: 5,
                binding: 0,
                required_size: 16
            })
        ),
        ReconcilerState::Fatal
    );
    // The buffer is large enough already.
    u.add_f32(0);
    assert_eq!(
        r.handle(
            &mut u,
            BuildOutcome::Failed(ErrorCategory::UndersizedBinding {
                group: 0,
                binding: 1,
                required_size: 4
            })
        ),
        ReconcilerState::Fatal
    );
    // A built-in has no other shape.
    assert_eq!(
        r.handle(
            &mut u,
            BuildOutcome::Failed(ErrorCategory::UndersizedBinding {
                group: 0,
                binding: 0,
                required_size: 16
            })
        ),
        ReconcilerState::Fatal
    );
    assert_eq!(u.groups[0].bindings[0].value, UniformValue::BuiltIn(BuiltinValue::Time));
    assert_eq!(u.groups.len(), 2);
    assert_eq!(u.groups[0].bindings.len(), 2);
}

#[test]
fn has_binding_tells_what_the_set_has() {
    let u = Uniforms::new();
    assert!(Reconciler::has_binding(&u, 0, 0));
    assert!(Reconciler::has_binding(&u, 1, 0));
    assert!(!Reconciler::has_binding(&u, 0, 1));
    assert!(!Reconciler::has_binding(&u, 2, 0));
    assert!(!Reconciler::has_binding(&Uniforms::empty(), 0, 0));
}

use uniform_bindings::reconciler::Declaration;

fn two_declarations() -> Vec<Declaration> {
    vec![
        Declaration { group: 0, binding: 2, size: 4 },
        Declaration { group: 1, binding: 0, size: 16 },
    ]
}

#[test]
fn reconcile_comes_to_rest_on_the_default_set() {
    let shader = two_declarations();
    let mut u = Uniforms::new();
    let mut r = Reconciler::new();
    let (state, repairs) = r.reconcile(&mut u, &shader);
    assert_eq!(state, ReconcilerState::Stable);
    assert_eq!(repairs, 1);
    assert_eq!(Reconciler::build(&u, &shader), BuildOutcome::Built);
    assert_eq!(u.groups[0].bindings.len(), 3);
    assert_eq!(u.groups[1].bindings.len(), 1);
    let (state, repairs) = r.reconcile(&mut u, &shader);
    assert_eq!((state, repairs), (ReconcilerState::Stable, 0));
}

#[test]
fn reconcile_comes_to_rest_on_an_empty_set() {
    let shader = two_declarations();
    let mut u = Uniforms::empty();
    assert_eq!(
        Reconciler::build(&u, &shader),
        BuildOutcome::Failed(ErrorCategory::MissingBinding { group: 0, binding: 2 })
    );
    let mut r = Reconciler::new();
    let (state, repairs) = r.reconcile(&mut u, &shader);
    assert_eq!(state, ReconcilerState::Stable);
    assert!(repairs <= 4);
    assert_eq!(repairs, 3);
    assert_eq!(u.groups[0].bindings[2].buffer.contents.len(), 4);
    assert_eq!(u.groups[1].bindings[0].buffer.contents.len(), 16);
    assert_eq!(r.state, ReconcilerState::Stable);
}

#[test]
fn reconcile_widens_one_binding_for_several_declarations() {
    let shader = vec![
        Declaration { group: 0, binding: 1, size: 8 },
        Declaration { group: 0, binding: 1, size: 64 },
        Declaration { group: 0, binding: 1, size: 16 },
    ];
    let mut u = Uniforms::new();
    let (state, repairs) = Reconciler::new().reconcile(&mut u, &shader);
    assert_eq!(state, ReconcilerState::Stable);
    assert_eq!(repairs, 3);
    assert_eq!(u.groups[0].bindings[1].buffer.contents.len(), 64);
}

#[test]
fn reconcile_gives_up_on_a_size_without_shape() {
    let shader = vec![
        Declaration { group: 0, binding: 1, size: 4 },
        Declaration { group: 0, binding: 2, size: 20 },
        Declaration { group: 3, binding: 0, size: 4 },
    ];
    let mut u = Uniforms::new();
    let mut r = Reconciler::new();
    let (state, repairs) = r.reconcile(&mut u, &shader);
    assert_eq!(state, ReconcilerState::Fatal);
    assert_eq!(r.state, ReconcilerState::Fatal);
    // Two bindings were defined before the size without shape came up.
    assert_eq!(repairs, 2);
    assert_eq!(u.groups.len(), 2);
    assert_eq!(u.groups[0].bindings.len(), 3);
    assert_eq!(
        Reconciler::build(&u, &shader),
        BuildOutcome::Failed(ErrorCategory::UndersizedBinding {
            group: 0,
            binding: 2,
            required_size: 20
        })
    );
}

#[test]
fn reconcile_gives_up_on_a_built_in_that_is_too_small() {
    let shader = vec![Declaration { group: 0, binding: 0, size: 16 }];
    let mut u = Uniforms::new();
    let (state, repairs) = Reconciler::new().reconcile(&mut u, &shader);
    assert_eq!((state, repairs), (ReconcilerState::Fatal, 0));
    assert_eq!(u.groups[0].bindings[0].buffer.contents.len(), 4);
}

#[test]
fn a_declaration_is_checked_against_the_set() {
    let u = Uniforms::new();
    assert_eq!(Declaration { group: 0, binding: 0, size: 4 }.check(&u), None);
    assert_eq!(Declaration { group: 1, binding: 0, size: 272 }.check(&u), None);
    assert_eq!(
        Declaration { group: 1, binding: 0, size: 273 }.check(&u),
        Some(ErrorCategory::UndersizedBinding { group: 1, binding: 0, required_size: 273 })
    );
    assert_eq!(
        Declaration { group: 1, binding: 1, size: 0 }.check(&u),
        Some(ErrorCategory::MissingBinding { group: 1, binding: 1 })
    );
    assert_eq!(Reconciler::build(&u, &Vec::new()), BuildOutcome::Built);
}
