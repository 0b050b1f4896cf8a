use uniform_bindings::binding::{default_uniform, size_type, UniformBinding};
use uniform_bindings::float::Float;
use uniform_bindings::group::UniformGroup;
use uniform_bindings::uniform_types::matrix::{MatrixType, MatrixUniformValue};
use uniform_bindings::uniform_types::scalar::{ScalarType, ScalarUniformValue};
use uniform_bindings::uniform_types::vector::{Vec3UniformValue, VecType, VectorUniformValue};
use uniform_bindings::uniform_types::{BuiltinValue, UniformType, UniformValue};
use uniform_bindings::uniforms::Uniforms;

fn float(v: f32) -> Float {
    Float::from_bits(v.to_bits())
}

fn zero_f32() -> UniformValue {
    UniformValue::Scalar(ScalarUniformValue::F32(float(0.0)))
}

#[test]
fn a_new_binding_is_unnamed_and_holds_the_bytes_of_its_value() {
    let b = UniformBinding::new(UniformValue::Scalar(ScalarUniformValue::U32(7)));
    assert_eq!(b.name, "unnamed");
    assert_eq!(b.buffer.contents, vec![7, 0, 0, 0]);
    assert_eq!(b.buffer.generation, 0);
    assert_eq!(default_uniform(), zero_f32());
}

#[test]
fn a_value_of_the_same_size_is_written_in_place() {
    let mut b = UniformBinding::new(UniformValue::Scalar(ScalarUniformValue::U32(7)));
    let reallocated = b.write(UniformValue::Scalar(ScalarUniformValue::I32(-1)));
    assert!(!reallocated);
    assert_eq!(b.buffer.generation, 0);
    assert_eq!(b.buffer.contents, vec![0xff; 4]);
    assert_eq!(b.value, UniformValue::Scalar(ScalarUniformValue::I32(-1)));
}

#[test]
fn a_value_of_another_size_gets_a_new_buffer() {
    let mut b = UniformBinding::new(zero_f32());
    let reallocated = b.write(UniformValue::Matrix(MatrixUniformValue::zero(MatrixType::M4x4)));
    assert!(reallocated);
    assert_eq!(b.buffer.generation, 1);
    assert_eq!(b.buffer.contents, vec![0u8; 64]);
    assert_eq!(b.name, "unnamed");
}

#[test]
fn the_allocation_number_wraps_around() {
    let mut b = UniformBinding::new(zero_f32());
    b.buffer.generation = u64::MAX;
    assert!(b.write(UniformValue::Matrix(MatrixUniformValue::zero(MatrixType::M4x4))));
    assert_eq!(b.buffer.generation, 0);
}

#[test]
fn define_binding_fills_up_with_default_scalars() {
    let mut g = UniformGroup::new();
    g.define_binding(2);
    assert_eq!(g.bindings.len(), 3);
    for b in g.bindings.iter() {
        assert_eq!(b.value, zero_f32());
        assert_eq!(b.buffer.contents, vec![0u8; 4]);
    }
    assert_eq!(g.bind_group.entries.len(), 3);
    for (i, e) in g.bind_group.entries.iter().enumerate() {
        assert_eq!(e.binding as usize, i);
        assert_eq!(e.buffer, 0);
    }
}

#[test]
fn define_binding_is_idempotent() {
    let mut g = UniformGroup::new();
    g.add_custom(UniformValue::Scalar(ScalarUniformValue::U32(11)));
    g.set_name(0, "first".to_string());
    g.define_binding(4);
    let length = g.bindings.len();
    let values: Vec<UniformValue> = g.bindings.iter().map(|b| b.value).collect();
    let names: Vec<String> = g.bindings.iter().map(|b| b.name.clone()).collect();
    let entries = g.bind_group.entries.clone();
    g.define_binding(4);
    assert_eq!(length, 5);
    assert_eq!(g.bindings.len(), length);
    assert_eq!(g.bindings.iter().map(|b| b.value).collect::<Vec<_>>(), values);
    assert_eq!(g.bindings.iter().map(|b| b.name.clone()).collect::<Vec<_>>(), names);
    assert_eq!(g.bind_group.entries, entries);
    assert_eq!(g.bindings[0].value, UniformValue::Scalar(ScalarUniformValue::U32(11)));
    g.define_binding(1);
    assert_eq!(g.bindings.len(), length);
}

#[test]
fn the_layout_lists_every_binding_under_its_index() {
    let mut g = UniformGroup::new();
    assert!(g.bg_layout().is_empty());
    g.define_binding(3);
    let layout = g.bg_layout();
    assert_eq!(layout.iter().map(|e| e.binding).collect::<Vec<_>>(), vec![0, 1, 2, 3]);
}

#[test]
fn the_default_set_has_the_time_and_the_camera() {
    let u = Uniforms::new();
    assert_eq!(u.groups.len(), 2);
    assert_eq!(u.time_uniform_location, (0, 0));
    assert_eq!(u.camera_uniform_location, (1, 0));
    assert_eq!(u.groups[0].bindings.len(), 1);
    assert_eq!(u.groups[1].bindings.len(), 1);
    assert_eq!(u.groups[0].bindings[0].value, UniformValue::BuiltIn(BuiltinValue::Time));
    assert_eq!(u.groups[1].bindings[0].value, Uniforms::default_camera());
    assert_eq!(u.groups[0].bindings[0].buffer.contents.len(), 4);
    assert_eq!(u.groups[1].bindings[0].buffer.contents.len(), 272);
}

#[test]
fn the_default_camera_looks_down_at_minus_45_degrees() {
    let yaw = (-45.0f32).to_radians();
    match Uniforms::default_camera() {
        UniformValue::BuiltIn(BuiltinValue::Camera { position, yaw: y, pitch, enabled, .. }) => {
            assert_eq!(position.x, float(-1.5));
            assert_eq!(position.y, float(1.2));
            assert_eq!(position.z, float(0.5));
            assert!((f32::from_bits(y.to_bits()) - yaw).abs() < 1.0e-6);
            assert_eq!(y, pitch);
            assert!(!enabled);
        }
        other => panic!("not a camera: {:?}", other),
    }
}

#[test]
fn defining_a_binding_and_changing_its_type() {
    let mut u = Uniforms::new();
    u.define_binding(0, 2);
    assert_eq!(u.groups[0].bindings.len(), 3);
    assert_eq!(u.groups[0].bindings[0].value, UniformValue::BuiltIn(BuiltinValue::Time));
    assert_eq!(u.groups[0].bindings[1].value, zero_f32());
    assert_eq!(u.groups[0].bindings[2].value, zero_f32());
    let before = u.groups[0].bindings[2].buffer.generation;
    u.change_type(UniformType::Vec(VecType::Vec3(ScalarType::F32)), 0, 2);
    let binding = &u.groups[0].bindings[2];
    assert_eq!(
        binding.value,
        UniformValue::Vector(VectorUniformValue::Vec3(Vec3UniformValue::F32(
            float(0.0),
            float(0.0),
            float(0.0)
        )))
    );
    assert_eq!(binding.value.to_le_bytes(), vec![0u8; 12]);
    assert_eq!(binding.buffer.contents, vec![0u8; 12]);
    assert_ne!(binding.buffer.generation, before);
    assert_eq!(u.groups[0].bind_group.entries[2].buffer, binding.buffer.generation);
    assert_eq!(u.groups[0].bind_group.entries[1].buffer, 0);
}

#[test]
fn define_binding_appends_empty_groups() {
    let mut u = Uniforms::new();
    u.define_binding(3, 0);
    assert_eq!(u.groups.len(), 4);
    assert_eq!(u.groups[2].bindings.len(), 0);
    assert_eq!(u.groups[3].bindings.len(), 1);
    assert_eq!(u.groups[1].bindings.len(), 1);
    u.define_binding(3, 0);
    assert_eq!(u.groups.len(), 4);
    assert_eq!(u.groups[3].bindings.len(), 1);
}

#[test]
fn update_time_writes_four_bytes_in_place() {
    let mut u = Uniforms::new();
    let entries = u.groups[0].bind_group.entries.clone();
    u.update_time(0x0102_0304);
    let b = &u.groups[0].bindings[0];
    assert_eq!(b.buffer.contents, vec![4, 3, 2, 1]);
    assert_eq!(b.buffer.generation, 0);
    assert_eq!(b.value, UniformValue::BuiltIn(BuiltinValue::Time));
    assert_eq!(u.groups[0].bind_group.entries, entries);
    u.update_time(u32::MAX);
    assert_eq!(u.groups[0].bindings[0].buffer.contents, vec![0xff; 4]);
}

#[test]
fn enable_camera_flips_the_flag_and_keeps_the_buffer() {
    let mut u = Uniforms::new();
    u.enable_camera(true);
    let b = &u.groups[1].bindings[0];
    match b.value {
        UniformValue::BuiltIn(BuiltinValue::Camera { enabled, .. }) => assert!(enabled),
        other => panic!("not a camera: {:?}", other),
    }
    assert_eq!(b.buffer.contents.len(), 272);
    assert_eq!(b.buffer.contents, b.value.to_le_bytes());
    assert_eq!(b.buffer.generation, 0);
    u.enable_camera(false);
    match u.groups[1].bindings[0].value {
        UniformValue::BuiltIn(BuiltinValue::Camera { enabled, .. }) => assert!(!enabled),
        other => panic!("not a camera: {:?}", other),
    }
    u.enable_camera(false);
    assert_eq!(u.groups[1].bindings[0].buffer.generation, 0);
}

#[test]
fn increase_and_decrease_write_in_place() {
    let mut u = Uniforms::new();
    u.add_f32(0);
    u.change_type(UniformType::Scalar(ScalarType::U32), 0, 1);
    u.increase(0, 1);
    u.increase(0, 1);
    u.decrease(0, 1);
    let b = &u.groups[0].bindings[1];
    assert_eq!(b.value, UniformValue::Scalar(ScalarUniformValue::U32(1)));
    assert_eq!(b.buffer.contents, vec![1, 0, 0, 0]);
    assert_eq!(b.buffer.generation, 0);
}

#[test]
fn change_inner_type_keeps_the_buffer() {
    let mut u = Uniforms::new();
    u.add_f32(1);
    u.change_type(UniformType::Vec(VecType::Vec3(ScalarType::F32)), 1, 1);
    let generation = u.groups[1].bindings[1].buffer.generation;
    u.change_inner_type(ScalarType::U32, 1, 1);
    let b = &u.groups[1].bindings[1];
    assert_eq!(
        b.value,
        UniformValue::Vector(VectorUniformValue::Vec3(Vec3UniformValue::U32(0, 0, 0)))
    );
    assert_eq!(b.buffer.generation, generation);
}

#[test]
fn change_matrix_size_reallocates_when_the_size_changes() {
    let mut u = Uniforms::new();
    u.add_f32(0);
    u.change_type(UniformType::Matrix(MatrixType::M4x4), 0, 1);
    let first = u.groups[0].bindings[1].buffer.generation;
    u.change_matrix_size(MatrixType::M4x2, 0, 1);
    assert_eq!(u.groups[0].bindings[1].buffer.generation, first);
    u.change_matrix_size(MatrixType::M2x2, 0, 1);
    let b = &u.groups[0].bindings[1];
    assert_ne!(b.buffer.generation, first);
    assert_eq!(b.buffer.contents, vec![0u8; 32]);
    assert_eq!(u.groups[0].bind_group.entries[1].buffer, b.buffer.generation);
}

#[test]
fn the_table_of_sizes() {
    let f = ScalarType::F32;
    assert_eq!(size_type(4), Some(UniformType::Scalar(f)));
    assert_eq!(size_type(8), Some(UniformType::Vec(VecType::Vec2(f))));
    assert_eq!(size_type(12), Some(UniformType::Vec(VecType::Vec3(f))));
    assert_eq!(size_type(16), Some(UniformType::Vec(VecType::Vec4(f))));
    assert_eq!(size_type(24), Some(UniformType::Matrix(MatrixType::M2x3)));
    assert_eq!(size_type(32), Some(UniformType::Matrix(MatrixType::M2x4)));
    assert_eq!(size_type(36), Some(UniformType::Matrix(MatrixType::M3x3)));
    assert_eq!(size_type(48), Some(UniformType::Matrix(MatrixType::M3x4)));
    assert_eq!(size_type(64), Some(UniformType::Matrix(MatrixType::M4x4)));
    for size in [0u64, 1, 3, 5, 20, 28, 40, 63, 65, 80, 272, u64::MAX] {
        assert_eq!(size_type(size), None);
    }
}

#[test]
fn change_binding_size_leaves_a_built_in_and_an_unlisted_size_alone() {
    let mut u = Uniforms::new();
    assert!(!u.change_binding_size(0, 0, 16));
    assert_eq!(u.groups[0].bindings[0].value, UniformValue::BuiltIn(BuiltinValue::Time));
    u.add_f32(0);
    assert!(!u.change_binding_size(0, 1, 20));
    assert_eq!(u.groups[0].bindings[1].value, zero_f32());
    assert!(u.change_binding_size(0, 1, 36));
    assert_eq!(
        u.groups[0].bindings[1].value,
        UniformValue::Matrix(MatrixUniformValue::zero(MatrixType::M3x3))
    );
    assert_eq!(u.groups[0].bindings[1].buffer.contents.len(), 48);
}

#[test]
fn increase_and_decrease_move_a_binary32_scalar_by_one() {
    let mut u = Uniforms::new();
    u.add_f32(0);
    u.increase(0, 1);
    u.increase(0, 1);
    u.increase(0, 1);
    u.decrease(0, 1);
    let b = &u.groups[0].bindings[1];
    assert_eq!(b.value, UniformValue::Scalar(ScalarUniformValue::F32(float(2.0))));
    assert_eq!(b.buffer.contents, 2.0f32.to_le_bytes().to_vec());
    assert_eq!(b.buffer.generation, 0);
    let mut v = ScalarUniformValue::F32(float(-0.75));
    v.increase();
    assert_eq!(v, ScalarUniformValue::F32(float(0.25)));
    v.decrease();
    v.decrease();
    assert_eq!(v, ScalarUniformValue::F32(float(-1.75)));
}
