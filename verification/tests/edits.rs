use uniform_bindings::edit::{MeshConfig, UniformEditEvent};
use uniform_bindings::float::Float;
use uniform_bindings::uniform_types::matrix::{MatrixType, MatrixUniformValue};
use uniform_bindings::uniform_types::scalar::{ScalarType, ScalarUniformValue};
use uniform_bindings::uniform_types::vector::{Vec2UniformValue, VecType, VectorUniformValue};
use uniform_bindings::uniform_types::{BuiltinValue, UniformType, UniformValue};
use uniform_bindings::uniforms::Uniforms;

fn float(v: f32) -> Float {
    Float::from_bits(v.to_bits())
}

fn value(u: &Uniforms, g: usize, b: usize) -> UniformValue {
    u.groups[g].bindings[b].value
}

#[test]
fn an_editor_builds_up_a_set() {
    let mut u = Uniforms::new();
    assert!(u.handle_edit(UniformEditEvent::AddBindGroup));
    assert!(u.handle_edit(UniformEditEvent::AddUniform(2)));
    assert!(u.handle_edit(UniformEditEvent::AddUniform(2)));
    assert_eq!(u.groups.len(), 3);
    assert_eq!(u.groups[2].bindings.len(), 2);
    let t = UniformType::Vec(VecType::Vec2(ScalarType::U32));
    assert!(u.handle_edit(UniformEditEvent::ChangeType(t, 2, 1)));
    assert_eq!(value(&u, 2, 1), UniformValue::Vector(VectorUniformValue::Vec2(Vec2UniformValue::U32(0, 0))));
    assert!(u.handle_edit(UniformEditEvent::ChangeInnerType(ScalarType::I32, 2, 1)));
    assert_eq!(value(&u, 2, 1), UniformValue::Vector(VectorUniformValue::Vec2(Vec2UniformValue::I32(0, 0))));
    assert!(u.handle_edit(UniformEditEvent::Increase(2, 0)));
    assert_eq!(value(&u, 2, 0), UniformValue::Scalar(ScalarUniformValue::F32(float(1.0))));
    assert!(u.handle_edit(UniformEditEvent::Decrease(2, 0)));
    assert!(u.handle_edit(UniformEditEvent::Decrease(2, 0)));
    assert_eq!(value(&u, 2, 0), UniformValue::Scalar(ScalarUniformValue::F32(float(-1.0))));
    assert!(u.handle_edit(UniformEditEvent::ChangeType(UniformType::Matrix(MatrixType::M4x4), 2, 0)));
    assert!(u.handle_edit(UniformEditEvent::ChangeMatrixSize(MatrixType::M2x3, 2, 0)));
    assert_eq!(value(&u, 2, 0), UniformValue::Matrix(MatrixUniformValue::zero(MatrixType::M2x3)));
    assert_eq!(u.groups[2].bindings[0].buffer.contents.len(), 32);
}

#[test]
fn an_edited_value_is_put_on_the_device() {
    let mut u = Uniforms::new();
    u.add_f32(0);
    u.groups[0].bindings[1].value = UniformValue::Scalar(ScalarUniformValue::F32(float(6.5)));
    assert_eq!(u.groups[0].bindings[1].buffer.contents, vec![0u8; 4]);
    assert!(u.handle_edit(UniformEditEvent::UpdateBuffer(0, 1)));
    assert_eq!(u.groups[0].bindings[1].buffer.contents, 6.5f32.to_le_bytes().to_vec());
    assert_eq!(u.groups[0].bindings[1].buffer.generation, 0);
}

#[test]
fn requests_that_do_not_fit_the_set_change_nothing() {
    let mut u = Uniforms::new();
    u.add_f32(0);
    let refused = [
        UniformEditEvent::UpdateBuffer(0, 2),
        UniformEditEvent::UpdateBuffer(2, 0),
        UniformEditEvent::AddUniform(2),
        UniformEditEvent::ChangeType(UniformType::Transform, 0, 0),
        UniformEditEvent::ChangeType(UniformType::Transform, 1, 0),
        UniformEditEvent::ChangeType(UniformType::Transform, 0, 5),
        UniformEditEvent::Increase(0, 0),
        UniformEditEvent::Decrease(1, 0),
        UniformEditEvent::Increase(9, 9),
        UniformEditEvent::ChangeInnerType(ScalarType::U32, 0, 1),
        UniformEditEvent::ChangeMatrixSize(MatrixType::M2x2, 0, 1),
        UniformEditEvent::ChangeMatrixSize(MatrixType::M2x2, 3, 1),
    ];
    for event in refused {
        assert!(!u.handle_edit(event), "for {:?}", event);
    }
    assert_eq!(u.groups.len(), 2);
    assert_eq!(u.groups[0].bindings.len(), 2);
    assert_eq!(value(&u, 0, 0), UniformValue::BuiltIn(BuiltinValue::Time));
    assert_eq!(value(&u, 0, 1), UniformValue::Scalar(ScalarUniformValue::F32(float(0.0))));
    assert_eq!(value(&u, 1, 0), Uniforms::default_camera());
}

#[test]
fn an_integer_at_the_end_of_its_range_stays() {
    let mut u = Uniforms::new();
    u.add_f32(0);
    u.groups[0].bindings[1].write(UniformValue::Scalar(ScalarUniformValue::U32(u32::MAX)));
    assert!(!u.handle_edit(UniformEditEvent::Increase(0, 1)));
    assert!(u.handle_edit(UniformEditEvent::Decrease(0, 1)));
    assert_eq!(value(&u, 0, 1), UniformValue::Scalar(ScalarUniformValue::U32(u32::MAX - 1)));
    u.groups[0].bindings[1].write(UniformValue::Scalar(ScalarUniformValue::U32(0)));
    assert!(!u.handle_edit(UniformEditEvent::Decrease(0, 1)));
    u.groups[0].bindings[1].write(UniformValue::Scalar(ScalarUniformValue::I32(i32::MIN)));
    assert!(!u.handle_edit(UniformEditEvent::Decrease(0, 1)));
    assert!(u.handle_edit(UniformEditEvent::Increase(0, 1)));
    u.groups[0].bindings[1].write(UniformValue::Scalar(ScalarUniformValue::I32(i32::MAX)));
    assert!(!u.handle_edit(UniformEditEvent::Increase(0, 1)));
    assert_eq!(value(&u, 0, 1), UniformValue::Scalar(ScalarUniformValue::I32(i32::MAX)));
}

fn camera_enabled(u: &Uniforms) -> bool {
    match value(u, 1, 0) {
        UniformValue::BuiltIn(BuiltinValue::Camera { enabled, .. }) => enabled,
        other => panic!("not a camera: {:?}", other),
    }
}

#[test]
fn the_camera_is_enabled_for_every_mesh_but_the_screen() {
    let mut u = Uniforms::new();
    u.auto_enable_camera(&MeshConfig::Plane((float(1.0), float(1.0)), (1, 1)));
    assert!(camera_enabled(&u));
    u.auto_enable_camera(&MeshConfig::Screen2D);
    assert!(!camera_enabled(&u));
    for mesh in [MeshConfig::Sphere, MeshConfig::Cube, MeshConfig::Cylinder, MeshConfig::Cone, MeshConfig::Torus] {
        u.auto_enable_camera(&MeshConfig::Screen2D);
        u.auto_enable_camera(&mesh);
        assert!(camera_enabled(&u));
    }
}

#[test]
fn the_labels_of_shapes() {
    assert_eq!(ScalarType::U32.label(), "u32");
    assert_eq!(ScalarType::I32.label(), "i32");
    assert_eq!(ScalarType::F32.label(), "f32");
    assert_eq!(UniformType::Scalar(ScalarType::I32).label(), "i32");
    assert_eq!(UniformType::Vec(VecType::Vec2(ScalarType::U32)).label(), "vec2");
    assert_eq!(UniformType::Vec(VecType::Vec3(ScalarType::U32)).label(), "vec3");
    assert_eq!(UniformType::Vec(VecType::Vec4(ScalarType::F32)).label(), "vec4");
    assert_eq!(UniformType::Matrix(MatrixType::M3x3).label(), "matrix");
    assert_eq!(UniformType::Transform.label(), "transform");
    assert_eq!(MatrixType::M2x2.label(), "2x2");
    assert_eq!(MatrixType::M3x4.label(), "3x4");
    assert_eq!(MatrixType::M4x2.label(), "4x2");
}

#[test]
fn from_u64_agrees_with_the_numeric_cast() {
    let mut x: u64 = 0x9e37_79b9_7f4a_7c15;
    let mut values: Vec<u64> = vec![
        0, 1, 0xff_ffff, 0x100_0000, 0x100_0001, 0xffff_ffff, 0x1_0000_0000, 0x1_0000_0001,
        0x1ff_ffff_ffff, 0x7fff_ffff_ffff_ffff, 0xffff_ff7f_ffff_ffff, 0xffff_ff80_0000_0000,
        0xffff_ffff_ffff_ffff,
    ];
    for _ in 0..20000 {
        x ^= x << 13;
        x ^= x >> 7;
        x ^= x << 17;
        values.push(x);
        values.push(x >> (x % 64));
    }
    for v in values {
        assert_eq!(Float::from_u64(v).to_bits(), (v as f32).to_bits(), "for {}", v);
    }
}
