use cgmath::{Deg, Matrix4, Quaternion, Rad, Vector3};
use uniform_bindings::float::Float;
use uniform_bindings::uniform_types::transform::TransformUniformValue;
use uniform_bindings::uniform_types::{BuiltinValue, UniformValue};
use uniform_bindings::uniforms::Uniforms;

fn number(v: Float) -> f32 {
    f32::from_bits(v.to_bits())
}

fn bytes_of(m: Matrix4<f32>) -> Vec<u8> {
    let columns: [[f32; 4]; 4] = m.into();
    columns.iter().flat_map(|c| c.iter().flat_map(|v| v.to_le_bytes())).collect()
}

#[test]
fn the_default_parameters_resolve_to_the_default_matrix() {
    let t = TransformUniformValue::default();
    let translation = Vector3::new(
        number(t.translation.x),
        number(t.translation.y),
        number(t.translation.z),
    );
    let rotation = Quaternion::new(
        number(t.rotation.s),
        number(t.rotation.v.x),
        number(t.rotation.v.y),
        number(t.rotation.v.z),
    );
    let resolved = Matrix4::from_translation(translation)
        * Matrix4::from(rotation)
        * Matrix4::from_nonuniform_scale(number(t.x_scale), number(t.y_scale), number(t.z_scale));
    assert_eq!(t.to_le_bytes(), bytes_of(resolved));
}

#[test]
fn the_default_camera_is_turned_by_minus_45_degrees() {
    let angle: Rad<f32> = Deg(-45.0f32).into();
    match Uniforms::default_camera() {
        UniformValue::BuiltIn(BuiltinValue::Camera { yaw, pitch, .. }) => {
            assert_eq!(yaw.to_bits(), angle.0.to_bits());
            assert_eq!(pitch.to_bits(), angle.0.to_bits());
        }
        other => panic!("not a camera: {:?}", other),
    }
}
