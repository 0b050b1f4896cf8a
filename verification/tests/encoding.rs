use uniform_bindings::float::Float;
use uniform_bindings::uniform_types::matrix::{
    Column2, Column3, Column4, MatrixType, MatrixUniformValue,
};
use uniform_bindings::uniform_types::scalar::{ScalarType, ScalarUniformValue};
use uniform_bindings::uniform_types::transform::{Matrix4, TransformUniformValue};
use uniform_bindings::uniform_types::vector::{
    Vec2UniformValue, Vec3UniformValue, Vec4UniformValue, VecType, VectorUniformValue,
};
use uniform_bindings::uniform_types::{
    BuiltinValue, CameraMatrices, Point3, UniformType, UniformValue,
};
use uniform_bindings::uniforms::Uniforms;

fn float(v: f32) -> Float {
    Float::from_bits(v.to_bits())
}

fn le(values: &[f32]) -> Vec<u8> {
    values.iter().flat_map(|v| v.to_le_bytes()).collect()
}

fn sample_values() -> Vec<UniformValue> {
    vec![
        UniformValue::Scalar(ScalarUniformValue::U32(0xdead_beef)),
        UniformValue::Scalar(ScalarUniformValue::I32(-123456)),
        UniformValue::Scalar(ScalarUniformValue::F32(float(2.5))),
        UniformValue::Scalar(ScalarUniformValue::F32(float(f32::NAN))),
        UniformValue::Vector(VectorUniformValue::Vec2(Vec2UniformValue::U32(1, 2))),
        UniformValue::Vector(VectorUniformValue::Vec2(Vec2UniformValue::F32(float(-0.0), float(1.5)))),
        UniformValue::Vector(VectorUniformValue::Vec3(Vec3UniformValue::I32(-1, 0, i32::MIN))),
        UniformValue::Vector(VectorUniformValue::Vec3(Vec3UniformValue::F32(
            float(1.0),
            float(2.0),
            float(3.0),
        ))),
        UniformValue::Vector(VectorUniformValue::Vec4(Vec4UniformValue::U32(1, 2, 3, u32::MAX))),
        UniformValue::Vector(VectorUniformValue::Vec4(Vec4UniformValue::I32(-1, -2, -3, -4))),
        UniformValue::Matrix(MatrixUniformValue::M2x2(
            Column2(float(1.0), float(2.0)),
            Column2(float(3.0), float(4.0)),
        )),
        UniformValue::Matrix(MatrixUniformValue::M3x3(
            Column3(float(1.0), float(2.0), float(3.0)),
            Column3(float(4.0), float(5.0), float(6.0)),
            Column3(float(7.0), float(8.0), float(9.0)),
        )),
        UniformValue::Matrix(MatrixUniformValue::M4x2(
            Column2(float(1.0), float(2.0)),
            Column2(float(3.0), float(4.0)),
            Column2(float(5.0), float(6.0)),
            Column2(float(7.0), float(8.0)),
        )),
        UniformValue::Matrix(MatrixUniformValue::M4x4(
            Column4(float(1.0), float(2.0), float(3.0), float(4.0)),
            Column4(float(5.0), float(6.0), float(7.0), float(8.0)),
            Column4(float(9.0), float(10.0), float(11.0), float(12.0)),
            Column4(float(13.0), float(14.0), float(15.0), float(16.0)),
        )),
    ]
}

#[test]
fn encoded_lengths_are_exact() {
    assert_eq!(UniformValue::Scalar(ScalarUniformValue::U32(1)).to_le_bytes().len(), 4);
    assert_eq!(UniformValue::Scalar(ScalarUniformValue::F32(float(1.0))).to_le_bytes().len(), 4);
    assert_eq!(
        UniformValue::Vector(VectorUniformValue::zero(VecType::Vec2(ScalarType::F32)))
            .to_le_bytes()
            .len(),
        8
    );
    assert_eq!(
        UniformValue::Vector(VectorUniformValue::zero(VecType::Vec3(ScalarType::U32)))
            .to_le_bytes()
            .len(),
        12
    );
    assert_eq!(
        UniformValue::Vector(VectorUniformValue::zero(VecType::Vec4(ScalarType::I32)))
            .to_le_bytes()
            .len(),
        16
    );
    assert_eq!(
        UniformValue::Matrix(MatrixUniformValue::zero(MatrixType::M4x4)).to_le_bytes().len(),
        64
    );
    assert_eq!(UniformValue::Transform(TransformUniformValue::default()).to_le_bytes().len(), 64);
    assert_eq!(UniformValue::BuiltIn(BuiltinValue::Time).to_le_bytes().len(), 4);
    assert_eq!(Uniforms::default_camera().to_le_bytes().len(), 272);
}

#[test]
fn every_matrix_column_takes_sixteen_bytes() {
    let shapes = [
        (MatrixType::M2x2, 32),
        (MatrixType::M2x3, 32),
        (MatrixType::M2x4, 32),
        (MatrixType::M3x2, 48),
        (MatrixType::M3x3, 48),
        (MatrixType::M3x4, 48),
        (MatrixType::M4x2, 64),
        (MatrixType::M4x3, 64),
        (MatrixType::M4x4, 64),
    ];
    for (shape, size) in shapes {
        let m = MatrixUniformValue::zero(shape);
        assert_eq!(m.get_type(), shape);
        assert_eq!(m.to_le_bytes(), vec![0u8; size]);
    }
}

#[test]
fn matrix_columns_are_padded_with_zeros() {
    let m = MatrixUniformValue::M2x3(
        Column3(float(1.0), float(2.0), float(3.0)),
        Column3(float(4.0), float(5.0), float(6.0)),
    );
    assert_eq!(m.to_le_bytes(), le(&[1.0, 2.0, 3.0, 0.0, 4.0, 5.0, 6.0, 0.0]));
    let n = MatrixUniformValue::M2x2(
        Column2(float(1.0), float(2.0)),
        Column2(float(3.0), float(4.0)),
    );
    assert_eq!(n.to_le_bytes(), le(&[1.0, 2.0, 0.0, 0.0, 3.0, 4.0, 0.0, 0.0]));
}

#[test]
fn vectors_encode_their_components_in_order() {
    let v = VectorUniformValue::Vec3(Vec3UniformValue::F32(float(1.0), float(2.0), float(3.0)));
    assert_eq!(v.to_le_bytes(), le(&[1.0, 2.0, 3.0]));
    let w = VectorUniformValue::Vec2(Vec2UniformValue::I32(-1, 2));
    assert_eq!(w.to_le_bytes(), vec![0xff, 0xff, 0xff, 0xff, 2, 0, 0, 0]);
    let u = VectorUniformValue::Vec4(Vec4UniformValue::U32(1, 0x100, 0x1_0000, 0x100_0000));
    assert_eq!(u.to_le_bytes(), vec![1, 0, 0, 0, 0, 1, 0, 0, 0, 0, 1, 0, 0, 0, 0, 1]);
}

#[test]
fn decode_inverts_encode() {
    for v in sample_values() {
        let t = v.get_type().unwrap();
        let bytes = v.to_le_bytes();
        assert_eq!(UniformValue::decode(t, &bytes), Some(v));
    }
}

#[test]
fn decode_rejects_a_wrong_number_of_bytes() {
    let t = UniformType::Vec(VecType::Vec3(ScalarType::F32));
    assert_eq!(UniformValue::decode(t, &vec![0u8; 16]), None);
    assert_eq!(UniformValue::decode(t, &vec![0u8; 11]), None);
    assert_eq!(UniformValue::decode(UniformType::Scalar(ScalarType::U32), &vec![]), None);
    assert_eq!(UniformValue::decode(UniformType::Matrix(MatrixType::M2x2), &vec![0u8; 16]), None);
}

#[test]
fn a_transform_has_no_decode() {
    assert_eq!(UniformValue::decode(UniformType::Transform, &vec![0u8; 64]), None);
    assert_eq!(UniformValue::Transform(TransformUniformValue::default()).get_type(), Some(UniformType::Transform));
    assert_eq!(UniformValue::BuiltIn(BuiltinValue::Time).get_type(), None);
}

#[test]
fn the_default_transform_encodes_the_identity() {
    let bytes = TransformUniformValue::default().to_le_bytes();
    let identity = le(&[
        1.0, 0.0, 0.0, 0.0, 0.0, 1.0, 0.0, 0.0, 0.0, 0.0, 1.0, 0.0, 0.0, 0.0, 0.0, 1.0,
    ]);
    assert_eq!(bytes, identity);
    assert_eq!(Matrix4::identity().to_le_bytes(), identity);
}

#[test]
fn a_resolved_transform_encodes_its_matrix() {
    let mut t = TransformUniformValue::default();
    let mut m = Matrix4::identity();
    m.w = Column4(float(5.0), float(6.0), float(7.0), float(1.0));
    t.resolve(m);
    let bytes = t.to_le_bytes();
    assert_eq!(bytes.len(), 64);
    assert_eq!(&bytes[48..], &le(&[5.0, 6.0, 7.0, 1.0])[..]);
    assert_eq!(t.x_scale, float(1.0));
}

#[test]
fn the_time_encodes_as_a_zero_word() {
    assert_eq!(BuiltinValue::Time.to_le_bytes(), vec![0, 0, 0, 0]);
}

fn shifted(by: f32) -> Matrix4 {
    let mut m = Matrix4::identity();
    m.w = Column4(float(by), float(by), float(by), float(1.0));
    m
}

fn camera(enabled: bool) -> BuiltinValue {
    BuiltinValue::Camera {
        position: Point3 { x: float(1.0), y: float(2.0), z: float(3.0) },
        yaw: float(0.25),
        pitch: float(-0.5),
        enabled,
        resolved: CameraMatrices {
            view: shifted(1.0),
            projection: shifted(2.0),
            inverse_view: shifted(3.0),
            inverse_projection: shifted(4.0),
        },
    }
}

#[test]
fn a_disabled_camera_shows_identity_matrices() {
    let bytes = camera(false).to_le_bytes();
    let identity = Matrix4::identity().to_le_bytes();
    assert_eq!(bytes.len(), 272);
    assert_eq!(&bytes[..16], &le(&[1.0, 2.0, 3.0, 0.0])[..]);
    for k in 0..4 {
        assert_eq!(&bytes[16 + 64 * k..16 + 64 * (k + 1)], &identity[..]);
    }
}

#[test]
fn an_enabled_camera_shows_view_projection_and_their_inverses_in_that_order() {
    let bytes = camera(true).to_le_bytes();
    assert_eq!(bytes.len(), 272);
    assert_eq!(&bytes[..16], &le(&[1.0, 2.0, 3.0, 0.0])[..]);
    for k in 0..4 {
        let expected = shifted((k + 1) as f32).to_le_bytes();
        assert_eq!(&bytes[16 + 64 * k..16 + 64 * (k + 1)], &expected[..]);
    }
}

#[test]
fn calc_matrix_keeps_the_position() {
    let shown = camera(true).calc_matrix();
    assert_eq!(shown.position, Point3 { x: float(1.0), y: float(2.0), z: float(3.0) });
    assert_eq!(shown.view_matrix, shifted(1.0));
    assert_eq!(shown.inverse_projection_matrix, shifted(4.0));
    let hidden = camera(false).calc_matrix();
    assert_eq!(hidden.view_matrix, Matrix4::identity());
    assert_eq!(hidden.to_le_bytes(), camera(false).to_le_bytes());
}
