use uniform_bindings::float::Float;
use uniform_bindings::uniform_types::matrix::{Column2, MatrixType, MatrixUniformValue};
use uniform_bindings::uniform_types::scalar::{ScalarType, ScalarUniformValue};
use uniform_bindings::uniform_types::transform::{Matrix4, TransformUniformValue};
use uniform_bindings::uniform_types::vector::{
    Vec2UniformValue, Vec3UniformValue, Vec4UniformValue, VecType, VectorUniformValue,
};
use uniform_bindings::uniform_types::{UniformType, UniformValue};

fn float(v: f32) -> Float {
    Float::from_bits(v.to_bits())
}

fn vec3f(x: f32, y: f32, z: f32) -> VectorUniformValue {
    VectorUniformValue::Vec3(Vec3UniformValue::F32(float(x), float(y), float(z)))
}

#[test]
fn a_scalar_becomes_the_first_component_of_a_vector() {
    let s = UniformValue::Scalar(ScalarUniformValue::U32(9));
    assert_eq!(
        s.cast_to(UniformType::Vec(VecType::Vec3(ScalarType::U32))),
        UniformValue::Vector(VectorUniformValue::Vec3(Vec3UniformValue::U32(9, 0, 0)))
    );
    assert_eq!(
        s.cast_to(UniformType::Vec(VecType::Vec2(ScalarType::F32))),
        UniformValue::Vector(VectorUniformValue::Vec2(Vec2UniformValue::F32(float(9.0), float(0.0))))
    );
    let f = UniformValue::Scalar(ScalarUniformValue::F32(float(-2.9)));
    assert_eq!(
        f.cast_to(UniformType::Vec(VecType::Vec4(ScalarType::I32))),
        UniformValue::Vector(VectorUniformValue::Vec4(Vec4UniformValue::I32(-2, 0, 0, 0)))
    );
}

#[test]
fn a_vector_becomes_its_first_component() {
    let v = UniformValue::Vector(vec3f(7.9, 8.0, 9.0));
    assert_eq!(
        v.cast_to(UniformType::Scalar(ScalarType::U32)),
        UniformValue::Scalar(ScalarUniformValue::U32(7))
    );
    assert_eq!(
        v.cast_to(UniformType::Scalar(ScalarType::F32)),
        UniformValue::Scalar(ScalarUniformValue::F32(float(7.9)))
    );
    let w = UniformValue::Vector(VectorUniformValue::Vec2(Vec2UniformValue::I32(-4, 5)));
    assert_eq!(
        w.cast_to(UniformType::Scalar(ScalarType::U32)),
        UniformValue::Scalar(ScalarUniformValue::U32(0))
    );
}

#[test]
fn a_longer_vector_keeps_the_components_and_fills_with_zeros() {
    let v = VectorUniformValue::Vec2(Vec2UniformValue::U32(3, 4));
    assert_eq!(
        v.cast_to_vec(VecType::Vec3(ScalarType::U32)),
        VectorUniformValue::Vec3(Vec3UniformValue::U32(3, 4, 0))
    );
    assert_eq!(
        v.cast_to_vec(VecType::Vec4(ScalarType::F32)),
        VectorUniformValue::Vec4(Vec4UniformValue::F32(
            float(3.0),
            float(4.0),
            float(0.0),
            float(0.0)
        ))
    );
    let w = VectorUniformValue::Vec3(Vec3UniformValue::I32(-1, -2, -3));
    assert_eq!(
        w.cast_to_vec(VecType::Vec4(ScalarType::I32)),
        VectorUniformValue::Vec4(Vec4UniformValue::I32(-1, -2, -3, 0))
    );
}

#[test]
fn a_shorter_vector_keeps_the_first_components() {
    let v = VectorUniformValue::Vec4(Vec4UniformValue::I32(-1, 2, -3, 4));
    assert_eq!(
        v.cast_to_vec(VecType::Vec2(ScalarType::U32)),
        VectorUniformValue::Vec2(Vec2UniformValue::U32(0, 2))
    );
    assert_eq!(
        v.cast_to_vec(VecType::Vec3(ScalarType::F32)),
        VectorUniformValue::Vec3(Vec3UniformValue::F32(float(-1.0), float(2.0), float(-3.0)))
    );
    assert_eq!(v.cast_to_vec(VecType::Vec4(ScalarType::I32)), v);
}

#[test]
fn change_inner_type_converts_every_component() {
    let mut v = vec3f(1.9, -2.9, 3.0e10);
    v.change_inner_type(ScalarType::I32);
    assert_eq!(v, VectorUniformValue::Vec3(Vec3UniformValue::I32(1, -2, i32::MAX)));
    v.change_inner_type(ScalarType::U32);
    assert_eq!(v, VectorUniformValue::Vec3(Vec3UniformValue::U32(1, 0, 2147483647)));
    v.change_inner_type(ScalarType::F32);
    assert_eq!(v, vec3f(1.0, 0.0, 2147483647.0));
    let mut w = UniformValue::Vector(VectorUniformValue::Vec2(Vec2UniformValue::U32(u32::MAX, 1)));
    w.change_inner_type(ScalarType::I32);
    assert_eq!(w, UniformValue::Vector(VectorUniformValue::Vec2(Vec2UniformValue::I32(-1, 1))));
}

#[test]
fn every_cast_to_a_matrix_gives_the_zero_matrix() {
    let sources = [
        UniformValue::Scalar(ScalarUniformValue::F32(float(4.0))),
        UniformValue::Vector(vec3f(1.0, 2.0, 3.0)),
        UniformValue::Matrix(MatrixUniformValue::M2x2(
            Column2(float(1.0), float(2.0)),
            Column2(float(3.0), float(4.0)),
        )),
        UniformValue::Transform(TransformUniformValue::default()),
    ];
    for source in sources {
        for shape in [MatrixType::M2x2, MatrixType::M3x4, MatrixType::M4x4] {
            assert_eq!(
                source.cast_to(UniformType::Matrix(shape)),
                UniformValue::Matrix(MatrixUniformValue::zero(shape))
            );
        }
    }
}

#[test]
fn every_cast_to_a_transform_gives_the_default_transform() {
    let mut moved = TransformUniformValue::default();
    moved.translation.x = float(4.0);
    moved.resolve(Matrix4::identity());
    let sources = [
        UniformValue::Scalar(ScalarUniformValue::I32(4)),
        UniformValue::Vector(vec3f(1.0, 2.0, 3.0)),
        UniformValue::Matrix(MatrixUniformValue::zero(MatrixType::M3x3)),
        UniformValue::Transform(moved),
    ];
    for source in sources {
        assert_eq!(
            source.cast_to(UniformType::Transform),
            UniformValue::Transform(TransformUniformValue::default())
        );
    }
}

#[test]
fn a_matrix_and_a_transform_carry_nothing_over() {
    let m = UniformValue::Matrix(MatrixUniformValue::M2x2(
        Column2(float(1.0), float(2.0)),
        Column2(float(3.0), float(4.0)),
    ));
    let t = UniformValue::Transform(TransformUniformValue::default());
    for source in [m, t] {
        assert_eq!(
            source.cast_to(UniformType::Scalar(ScalarType::F32)),
            UniformValue::Scalar(ScalarUniformValue::F32(float(0.0)))
        );
        assert_eq!(
            source.cast_to(UniformType::Scalar(ScalarType::I32)),
            UniformValue::Scalar(ScalarUniformValue::I32(0))
        );
        assert_eq!(
            source.cast_to(UniformType::Vec(VecType::Vec4(ScalarType::U32))),
            UniformValue::Vector(VectorUniformValue::Vec4(Vec4UniformValue::U32(0, 0, 0, 0)))
        );
    }
}

#[test]
fn change_matrix_size_resets_the_matrix() {
    let mut m = UniformValue::Matrix(MatrixUniformValue::M2x2(
        Column2(float(1.0), float(2.0)),
        Column2(float(3.0), float(4.0)),
    ));
    m.change_matrix_size(MatrixType::M2x2);
    assert_eq!(m, UniformValue::Matrix(MatrixUniformValue::zero(MatrixType::M2x2)));
    m.change_matrix_size(MatrixType::M4x3);
    assert_eq!(m.to_le_bytes(), vec![0u8; 64]);
}

#[test]
fn the_default_transform_has_unit_scale_and_no_rotation() {
    let t = TransformUniformValue::default();
    assert_eq!(t.x_scale, float(1.0));
    assert_eq!(t.y_scale, float(1.0));
    assert_eq!(t.z_scale, float(1.0));
    assert_eq!(t.translation.y, float(0.0));
    assert_eq!(t.rotation.s, float(0.0));
    assert_eq!(t.matrix, Matrix4::identity());
}
