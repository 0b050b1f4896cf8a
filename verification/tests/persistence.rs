use uniform_bindings::float::Float;
use uniform_bindings::json::{Json, Member, Number};
use uniform_bindings::uniform_types::matrix::{Column3, MatrixType, MatrixUniformValue};
use uniform_bindings::uniform_types::scalar::{ScalarType, ScalarUniformValue};
use uniform_bindings::uniform_types::transform::{
    Matrix4, Quaternion, TransformUniformValue, Vector3,
};
use uniform_bindings::uniform_types::vector::{
    Vec2UniformValue, Vec3UniformValue, Vec4UniformValue, VecType, VectorUniformValue,
};
use uniform_bindings::uniform_types::{BuiltinValue, CameraMatrices, Point3, UniformType, UniformValue};
use uniform_bindings::uniforms::Uniforms;

fn float(v: f32) -> Float {
    Float::from_bits(v.to_bits())
}

fn to_serde(j: &Json) -> serde_json::Value {
    match j {
        Json::Null => serde_json::Value::Null,
        Json::Bool(b) => serde_json::Value::Bool(*b),
        Json::Number(n) => {
            if let Some(u) = n.unsigned {
                serde_json::Value::from(u)
            } else if let Some(i) = n.signed {
                serde_json::Value::from(i)
            } else {
                serde_json::Value::from(f32::from_bits(n.float.to_bits()))
            }
        }
        Json::String(s) => serde_json::Value::String(s.clone()),
        Json::Array(items) => serde_json::Value::Array(items.iter().map(to_serde).collect()),
        Json::Object(members) => {
            let mut map = serde_json::Map::new();
            for m in members {
                map.insert(m.key.clone(), to_serde(&m.value));
            }
            serde_json::Value::Object(map)
        }
    }
}

fn from_serde(v: &serde_json::Value) -> Json {
    match v {
        serde_json::Value::Null => Json::Null,
        serde_json::Value::Bool(b) => Json::Bool(*b),
        serde_json::Value::Number(n) => Json::Number(Number {
            unsigned: n.as_u64(),
            signed: n.as_i64(),
            float: Float::from_bits((n.as_f64().unwrap_or(0.0) as f32).to_bits()),
        }),
        serde_json::Value::String(s) => Json::String(s.clone()),
        serde_json::Value::Array(items) => Json::Array(items.iter().map(from_serde).collect()),
        serde_json::Value::Object(map) => Json::Object(
            map.iter().map(|(k, v)| Member { key: k.clone(), value: from_serde(v) }).collect(),
        ),
    }
}

fn through_text(j: &Json) -> Json {
    let text = serde_json::to_string(&to_serde(j)).unwrap();
    from_serde(&serde_json::from_str::<serde_json::Value>(&text).unwrap())
}

fn parse(text: &str) -> Json {
    from_serde(&serde_json::from_str::<serde_json::Value>(text).unwrap())
}

fn speed_and_color() -> Uniforms {
    let mut u = Uniforms::new();
    u.add_f32(0);
    u.groups[0].set_name(1, "speed".to_string());
    u.groups[0].bindings[1].write(UniformValue::Scalar(ScalarUniformValue::F32(float(2.5))));
    u.add_f32(1);
    u.groups[1].set_name(1, "color".to_string());
    u.groups[1].bindings[1].write(UniformValue::Vector(VectorUniformValue::Vec3(
        Vec3UniformValue::F32(float(1.0), float(2.0), float(3.0)),
    )));
    u.groups[1].refresh_bind_group();
    u
}

fn names_and_values(u: &Uniforms) -> Vec<Vec<(String, UniformValue)>> {
    u.groups
        .iter()
        .map(|g| g.bindings.iter().map(|b| (b.name.clone(), b.value)).collect())
        .collect()
}

#[test]
fn a_saved_set_is_loaded_as_it_was() {
    let u = speed_and_color();
    let file = u.save(Json::Null, "shader.wgsl");
    let loaded = Uniforms::load(&file, "shader.wgsl").expect("the set that was saved");
    assert_eq!(loaded.time_uniform_location, (0, 0));
    assert_eq!(loaded.camera_uniform_location, (1, 0));
    assert_eq!(names_and_values(&loaded), names_and_values(&u));
    assert_eq!(loaded.groups[0].bindings[1].name, "speed");
    assert_eq!(
        loaded.groups[0].bindings[1].value,
        UniformValue::Scalar(ScalarUniformValue::F32(float(2.5)))
    );
    assert_eq!(loaded.groups[1].bindings[1].name, "color");
    assert_eq!(
        loaded.groups[1].bindings[1].value,
        UniformValue::Vector(VectorUniformValue::Vec3(Vec3UniformValue::F32(
            float(1.0),
            float(2.0),
            float(3.0)
        )))
    );
    assert_eq!(loaded.groups[1].bindings[1].buffer.contents, loaded.groups[1].bindings[1].value.to_le_bytes());
    assert_eq!(loaded.groups[1].bind_group.entries.len(), 2);
}

#[test]
fn a_saved_set_survives_the_text_of_a_file() {
    let u = speed_and_color();
    let file = through_text(&u.save(Json::Null, "shader.wgsl"));
    let loaded = Uniforms::load(&file, "shader.wgsl").expect("the set that was saved");
    assert_eq!(loaded.time_uniform_location, u.time_uniform_location);
    assert_eq!(loaded.camera_uniform_location, u.camera_uniform_location);
    assert_eq!(names_and_values(&loaded), names_and_values(&u));
}

fn every_family() -> Vec<UniformValue> {
    vec![
        UniformValue::BuiltIn(BuiltinValue::Time),
        UniformValue::BuiltIn(BuiltinValue::Camera {
            position: Point3 { x: float(1.0), y: float(-2.5), z: float(0.1) },
            yaw: float(0.3),
            pitch: float(-0.7),
            enabled: true,
            resolved: CameraMatrices::identity(),
        }),
        UniformValue::Scalar(ScalarUniformValue::U32(u32::MAX)),
        UniformValue::Scalar(ScalarUniformValue::I32(i32::MIN)),
        UniformValue::Scalar(ScalarUniformValue::I32(-1)),
        UniformValue::Scalar(ScalarUniformValue::F32(float(2.5))),
        UniformValue::Scalar(ScalarUniformValue::F32(float(-0.1))),
        UniformValue::Scalar(ScalarUniformValue::F32(float(3.0))),
        UniformValue::Scalar(ScalarUniformValue::F32(float(f32::MAX))),
        UniformValue::Scalar(ScalarUniformValue::F32(float(1.0e-40))),
        UniformValue::Vector(VectorUniformValue::Vec2(Vec2UniformValue::U32(0, 7))),
        UniformValue::Vector(VectorUniformValue::Vec3(Vec3UniformValue::I32(-3, 0, 3))),
        UniformValue::Vector(VectorUniformValue::Vec4(Vec4UniformValue::F32(
            float(0.25),
            float(0.5),
            float(0.75),
            float(1.0),
        ))),
        UniformValue::Matrix(MatrixUniformValue::M2x3(
            Column3(float(1.0), float(2.0), float(3.0)),
            Column3(float(4.0), float(5.0), float(6.5)),
        )),
        UniformValue::Matrix(MatrixUniformValue::zero(MatrixType::M4x4)),
        UniformValue::Matrix(MatrixUniformValue::zero(MatrixType::M3x2)),
        UniformValue::Transform(TransformUniformValue::new(
            Vector3 { x: float(1.0), y: float(2.0), z: float(3.0) },
            float(2.0),
            float(0.5),
            float(1.5),
            Quaternion { s: float(1.0), v: Vector3 { x: float(0.0), y: float(0.25), z: float(0.0) } },
            Matrix4::identity(),
        )),
    ]
}

#[test]
fn every_family_is_read_back_from_its_record() {
    for v in every_family() {
        let record = v.to_json();
        assert_eq!(UniformValue::from_json(&record), Some(v), "for {:?}", v);
        assert_eq!(UniformValue::from_json(&through_text(&record)), Some(v), "for {:?}", v);
    }
}

#[test]
fn matrices_are_not_saved() {
    let mut t = TransformUniformValue::default();
    let mut m = Matrix4::identity();
    m.x.0 = float(9.0);
    t.resolve(m);
    let loaded = UniformValue::from_json(&UniformValue::Transform(t).to_json());
    assert_eq!(loaded, Some(UniformValue::Transform(TransformUniformValue::default())));
}

#[test]
fn the_record_of_a_scalar() {
    let record = to_serde(&UniformValue::Scalar(ScalarUniformValue::F32(float(2.5))).to_json());
    let expected: serde_json::Value =
        serde_json::from_str(r#"{"outer_type":"scalar","innertype":"f32","value":2.5}"#).unwrap();
    assert_eq!(record, expected);
    let record = to_serde(&UniformValue::Scalar(ScalarUniformValue::I32(-4)).to_json());
    let expected: serde_json::Value =
        serde_json::from_str(r#"{"outer_type":"scalar","innertype":"i32","value":-4}"#).unwrap();
    assert_eq!(record, expected);
}

#[test]
fn the_record_of_a_vector() {
    let v = UniformValue::Vector(VectorUniformValue::Vec3(Vec3UniformValue::U32(1, 2, 3)));
    let expected: serde_json::Value = serde_json::from_str(
        r#"{"outer_type":"vector","innertype":"vec3","innertype2":"u32","item0":1,"item1":2,"item2":3}"#,
    )
    .unwrap();
    assert_eq!(to_serde(&v.to_json()), expected);
}

#[test]
fn the_record_of_a_matrix() {
    let m = UniformValue::Matrix(MatrixUniformValue::M2x3(
        Column3(float(1.0), float(2.0), float(3.0)),
        Column3(float(4.0), float(5.0), float(6.5)),
    ));
    let expected: serde_json::Value = serde_json::from_str(
        r#"{"outer_type":"matrix","innertype":"mat2x3","columns":[[1.0,2.0,3.0],[4.0,5.0,6.5]]}"#,
    )
    .unwrap();
    assert_eq!(to_serde(&m.to_json()), expected);
}

#[test]
fn the_record_of_the_built_ins() {
    let expected: serde_json::Value =
        serde_json::from_str(r#"{"outer_type":"builtin","innertype":"time"}"#).unwrap();
    assert_eq!(to_serde(&UniformValue::BuiltIn(BuiltinValue::Time).to_json()), expected);
    let camera = UniformValue::BuiltIn(BuiltinValue::Camera {
        position: Point3 { x: float(1.0), y: float(2.0), z: float(3.0) },
        yaw: float(0.5),
        pitch: float(-0.5),
        enabled: true,
        resolved: CameraMatrices::identity(),
    });
    let expected: serde_json::Value = serde_json::from_str(
        r#"{"outer_type":"builtin","innertype":"camera","position":[1.0,2.0,3.0],"yaw":0.5,"pitch":-0.5,"enabled":true}"#,
    )
    .unwrap();
    assert_eq!(to_serde(&camera.to_json()), expected);
}

#[test]
fn the_record_of_a_transform() {
    let expected: serde_json::Value = serde_json::from_str(
        r#"{"outer_type":"transform","translation":[0.0,0.0,0.0],"scale":[1.0,1.0,1.0],"rotation":[0.0,0.0,0.0,0.0]}"#,
    )
    .unwrap();
    assert_eq!(
        to_serde(&UniformValue::Transform(TransformUniformValue::default()).to_json()),
        expected
    );
}

#[test]
fn whole_numbers_are_read_as_binary32_where_that_is_asked() {
    let v = UniformValue::from_json(&parse(r#"{"outer_type":"scalar","innertype":"f32","value":3}"#));
    assert_eq!(v, Some(UniformValue::Scalar(ScalarUniformValue::F32(float(3.0)))));
    let v = UniformValue::from_json(&parse(
        r#"{"outer_type":"vector","innertype":"vec2","innertype2":"f32","item0":-1,"item1":0.5}"#,
    ));
    assert_eq!(
        v,
        Some(UniformValue::Vector(VectorUniformValue::Vec2(Vec2UniformValue::F32(
            float(-1.0),
            float(0.5)
        ))))
    );
}

#[test]
fn integers_are_cut_to_32_bits() {
    let v = UniformValue::from_json(&parse(
        r#"{"outer_type":"scalar","innertype":"u32","value":4294967301}"#,
    ));
    assert_eq!(v, Some(UniformValue::Scalar(ScalarUniformValue::U32(5))));
    let v = UniformValue::from_json(&parse(
        r#"{"outer_type":"scalar","innertype":"i32","value":-4294967297}"#,
    ));
    assert_eq!(v, Some(UniformValue::Scalar(ScalarUniformValue::I32(-1))));
    let v = UniformValue::from_json(&parse(
        r#"{"outer_type":"scalar","innertype":"i32","value":2147483648}"#,
    ));
    assert_eq!(v, Some(UniformValue::Scalar(ScalarUniformValue::I32(i32::MIN))));
}

#[test]
fn malformed_records_are_no_values() {
    let cases = [
        r#"{}"#,
        r#"[]"#,
        r#"{"outer_type":"scalar"}"#,
        r#"{"outer_type":"scalar","innertype":"f32"}"#,
        r#"{"outer_type":"scalar","innertype":"f16","value":1}"#,
        r#"{"outer_type":"scalar","innertype":"u32","value":-1}"#,
        r#"{"outer_type":"scalar","innertype":"u32","value":1.5}"#,
        r#"{"outer_type":"scalar","innertype":"i32","value":"1"}"#,
        r#"{"outer_type":"scalar","innertype":"f32","value":null}"#,
        r#"{"outer_type":"scalar","innertype":7,"value":1}"#,
        r#"{"outer_type":"tensor","innertype":"f32","value":1}"#,
        r#"{"outer_type":7}"#,
        r#"{"outer_type":"vector","innertype":"vec3","innertype2":"u32","item0":1,"item1":2}"#,
        r#"{"outer_type":"vector","innertype":"vec5","innertype2":"u32","item0":1,"item1":2}"#,
        r#"{"outer_type":"vector","innertype":"vec2","item0":1,"item1":2}"#,
        r#"{"outer_type":"matrix","innertype":"mat2x2","columns":[[1,2]]}"#,
        r#"{"outer_type":"matrix","innertype":"mat2x2","columns":[[1,2],[3,4,5]]}"#,
        r#"{"outer_type":"matrix","innertype":"mat2x2","columns":[[1,2],[3,"4"]]}"#,
        r#"{"outer_type":"matrix","innertype":"2x2","columns":[[1,2],[3,4]]}"#,
        r#"{"outer_type":"matrix","innertype":"mat2x2"}"#,
        r#"{"outer_type":"transform","translation":[0,0,0],"scale":[1,1,1]}"#,
        r#"{"outer_type":"transform","translation":[0,0],"scale":[1,1,1],"rotation":[0,0,0,1]}"#,
        r#"{"outer_type":"builtin"}"#,
        r#"{"outer_type":"builtin","innertype":"clock"}"#,
        r#"{"outer_type":"builtin","innertype":"camera","position":[1,2,3],"yaw":0,"pitch":0}"#,
        r#"{"outer_type":"builtin","innertype":"camera","position":[1,2],"yaw":0,"pitch":0,"enabled":true}"#,
        r#"{"outer_type":"builtin","innertype":"camera","position":[1,2,3],"yaw":0,"pitch":0,"enabled":1}"#,
    ];
    for text in cases {
        assert_eq!(UniformValue::from_json(&parse(text)), None, "for {}", text);
    }
}

#[test]
fn further_columns_are_not_looked_at() {
    let v = UniformValue::from_json(&parse(
        r#"{"outer_type":"matrix","innertype":"mat2x2","columns":[[1,2],[3,4],"more"]}"#,
    ));
    assert_eq!(v.and_then(|m| m.get_type()), Some(UniformType::Matrix(MatrixType::M2x2)));
}

#[test]
fn a_number_that_is_not_finite_cannot_be_saved() {
    let mut u = speed_and_color();
    u.groups[0].bindings[1].write(UniformValue::Scalar(ScalarUniformValue::F32(float(f32::NAN))));
    let file = u.save(Json::Null, "shader.wgsl");
    assert!(Uniforms::load(&file, "shader.wgsl").is_none());
    let loaded = Uniforms::load_uniforms(&file, "shader.wgsl");
    assert_eq!(names_and_values(&loaded), names_and_values(&Uniforms::new()));
}

#[test]
fn a_set_needs_exactly_one_time_and_one_camera() {
    let time = r#"{"name":"t","value":{"outer_type":"builtin","innertype":"time"}}"#;
    let camera = r#"{"name":"c","value":{"outer_type":"builtin","innertype":"camera","position":[1,2,3],"yaw":0,"pitch":0,"enabled":false}}"#;
    let scalar = r#"{"name":"s","value":{"outer_type":"scalar","innertype":"u32","value":1}}"#;
    let set = |groups: String| {
        parse(&format!(
            r#"{{"time_uniform_location":[0,0],"camera_uniform_location":[1,0],"groups":{}}}"#,
            groups
        ))
    };
    let good = set(format!("[[{}],[{},{}]]", time, camera, scalar));
    let loaded = Uniforms::from_json(&good).expect("one time and one camera");
    assert_eq!(loaded.groups.len(), 2);
    assert_eq!(loaded.groups[1].bindings[1].name, "s");
    assert_eq!(loaded.groups[1].bindings[0].buffer.contents.len(), 272);
    assert!(Uniforms::from_json(&set(format!("[[{}],[{}]]", scalar, camera))).is_none());
    assert!(Uniforms::from_json(&set(format!("[[{}],[{}]]", time, scalar))).is_none());
    assert!(Uniforms::from_json(&set(format!("[[{},{}],[{}]]", time, time, camera))).is_none());
    assert!(Uniforms::from_json(&set(format!("[[{}],[{}],[{}]]", time, camera, camera))).is_none());
    assert!(Uniforms::from_json(&set("[]".to_string())).is_none());
    assert!(Uniforms::from_json(&set(format!("[[{}],{}]", time, camera))).is_none());
    assert!(Uniforms::from_json(&set(format!("[[{}],[{},7]]", time, camera))).is_none());
}

#[test]
fn a_set_needs_both_places() {
    let groups = r#"[[{"name":"t","value":{"outer_type":"builtin","innertype":"time"}}],[{"name":"c","value":{"outer_type":"builtin","innertype":"camera","position":[1,2,3],"yaw":0,"pitch":0,"enabled":false}}]]"#;
    let cases = [
        format!(r#"{{"camera_uniform_location":[1,0],"groups":{}}}"#, groups),
        format!(r#"{{"time_uniform_location":[0,0],"groups":{}}}"#, groups),
        format!(r#"{{"time_uniform_location":[0],"camera_uniform_location":[1,0],"groups":{}}}"#, groups),
        format!(r#"{{"time_uniform_location":[0,-1],"camera_uniform_location":[1,0],"groups":{}}}"#, groups),
        format!(r#"{{"time_uniform_location":[0,0],"camera_uniform_location":[1,0.5],"groups":{}}}"#, groups),
        format!(r#"{{"time_uniform_location":"0,0","camera_uniform_location":[1,0],"groups":{}}}"#, groups),
        r#"{"time_uniform_location":[0,0],"camera_uniform_location":[1,0]}"#.to_string(),
        r#"{"time_uniform_location":[0,0],"camera_uniform_location":[1,0],"groups":{}}"#.to_string(),
    ];
    for text in cases.iter() {
        assert!(Uniforms::from_json(&parse(text)).is_none(), "for {}", text);
    }
    let good = format!(
        r#"{{"time_uniform_location":[0,0,9],"camera_uniform_location":[1,0],"groups":{}}}"#,
        groups
    );
    assert!(Uniforms::from_json(&parse(&good)).is_some());
}

#[test]
fn saving_keeps_what_the_file_holds_for_other_shaders() {
    let first = speed_and_color();
    let second = Uniforms::new();
    let file = first.save(Json::Null, "a.wgsl");
    let file = second.save(file, "b.wgsl");
    let file = first.save(file, "c.wgsl");
    let file = second.save(file, "a.wgsl");
    match &file {
        Json::Object(members) => {
            let keys: Vec<&str> = members.iter().map(|m| m.key.as_str()).collect();
            assert_eq!(keys, vec!["a.wgsl", "b.wgsl", "c.wgsl"]);
        }
        _ => panic!("not an object"),
    }
    let a = Uniforms::load(&file, "a.wgsl").unwrap();
    let c = Uniforms::load(&file, "c.wgsl").unwrap();
    assert_eq!(names_and_values(&a), names_and_values(&second));
    assert_eq!(names_and_values(&c), names_and_values(&first));
    assert!(Uniforms::load(&file, "d.wgsl").is_none());
}

#[test]
fn a_file_without_the_shader_gives_the_default_set() {
    let loaded = Uniforms::load_uniforms(&Json::Null, "shader.wgsl");
    assert_eq!(names_and_values(&loaded), names_and_values(&Uniforms::new()));
    assert_eq!(loaded.time_uniform_location, (0, 0));
    assert_eq!(loaded.camera_uniform_location, (1, 0));
    let loaded = Uniforms::load_uniforms(&parse(r#"{"shader.wgsl":{"groups":[]}}"#), "shader.wgsl");
    assert_eq!(names_and_values(&loaded), names_and_values(&Uniforms::new()));
}

#[test]
fn the_first_member_of_a_name_is_the_one_found() {
    let record = Json::Object(vec![
        Member { key: "a".to_string(), value: Json::from_u32(1) },
        Member { key: "b".to_string(), value: Json::from_u32(2) },
        Member { key: "a".to_string(), value: Json::from_u32(3) },
    ]);
    assert_eq!(record.get("a").and_then(|j| j.as_u32()), Some(1));
    assert_eq!(record.get("b").and_then(|j| j.as_u32()), Some(2));
    assert!(record.get("c").is_none());
    let record = record.insert("a", Json::from_i32(-9));
    assert_eq!(record.get("a").and_then(|j| j.as_i32()), Some(-9));
    assert_eq!(record.get("a").and_then(|j| j.as_u32()), None);
    let record = record.insert("c", Json::text("x"));
    assert_eq!(record.get("c").and_then(|j| j.as_str()), Some("x"));
    assert!(Json::Null.get("a").is_none());
}

#[test]
fn the_readings_of_numbers() {
    assert_eq!(Json::from_u32(7).as_u64(), Some(7));
    assert_eq!(Json::from_u32(7).as_float(), Some(float(7.0)));
    assert_eq!(Json::from_i32(-7).as_u64(), None);
    assert_eq!(Json::from_i32(-7).as_i32(), Some(-7));
    assert_eq!(Json::from_i32(-7).as_float(), Some(float(-7.0)));
    assert_eq!(Json::from_float(float(0.5)).as_float(), Some(float(0.5)));
    assert_eq!(Json::from_float(float(2.0)).as_u32(), None);
    assert_eq!(Json::from_float(float(2.0)).as_i32(), None);
    assert!(matches!(Json::from_float(float(f32::INFINITY)), Json::Null));
    assert!(matches!(Json::from_float(float(f32::NAN)), Json::Null));
    assert_eq!(Json::from_usize(12).as_u64(), Some(12));
    assert_eq!(Json::Bool(true).as_bool(), Some(true));
    assert_eq!(Json::Null.as_bool(), None);
    assert!(Json::text("x").as_array().is_none());
    assert!(Json::insert(Json::Null, "k", Json::Null).is_object());
}
