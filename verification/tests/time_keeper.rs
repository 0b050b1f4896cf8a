use uniform_bindings::time_keeper::{millis_to_u32, TimeKeeper};
use uniform_bindings::uniform_types::{BuiltinValue, UniformValue};
use uniform_bindings::uniforms::Uniforms;

#[test]
fn a_new_clock_starts_at_its_last_frame() {
    let t = TimeKeeper::new();
    assert_eq!(t.last_render_time, t.starting_time);
}

#[test]
fn millis_wrap_around_at_32_bits() {
    assert_eq!(millis_to_u32(0), 0);
    assert_eq!(millis_to_u32(1234), 1234);
    assert_eq!(millis_to_u32(0xffff_ffff), 0xffff_ffff);
    assert_eq!(millis_to_u32(0x1_0000_0000), 0);
    assert_eq!(millis_to_u32(0x1_0000_0007), 7);
    assert_eq!(millis_to_u32(u128::MAX), 0xffff_ffff);
}

#[test]
fn update_time_writes_the_elapsed_time() {
    let mut t = TimeKeeper::new();
    let start = t.starting_time;
    let mut u = Uniforms::new();
    let waiting = std::time::Instant::now();
    while waiting.elapsed() < std::time::Duration::from_millis(30) {
        std::hint::spin_loop();
    }
    let dt = t.update_time(&mut u);
    assert!(dt >= std::time::Duration::from_millis(30));
    assert_eq!(t.starting_time, start);
    assert!(t.last_render_time > start);
    let bytes = &u.groups[0].bindings[0].buffer.contents;
    assert_eq!(bytes.len(), 4);
    let elapsed = u32::from_le_bytes([bytes[0], bytes[1], bytes[2], bytes[3]]);
    assert!(elapsed >= 30 && elapsed < 20000);
    assert_eq!(u.groups[0].bindings[0].value, UniformValue::BuiltIn(BuiltinValue::Time));
    assert_eq!(u.groups[0].bindings[0].buffer.generation, 0);
    let again = t.update_time(&mut u);
    assert!(again < std::time::Duration::from_millis(20000));
}
