use robot_arm::geometry::{saturate, Vertex};

#[test]
fn saturate_keeps_values_in_range() {
    assert_eq!(saturate(0), 0);
    assert_eq!(saturate(-430_000), -430_000);
    assert_eq!(saturate(i32::MAX as i128), i32::MAX);
    assert_eq!(saturate(i32::MIN as i128), i32::MIN);
}

#[test]
fn saturate_clamps_values_out_of_range() {
    assert_eq!(saturate(i32::MAX as i128 + 1), i32::MAX);
    assert_eq!(saturate(i32::MIN as i128 - 1), i32::MIN);
    assert_eq!(saturate(i128::MAX), i32::MAX);
    assert_eq!(saturate(i128::MIN), i32::MIN);
}

#[test]
fn offset_moves_both_coordinates() {
    let v = Vertex { x: 150_000, y: -450_000 };
    assert_eq!(v.offset(50_000, 100_000), Vertex { x: 200_000, y: -350_000 });
    assert_eq!(v.offset(0, 0), v);
}

#[test]
fn offset_saturates() {
    let v = Vertex { x: i32::MAX - 1, y: i32::MIN + 1 };
    assert_eq!(v.offset(5, -5), Vertex { x: i32::MAX, y: i32::MIN });
}
