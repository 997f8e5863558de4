use robot_arm::geometry::{Vertex, UNIT};
use robot_arm::rotation::{Rotation, NORM_SLACK, SCALE};

fn rounded(value: f64) -> i64 {
    (value * SCALE as f64).round() as i64
}

fn assert_turn_of_degrees(turn: Rotation, degrees: f64) {
    assert_eq!(turn.cos, rounded(degrees.to_radians().cos()));
    assert_eq!(turn.sin, rounded(degrees.to_radians().sin()));
}

#[test]
fn unit_is_a_millionth() {
    assert_eq!(UNIT, 1_000_000);
}

#[test]
fn arm_step_is_three_degrees() {
    assert_turn_of_degrees(Rotation::arm_step(), 3.0);
}

#[test]
fn grip_step_is_five_degrees() {
    assert_turn_of_degrees(Rotation::grip_step(), 5.0);
}

#[test]
fn outline_step_is_a_hundredth_of_a_turn() {
    assert_turn_of_degrees(Rotation::outline_step(), 3.6);
}

#[test]
fn quarter_clockwise_is_minus_ninety_degrees() {
    assert_eq!(Rotation::quarter_clockwise(), Rotation { cos: 0, sin: -SCALE });
}

#[test]
fn identity_has_unit_cosine() {
    assert_eq!(Rotation::identity(), Rotation { cos: SCALE, sin: 0 });
}

#[test]
fn new_accepts_rounded_cosine_and_sine() {
    for tenth in 0..3600 {
        let angle = (tenth as f64 / 10.0).to_radians();
        let cos = rounded(angle.cos());
        let sin = rounded(angle.sin());
        assert_eq!(Rotation::new(cos, sin), Some(Rotation { cos, sin }));
    }
}

#[test]
fn new_rejects_entries_out_of_range() {
    assert_eq!(Rotation::new(SCALE + 1, 0), None);
    assert_eq!(Rotation::new(0, -SCALE - 1), None);
    assert_eq!(Rotation::new(i64::MAX, i64::MIN), None);
}

#[test]
fn new_rejects_pairs_that_are_not_of_unit_length() {
    assert_eq!(Rotation::new(0, 0), None);
    assert_eq!(Rotation::new(SCALE, SCALE), None);
    assert_eq!(Rotation::new(SCALE / 2, SCALE / 2), None);
}

#[test]
fn new_allows_the_slack_and_no_more() {
    // With cos = SCALE - 1 the norm is off by sin * sin - 2 * SCALE + 1:
    // just within the slack for the first sine, just beyond it for the second.
    let cos = SCALE - 1;
    let within = 44_721;
    let norm = |sin: i64| cos as i128 * cos as i128 + sin as i128 * sin as i128
        - SCALE as i128 * SCALE as i128;
    assert!(norm(within).abs() <= NORM_SLACK as i128);
    assert!(Rotation::new(cos, within).is_some());
    let beyond = 63_246;
    assert!(norm(beyond) > NORM_SLACK as i128);
    assert_eq!(Rotation::new(cos, beyond), None);
}

#[test]
fn inverse_negates_the_sine() {
    let step = Rotation::arm_step();
    assert_eq!(step.inverse(), Rotation { cos: step.cos, sin: -step.sin });
    assert_eq!(step.inverse().inverse(), step);
}

#[test]
fn apply_rounds_to_the_nearest_step() {
    let origin = Vertex { x: 0, y: 0 };
    let v = Vertex { x: 1_000_000, y: 0 };
    assert_eq!(Rotation::arm_step().apply(v, origin), Vertex { x: 998_630, y: 52_336 });
    assert_eq!(Rotation::arm_step().inverse().apply(v, origin), Vertex { x: 998_630, y: -52_336 });
}

#[test]
fn apply_rounds_halves_upwards() {
    let origin = Vertex { x: 0, y: 0 };
    let half = Rotation::new(SCALE / 2, 866_025_404).unwrap();
    assert_eq!(half.apply(Vertex { x: 1, y: 0 }, origin).x, 1);
    assert_eq!(half.apply(Vertex { x: -1, y: 0 }, origin).x, 0);
    assert_eq!(half.apply(Vertex { x: 3, y: 0 }, origin).x, 2);
}

#[test]
fn apply_turns_about_the_pivot() {
    let quarter = Rotation::quarter_clockwise();
    assert_eq!(
        quarter.apply(Vertex { x: 100, y: 0 }, Vertex { x: 0, y: 0 }),
        Vertex { x: 0, y: -100 }
    );
    assert_eq!(quarter.apply(Vertex { x: 3, y: 7 }, Vertex { x: 1, y: 1 }), Vertex { x: 7, y: -1 });
}

#[test]
fn apply_keeps_the_pivot() {
    let pivot = Vertex { x: -123_456, y: 654_321 };
    assert_eq!(Rotation::grip_step().apply(pivot, pivot), pivot);
}

#[test]
fn apply_saturates_at_the_end_of_the_range() {
    let quarter = Rotation::quarter_clockwise();
    let v = Vertex { x: 0, y: i32::MAX };
    let pivot = Vertex { x: i32::MAX, y: 0 };
    assert_eq!(quarter.apply(v, pivot), Vertex { x: i32::MAX, y: i32::MAX });
}

#[test]
fn identity_moves_no_point() {
    let pivot = Vertex { x: 17, y: -4 };
    for v in [
        Vertex { x: 0, y: 0 },
        Vertex { x: 150_000, y: -450_000 },
        Vertex { x: i32::MAX, y: i32::MIN },
        Vertex { x: i32::MIN, y: i32::MAX },
    ] {
        assert_eq!(Rotation::identity().apply(v, pivot), v);
    }
}

#[test]
fn turn_and_inverse_restore_within_two_steps() {
    let pivot = Vertex { x: -500_000, y: -400_000 };
    for step in [Rotation::arm_step(), Rotation::grip_step(), Rotation::outline_step()] {
        for v in [
            Vertex { x: 150_000, y: -450_000 },
            Vertex { x: -500_000, y: 0 },
            Vertex { x: 999_999, y: 999_999 },
            Vertex { x: -1, y: 1 },
        ] {
            let back = step.inverse().apply(step.apply(v, pivot), pivot);
            assert!((back.x - v.x).abs() <= 2, "{:?} came back as {:?}", v, back);
            assert!((back.y - v.y).abs() <= 2, "{:?} came back as {:?}", v, back);
        }
    }
}

#[test]
fn thirty_arm_steps_make_a_quarter_turn() {
    let pivot = Vertex { x: 0, y: 0 };
    let mut v = Vertex { x: 400_000, y: 0 };
    for _ in 0..30 {
        v = Rotation::arm_step().apply(v, pivot);
    }
    assert!(v.x.abs() <= 30, "{:?}", v);
    assert!((v.y - 400_000).abs() <= 30, "{:?}", v);
}
