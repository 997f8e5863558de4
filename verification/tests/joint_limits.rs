use robot_arm::joint::{Direction, Joint, JointLimits, Limits};

fn limits(negative: i32, positive: i32) -> JointLimits {
    JointLimits { remaining_negative: negative, remaining_positive: positive }
}

fn all() -> Limits {
    Limits {
        joint1: limits(0, 30),
        joint2: limits(0, 60),
        joint3: limits(30, 24),
        gripper: limits(0, 9),
    }
}

#[test]
fn new_accepts_a_range() {
    assert_eq!(JointLimits::new(5, 25), Some(limits(5, 25)));
    assert_eq!(JointLimits::new(0, 0), Some(limits(0, 0)));
    assert_eq!(JointLimits::new(i32::MAX, 0), Some(limits(i32::MAX, 0)));
}

#[test]
fn new_rejects_a_negative_side() {
    assert_eq!(JointLimits::new(-1, 25), None);
    assert_eq!(JointLimits::new(5, -1), None);
}

#[test]
fn new_rejects_a_range_too_large_to_count() {
    assert_eq!(JointLimits::new(i32::MAX, 1), None);
    assert_eq!(JointLimits::new(1, i32::MAX), None);
}

#[test]
fn step_moves_one_unit_across() {
    let mut joint = limits(5, 25);
    assert!(joint.step(Direction::Negative));
    assert_eq!(joint, limits(4, 26));
    assert!(joint.step(Direction::Positive));
    assert!(joint.step(Direction::Positive));
    assert_eq!(joint, limits(6, 24));
}

#[test]
fn step_at_the_limit_is_rejected() {
    let mut joint = limits(0, 30);
    assert!(!joint.can_step(Direction::Negative));
    assert!(!joint.step(Direction::Negative));
    assert_eq!(joint, limits(0, 30));
    let mut joint = limits(30, 0);
    assert!(!joint.can_step(Direction::Positive));
    assert!(!joint.step(Direction::Positive));
    assert_eq!(joint, limits(30, 0));
}

#[test]
fn sum_stays_constant_over_any_steps() {
    let mut joint = limits(7, 3);
    let mut seed: u32 = 12345;
    for _ in 0..1000 {
        seed = seed.wrapping_mul(1_103_515_245).wrapping_add(12345);
        let dir = if (seed >> 16) & 1 == 0 { Direction::Negative } else { Direction::Positive };
        let before = joint;
        let moved = joint.step(dir);
        assert_eq!(joint.remaining_negative + joint.remaining_positive, 10);
        assert!(joint.remaining_negative >= 0 && joint.remaining_positive >= 0);
        assert_eq!(moved, joint != before);
    }
}

#[test]
fn a_range_is_walked_from_end_to_end() {
    let mut joint = limits(0, 30);
    let mut steps = 0;
    while joint.step(Direction::Positive) {
        steps += 1;
    }
    assert_eq!(steps, 30);
    assert_eq!(joint, limits(30, 0));
}

#[test]
fn limits_get_picks_the_joint() {
    let all = all();
    assert_eq!(all.get(Joint::Joint1), limits(0, 30));
    assert_eq!(all.get(Joint::Joint2), limits(0, 60));
    assert_eq!(all.get(Joint::Joint3), limits(30, 24));
    assert_eq!(all.get(Joint::Gripper), limits(0, 9));
}

#[test]
fn limits_step_touches_one_joint() {
    let mut now = all();
    assert!(now.step(Joint::Joint3, Direction::Negative));
    assert_eq!(now, Limits { joint3: limits(29, 25), ..all() });
    assert!(now.step(Joint::Gripper, Direction::Positive));
    assert_eq!(now, Limits { joint3: limits(29, 25), gripper: limits(1, 8), ..all() });
    assert!(!now.step(Joint::Joint1, Direction::Negative));
    assert!(!now.step(Joint::Joint2, Direction::Negative));
    assert_eq!(now, Limits { joint3: limits(29, 25), gripper: limits(1, 8), ..all() });
}
