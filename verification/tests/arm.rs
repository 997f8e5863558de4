use robot_arm::arm::{create, limits_are_ranges, turn, Arm, CHAIN1, CHAIN2, CHAIN3, CLAW1, CLAW2};
use robot_arm::geometry::Vertex;
use robot_arm::joint::{Direction, Joint, JointLimits, Limits};
use robot_arm::kinematics::rotate;
use robot_arm::part::{generate_chain, Object, Part};
use robot_arm::rotation::Rotation;

fn limits(negative: i32, positive: i32) -> JointLimits {
    JointLimits { remaining_negative: negative, remaining_positive: positive }
}

/// The ranges that the pose of a new arm leaves: the first two links and the
/// open gripper stand at the positive ends of theirs.
fn start_limits() -> Limits {
    Limits {
        joint1: limits(30, 0),
        joint2: limits(60, 0),
        joint3: limits(24, 30),
        gripper: limits(9, 0),
    }
}

fn origin() -> Vertex {
    Vertex { x: -500_000, y: -400_000 }
}

fn new_arm() -> Arm {
    let (parts, _) = create();
    Arm::new(parts, origin(), start_limits()).unwrap()
}

#[test]
fn create_stacks_the_links_and_lays_the_third_over() {
    let (parts, _) = create();
    assert_eq!(parts.len(), 5);
    assert_eq!(parts[CHAIN1], Part::Chain(generate_chain(-500_000, -400_000)));
    assert_eq!(parts[CHAIN2], Part::Chain(generate_chain(-500_000, 0)));
    let mut chain3 = Part::Chain(generate_chain(-500_000, 400_000));
    rotate(&Rotation::quarter_clockwise(), &mut chain3, Vertex { x: -500_000, y: 400_000 });
    assert_eq!(parts[CHAIN3], chain3);
    assert_eq!(parts[CHAIN3].get_tip(), Some(Vertex { x: -100_000, y: 400_000 }));
    assert_eq!(parts[CHAIN3].get_vertices_ref()[0], Vertex { x: -100_000, y: 370_000 });
    assert_eq!(parts[CHAIN3].get_vertices_ref()[1], Vertex { x: -500_000, y: 450_000 });
}

#[test]
fn create_hangs_the_claws_on_the_wrist() {
    let (parts, _) = create();
    assert_eq!(parts[CLAW1].get_tip(), Some(Vertex { x: -100_000, y: 430_000 }));
    assert_eq!(parts[CLAW2].get_tip(), Some(Vertex { x: -100_000, y: 370_000 }));
    assert_eq!(parts[CLAW1].get_vertices_ref()[2], Vertex { x: -40_000, y: 450_000 });
    assert_eq!(parts[CLAW2].get_vertices_ref()[2], Vertex { x: -40_000, y: 350_000 });
}

#[test]
fn create_puts_a_rectangle_on_the_floor() {
    let (_, object) = create();
    assert_eq!(
        object,
        Object {
            vertices: vec![
                Vertex { x: 150_000, y: -450_000 },
                Vertex { x: 200_000, y: -450_000 },
                Vertex { x: 200_000, y: -350_000 },
                Vertex { x: 150_000, y: -350_000 },
            ],
        }
    );
}

#[test]
fn new_wants_five_parts() {
    let (mut parts, _) = create();
    parts.pop();
    assert!(Arm::new(parts, origin(), start_limits()).is_none());
    let (mut parts, object) = create();
    parts.push(Part::Object(object));
    assert!(Arm::new(parts, origin(), start_limits()).is_none());
    assert!(Arm::new(vec![], origin(), start_limits()).is_none());
}

#[test]
fn new_wants_a_tip_on_every_part() {
    let (mut parts, object) = create();
    parts[CLAW2] = Part::Object(object);
    assert!(Arm::new(parts, origin(), start_limits()).is_none());
}

#[test]
fn new_wants_limits_that_are_ranges() {
    let (parts, _) = create();
    let bad = Limits { joint2: limits(-1, 60), ..start_limits() };
    assert!(!limits_are_ranges(&bad));
    assert!(Arm::new(parts, origin(), bad).is_none());
    let (parts, _) = create();
    let bad = Limits { gripper: limits(i32::MAX, 1), ..start_limits() };
    assert!(!limits_are_ranges(&bad));
    assert!(Arm::new(parts, origin(), bad).is_none());
    assert!(limits_are_ranges(&start_limits()));
}

#[test]
fn new_keeps_what_it_is_given() {
    let arm = new_arm();
    assert_eq!(arm.parts, create().0);
    assert_eq!(arm.origin, origin());
    assert_eq!(arm.limits, start_limits());
}

#[test]
fn a_positive_step_turns_by_the_increment_and_a_negative_one_back() {
    for joint in [Joint::Joint1, Joint::Joint2, Joint::Joint3] {
        assert_eq!(turn(joint, Direction::Positive), Rotation::arm_step());
        assert_eq!(turn(joint, Direction::Negative), Rotation::arm_step().inverse());
    }
    assert_eq!(turn(Joint::Gripper, Direction::Positive), Rotation::grip_step());
    assert_eq!(turn(Joint::Gripper, Direction::Negative), Rotation::grip_step().inverse());
}

#[test]
fn a_negative_step_turns_clockwise() {
    let east = Vertex { x: 1_000_000, y: 0 };
    let origin = Vertex { x: 0, y: 0 };
    let turned = turn(Joint::Joint1, Direction::Negative).apply(east, origin);
    assert_eq!(turned, Vertex { x: 998_630, y: -52_336 });
    let turned = turn(Joint::Gripper, Direction::Negative).apply(east, origin);
    assert_eq!(turned, Vertex { x: 996_195, y: -87_156 });
}

#[test]
fn pivots_are_the_origin_and_the_tips_upstream() {
    let arm = new_arm();
    assert_eq!(arm.pivot(Joint::Joint1), origin());
    assert_eq!(arm.pivot(Joint::Joint2), Vertex { x: -500_000, y: 0 });
    assert_eq!(arm.pivot(Joint::Joint3), Vertex { x: -500_000, y: 400_000 });
    assert_eq!(arm.pivot(Joint::Gripper), Vertex { x: -100_000, y: 430_000 });
    assert_eq!(arm.tip(CLAW2), Vertex { x: -100_000, y: 370_000 });
}

#[test]
fn a_step_at_the_limit_leaves_the_arm() {
    let mut arm = new_arm();
    assert!(!arm.step(Joint::Joint1, Direction::Positive));
    assert!(!arm.step(Joint::Joint2, Direction::Positive));
    assert!(!arm.step(Joint::Gripper, Direction::Positive));
    assert_eq!(arm.parts, create().0);
    assert_eq!(arm.limits, start_limits());
}

#[test]
fn the_first_joint_carries_the_whole_arm() {
    let mut arm = new_arm();
    assert!(arm.step(Joint::Joint1, Direction::Negative));
    assert_eq!(arm.limits, Limits { joint1: limits(29, 1), ..start_limits() });
    let (mut expected, _) = create();
    for part in expected.iter_mut() {
        rotate(&Rotation::arm_step().inverse(), part, origin());
    }
    assert_eq!(arm.parts, expected);
    assert_eq!(arm.tip(CHAIN1), Vertex { x: -479_066, y: -548 });
    assert_eq!(arm.origin, origin());
}

#[test]
fn the_second_joint_leaves_the_first_link() {
    let mut arm = new_arm();
    assert!(arm.step(Joint::Joint2, Direction::Negative));
    assert_eq!(arm.limits, Limits { joint2: limits(59, 1), ..start_limits() });
    let (mut expected, _) = create();
    for part in expected.iter_mut().skip(1) {
        rotate(&Rotation::arm_step().inverse(), part, Vertex { x: -500_000, y: 0 });
    }
    assert_eq!(arm.parts, expected);
    assert_eq!(arm.parts[CHAIN1], create().0[CHAIN1]);
}

#[test]
fn the_third_joint_leaves_the_first_two_links() {
    let mut arm = new_arm();
    assert!(arm.step(Joint::Joint3, Direction::Positive));
    assert_eq!(arm.limits, Limits { joint3: limits(25, 29), ..start_limits() });
    let (mut expected, _) = create();
    for part in expected.iter_mut().skip(2) {
        rotate(&Rotation::arm_step(), part, Vertex { x: -500_000, y: 400_000 });
    }
    assert_eq!(arm.parts, expected);
}

#[test]
fn the_gripper_turns_each_finger_about_its_own_tip() {
    let mut arm = new_arm();
    assert!(arm.step(Joint::Gripper, Direction::Negative));
    assert_eq!(arm.limits, Limits { gripper: limits(8, 1), ..start_limits() });
    let (mut expected, _) = create();
    rotate(
        &Rotation::grip_step().inverse(),
        &mut expected[CLAW1],
        Vertex { x: -100_000, y: 430_000 },
    );
    rotate(&Rotation::grip_step(), &mut expected[CLAW2], Vertex { x: -100_000, y: 370_000 });
    assert_eq!(arm.parts, expected);
    // Closing brings the far ends of the fingers together.
    let gap_before = 450_000 - 350_000;
    let gap =
        arm.parts[CLAW1].get_vertices_ref()[2].y - arm.parts[CLAW2].get_vertices_ref()[2].y;
    assert!(gap < gap_before);
    assert_eq!(arm.tip(CLAW1), Vertex { x: -100_000, y: 430_000 });
    assert_eq!(arm.tip(CLAW2), Vertex { x: -100_000, y: 370_000 });
}

#[test]
fn a_step_forth_and_back_restores_the_counters() {
    let mut arm = new_arm();
    for joint in [Joint::Joint1, Joint::Joint2, Joint::Joint3, Joint::Gripper] {
        assert!(arm.step(joint, Direction::Negative));
        assert!(arm.step(joint, Direction::Positive));
    }
    assert_eq!(arm.limits, start_limits());
    for (part, fresh) in arm.parts.iter().zip(create().0.iter()) {
        for (back, v) in part.get_vertices_ref().iter().zip(fresh.get_vertices_ref().iter()) {
            assert!((back.x - v.x).abs() <= 6 && (back.y - v.y).abs() <= 6);
        }
    }
}

#[test]
fn is_whole_tells_a_whole_arm_from_a_broken_one() {
    let mut arm = new_arm();
    assert!(arm.is_whole());
    arm.step(Joint::Joint2, Direction::Negative);
    assert!(arm.is_whole());
    let claw = arm.parts.pop().unwrap();
    assert!(!arm.is_whole());
    arm.parts.push(Part::Object(create().1));
    assert!(!arm.is_whole());
    arm.parts.pop();
    arm.parts.push(claw);
    assert!(arm.is_whole());
    arm.limits.joint1.remaining_positive = -1;
    assert!(!arm.is_whole());
}
