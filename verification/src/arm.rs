//! The arm: three links and two fingers in a fixed order, with the limits of
//! its four joints.
//!
//! No part carries a transform of its own. A joint moves what hangs on it by
//! turning every part downstream of it about the joint; the parts upstream are
//! left out. The order of `Arm::parts` says what is downstream of what.

use vstd::prelude::*;
use crate::geometry::Vertex;
use crate::joint::{Direction, Joint, Limits};
use crate::kinematics::{
    lemma_turn_keeps_tip_on_vertex, part_views, rotate_from, turn_part, turned_from, turned_part,
};
use crate::part::{
    Object, Part, PartView, chain_at, claw_at, generate_chain, generate_claws, generate_object,
    lemma_claw_tip_is_first_vertex,
};
use crate::rotation::Rotation;

verus! {

/// The place of the first link in `Arm::parts`.
pub const CHAIN1: usize = 0;

/// The place of the second link in `Arm::parts`.
pub const CHAIN2: usize = 1;

/// The place of the third link in `Arm::parts`.
pub const CHAIN3: usize = 2;

/// The place of the first finger in `Arm::parts`.
pub const CLAW1: usize = 3;

/// The place of the second finger in `Arm::parts`.
pub const CLAW2: usize = 4;

/// The number of parts of an arm.
pub const PART_COUNT: usize = 5;

/// The arm. `parts` holds the links from the base outwards and then the two
/// fingers; `origin` is the pivot of the first joint.
pub struct Arm {
    pub parts: Vec<Part>,
    pub origin: Vertex,
    pub limits: Limits,
}

/// An arm as plain values.
pub struct ArmView {
    pub parts: Seq<PartView>,
    pub origin: Vertex,
    pub limits: Limits,
}

impl View for Arm {
    type V = ArmView;

    open spec fn view(&self) -> ArmView {
        ArmView { parts: part_views(self.parts@), origin: self.origin, limits: self.limits }
    }
}

/// The turn of one step of `joint` in direction `dir`: the joint's fixed
/// increment for a positive step, its inverse for a negative one. The
/// increments are counter-clockwise, so a negative step turns clockwise. For
/// the gripper this is the turn of the first finger; the second finger mirrors
/// it, so that a negative step brings the fingers together.
pub open spec fn turn_of(joint: Joint, dir: Direction) -> Rotation {
    let step = match joint {
        Joint::Gripper => Rotation::grip_step(),
        _ => Rotation::arm_step(),
    };
    match dir {
        Direction::Positive => step,
        Direction::Negative => step.inverse(),
    }
}

/// The first of the parts that hang on `joint`.
pub open spec fn first_downstream(joint: Joint) -> int {
    match joint {
        Joint::Joint1 => CHAIN1 as int,
        Joint::Joint2 => CHAIN2 as int,
        Joint::Joint3 => CHAIN3 as int,
        Joint::Gripper => CLAW1 as int,
    }
}

impl ArmView {
    /// All five parts are there, each with a tip, and the limits are ranges.
    pub open spec fn wf(self) -> bool {
        &&& self.parts.len() == PART_COUNT
        &&& forall|i: int| 0 <= i < PART_COUNT ==> (#[trigger] self.parts[i]).tip is Some
        &&& self.limits.wf()
    }

    /// Each finger hinges on its first vertex: the tip of the finger is that
    /// vertex.
    pub open spec fn fingers_hinged(self) -> bool {
        &&& self.parts[CLAW1 as int].tip_is_vertex(0)
        &&& self.parts[CLAW2 as int].tip_is_vertex(0)
    }

    /// The tip of part `i`.
    pub open spec fn tip(self, i: int) -> Vertex {
        self.parts[i].tip->0
    }

    /// The point that `joint` turns about: the origin for the first joint, the
    /// tip of the link before it for the second and third. Each finger turns
    /// about its own tip; for the gripper this is the pivot of the first.
    pub open spec fn pivot(self, joint: Joint) -> Vertex {
        match joint {
            Joint::Joint1 => self.origin,
            Joint::Joint2 => self.tip(CHAIN1 as int),
            Joint::Joint3 => self.tip(CHAIN2 as int),
            Joint::Gripper => self.tip(CLAW1 as int),
        }
    }

    /// The parts after one step of `joint` in direction `dir`. An arm joint
    /// carries everything downstream of it. The gripper turns each finger
    /// about the finger's own tip, the second against the first.
    pub open spec fn moved_parts(self, joint: Joint, dir: Direction) -> Seq<PartView> {
        match joint {
            Joint::Gripper => self.parts.update(
                CLAW1 as int,
                turned_part(self.parts[CLAW1 as int], turn_of(joint, dir), self.tip(CLAW1 as int)),
            ).update(
                CLAW2 as int,
                turned_part(
                    self.parts[CLAW2 as int],
                    turn_of(joint, dir).inverse(),
                    self.tip(CLAW2 as int),
                ),
            ),
            _ => turned_from(
                self.parts,
                first_downstream(joint),
                turn_of(joint, dir),
                self.pivot(joint),
            ),
        }
    }

    /// The arm after an attempt to step `joint` in direction `dir`: moved, with
    /// one unit of the joint's range gone over to the other side; or, at the
    /// end of the range, as it was.
    pub open spec fn stepped(self, joint: Joint, dir: Direction) -> ArmView {
        if self.limits.of(joint).allows(dir) {
            ArmView {
                parts: self.moved_parts(joint, dir),
                origin: self.origin,
                limits: self.limits.stepped(joint, dir),
            }
        } else {
            self
        }
    }
}

/// The turn of one step of `joint` in direction `dir`.
pub fn turn(joint: Joint, dir: Direction) -> (angle: Rotation)
    ensures
        angle == turn_of(joint, dir),
        angle.wf(),
{
    let step = match joint {
        Joint::Gripper => Rotation::grip_step(),
        _ => Rotation::arm_step(),
    };
    match dir {
        Direction::Positive => step,
        Direction::Negative => step.inverse(),
    }
}

/// A step keeps an arm whole.
pub proof fn lemma_step_keeps_wf(arm: ArmView, joint: Joint, dir: Direction)
    requires
        arm.wf(),
    ensures
        arm.stepped(joint, dir).wf(),
{
    let after = arm.stepped(joint, dir);
    assert forall|i: int| 0 <= i < PART_COUNT implies (#[trigger] after.parts[i]).tip is Some by {
        assert(arm.parts[i].tip is Some);
    }
}

/// Whatever step the arm takes, each finger stays hinged on its first vertex:
/// tip and outline turn in lock-step.
pub proof fn lemma_step_keeps_fingers_hinged(arm: ArmView, joint: Joint, dir: Direction)
    requires
        arm.wf(),
        arm.fingers_hinged(),
    ensures
        arm.stepped(joint, dir).fingers_hinged(),
{
    if arm.limits.of(joint).allows(dir) {
        let angle = turn_of(joint, dir);
        match joint {
            Joint::Gripper => {
                lemma_turn_keeps_tip_on_vertex(
                    arm.parts[CLAW1 as int],
                    angle,
                    arm.tip(CLAW1 as int),
                    0,
                );
                lemma_turn_keeps_tip_on_vertex(
                    arm.parts[CLAW2 as int],
                    angle.inverse(),
                    arm.tip(CLAW2 as int),
                    0,
                );
            },
            _ => {
                lemma_turn_keeps_tip_on_vertex(arm.parts[CLAW1 as int], angle, arm.pivot(joint), 0);
                lemma_turn_keeps_tip_on_vertex(arm.parts[CLAW2 as int], angle, arm.pivot(joint), 0);
            },
        }
    }
}

impl Arm {
    /// An arm of the given parts, if they make one: five parts, each with a
    /// tip, and limits that are ranges.
    pub fn new(parts: Vec<Part>, origin: Vertex, limits: Limits) -> (arm: Option<Arm>)
        ensures
            arm is Some <==> (ArmView { parts: part_views(parts@), origin, limits }).wf(),
            arm matches Some(a) ==> a.parts == parts && a.origin == origin && a.limits == limits,
    {
        let arm = Arm { parts, origin, limits };
        if arm.is_whole() {
            Some(arm)
        } else {
            None
        }
    }

    /// Whether the arm is whole: five parts, each with a tip, and limits that
    /// are ranges. Every function that moves the arm asks for this.
    pub fn is_whole(&self) -> (whole: bool)
        ensures
            whole == self@.wf(),
    {
        if self.parts.len() != PART_COUNT {
            return false;
        }
        if !limits_are_ranges(&self.limits) {
            return false;
        }
        let mut i: usize = 0;
        while i < PART_COUNT
            invariant
                i <= PART_COUNT,
                self.parts.len() == PART_COUNT,
                forall|k: int| 0 <= k < i ==> (#[trigger] self@.parts[k]).tip is Some,
            decreases PART_COUNT - i,
        {
            if self.parts[i].get_tip().is_none() {
                assert(self@.parts[i as int].tip is None);
                return false;
            }
            i += 1;
        }
        true
    }

    /// The tip of part `i`.
    pub fn tip(&self, i: usize) -> (tip: Vertex)
        requires
            self@.wf(),
            i < PART_COUNT,
        ensures
            tip == self@.tip(i as int),
    {
        assert(self@.parts[i as int].tip is Some);
        match self.parts[i].get_tip() {
            Some(tip) => tip,
            None => self.origin,
        }
    }

    /// The point that `joint` turns about.
    pub fn pivot(&self, joint: Joint) -> (pivot: Vertex)
        requires
            self@.wf(),
        ensures
            pivot == self@.pivot(joint),
    {
        match joint {
            Joint::Joint1 => self.origin,
            Joint::Joint2 => self.tip(CHAIN1),
            Joint::Joint3 => self.tip(CHAIN2),
            Joint::Gripper => self.tip(CLAW1),
        }
    }

    /// Tries one step of `joint` in direction `dir`. At the end of the joint's
    /// range the arm stays as it is and the result is `false`.
    pub fn step(&mut self, joint: Joint, dir: Direction) -> (moved: bool)
        requires
            old(self)@.wf(),
        ensures
            moved == old(self)@.limits.of(joint).allows(dir),
            final(self)@ == old(self)@.stepped(joint, dir),
            final(self)@.wf(),
    {
        proof {
            lemma_step_keeps_wf(self@, joint, dir);
        }
        if !self.limits.get(joint).can_step(dir) {
            return false;
        }
        let angle = turn(joint, dir);
        match joint {
            Joint::Gripper => {
                let pivot1 = self.tip(CLAW1);
                let pivot2 = self.tip(CLAW2);
                let back = angle.inverse();
                turn_part(&angle, &mut self.parts[CLAW1], pivot1);
                turn_part(&back, &mut self.parts[CLAW2], pivot2);
                assert(part_views(self.parts@) =~= old(self)@.moved_parts(joint, dir));
            },
            Joint::Joint1 => {
                let pivot = self.origin;
                rotate_from(&angle, &mut self.parts, CHAIN1, pivot);
            },
            Joint::Joint2 => {
                let pivot = self.tip(CHAIN1);
                rotate_from(&angle, &mut self.parts, CHAIN2, pivot);
            },
            Joint::Joint3 => {
                let pivot = self.tip(CHAIN2);
                rotate_from(&angle, &mut self.parts, CHAIN3, pivot);
            },
        }
        self.limits.step(joint, dir);
        true
    }
}

/// Whether all four limits are ranges.
pub fn limits_are_ranges(limits: &Limits) -> (ok: bool)
    ensures
        ok == limits.wf(),
{
    joint_is_range(limits.joint1.remaining_negative, limits.joint1.remaining_positive)
        && joint_is_range(limits.joint2.remaining_negative, limits.joint2.remaining_positive)
        && joint_is_range(limits.joint3.remaining_negative, limits.joint3.remaining_positive)
        && joint_is_range(limits.gripper.remaining_negative, limits.gripper.remaining_positive)
}

fn joint_is_range(negative: i32, positive: i32) -> (ok: bool)
    ensures
        ok == (crate::joint::JointLimits {
            remaining_negative: negative,
            remaining_positive: positive,
        }).wf(),
{
    negative >= 0 && positive >= 0 && negative <= i32::MAX - positive
}

/// Where the first joint of a new arm stands.
pub open spec fn base_center() -> Vertex {
    Vertex { x: -500_000i32, y: -400_000i32 }
}

/// The parts of a new arm: two links upright, one on the other, the third
/// hinged on the second and laid over to the right, and the two fingers on
/// its tip.
pub open spec fn initial_parts() -> Seq<PartView> {
    let chain1 = chain_at(base_center());
    let chain2 = chain_at(chain1.tip->0);
    let elbow = chain2.tip->0;
    let chain3 = turned_part(chain_at(elbow), Rotation::quarter_clockwise(), elbow);
    let wrist = chain3.tip->0;
    seq![chain1, chain2, chain3, claw_at(wrist, 1), claw_at(wrist, -1)]
}

/// The fingers of a new arm are hinged on their first vertices.
pub proof fn lemma_new_fingers_are_hinged()
    ensures
        initial_parts()[CLAW1 as int].tip_is_vertex(0),
        initial_parts()[CLAW2 as int].tip_is_vertex(0),
{
    let chain1 = chain_at(base_center());
    let chain2 = chain_at(chain1.tip->0);
    let elbow = chain2.tip->0;
    let chain3 = turned_part(chain_at(elbow), Rotation::quarter_clockwise(), elbow);
    let wrist = chain3.tip->0;
    lemma_claw_tip_is_first_vertex(wrist, 1);
    lemma_claw_tip_is_first_vertex(wrist, -1);
}

/// The outline of the object that a new scene starts with.
pub open spec fn initial_object() -> Seq<Vertex> {
    seq![
        Vertex { x: 150_000, y: -450_000i32 },
        Vertex { x: 200_000, y: -450_000i32 },
        Vertex { x: 200_000, y: -350_000i32 },
        Vertex { x: 150_000, y: -350_000i32 },
    ]
}

/// The parts of a new arm, in the order of `Arm::parts`, and the first object
/// of the scene.
pub fn create() -> (scene: (Vec<Part>, Object))
    ensures
        part_views(scene.0@) == initial_parts(),
        scene.1.vertices@ == initial_object(),
{
    let chain1 = generate_chain(-500_000, -400_000);
    let chain2 = generate_chain(chain1.tip.x, chain1.tip.y);
    let elbow = chain2.tip;
    let mut chain3 = Part::Chain(generate_chain(elbow.x, elbow.y));
    let quarter = Rotation::quarter_clockwise();
    turn_part(&quarter, &mut chain3, elbow);
    let wrist = match chain3.get_tip() {
        Some(tip) => tip,
        None => elbow,
    };
    let (claw1, claw2) = generate_claws(wrist);
    let mut parts: Vec<Part> = Vec::new();
    parts.push(Part::Chain(chain1));
    parts.push(Part::Chain(chain2));
    parts.push(chain3);
    parts.push(claw1);
    parts.push(claw2);
    let mut outline: Vec<Vertex> = Vec::new();
    outline.push(Vertex { x: 150_000, y: -450_000 });
    outline.push(Vertex { x: 200_000, y: -450_000 });
    outline.push(Vertex { x: 200_000, y: -350_000 });
    outline.push(Vertex { x: 150_000, y: -350_000 });
    let object = generate_object(outline);
    assert(part_views(parts@) =~= initial_parts());
    assert(object.vertices@ =~= initial_object());
    (parts, object)
}

} // verus!
