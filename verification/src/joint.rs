//! Joint limits: how many steps a joint has left in each direction.

use vstd::prelude::*;

verus! {

/// The two ways a joint can step.
#[derive(Clone, Copy, Debug, PartialEq, Eq, Structural)]
pub enum Direction {
    Negative,
    Positive,
}

/// The steps a joint has left towards each end of its range. A step towards
/// one end takes one from that side and gives one to the other.
#[derive(Clone, Copy, Debug, PartialEq, Eq, Structural)]
pub struct JointLimits {
    pub remaining_negative: i32,
    pub remaining_positive: i32,
}

/// The four joints of the arm, from the base outwards.
#[derive(Clone, Copy, Debug, PartialEq, Eq, Structural)]
pub enum Joint {
    Joint1,
    Joint2,
    Joint3,
    Gripper,
}

/// The limits of all four joints.
#[derive(Clone, Copy, Debug, PartialEq, Eq, Structural)]
pub struct Limits {
    pub joint1: JointLimits,
    pub joint2: JointLimits,
    pub joint3: JointLimits,
    pub gripper: JointLimits,
}

impl JointLimits {
    /// Neither side is negative, and the range can be counted in an `i32`.
    pub open spec fn wf(self) -> bool {
        &&& 0 <= self.remaining_negative
        &&& 0 <= self.remaining_positive
        &&& self.remaining_negative + self.remaining_positive <= i32::MAX
    }

    /// The whole range of the joint, in steps.
    pub open spec fn total(self) -> int {
        self.remaining_negative + self.remaining_positive
    }

    /// The steps left in direction `dir`.
    pub open spec fn remaining(self, dir: Direction) -> int {
        match dir {
            Direction::Negative => self.remaining_negative as int,
            Direction::Positive => self.remaining_positive as int,
        }
    }

    /// Whether a step in direction `dir` is within the range.
    pub open spec fn allows(self, dir: Direction) -> bool {
        self.remaining(dir) > 0
    }

    /// The limits after an attempt to step in direction `dir`: one unit moves
    /// from the side used to the other, or nothing changes at the end of the
    /// range.
    pub open spec fn stepped(self, dir: Direction) -> JointLimits {
        if !self.allows(dir) {
            self
        } else {
            match dir {
                Direction::Negative => JointLimits {
                    remaining_negative: (self.remaining_negative - 1) as i32,
                    remaining_positive: (self.remaining_positive + 1) as i32,
                },
                Direction::Positive => JointLimits {
                    remaining_negative: (self.remaining_negative + 1) as i32,
                    remaining_positive: (self.remaining_positive - 1) as i32,
                },
            }
        }
    }

    /// The limits after the attempts `steps`, in order.
    pub open spec fn after(self, steps: Seq<Direction>) -> JointLimits
        decreases steps.len(),
    {
        if steps.len() == 0 {
            self
        } else {
            self.after(steps.drop_last()).stepped(steps.last())
        }
    }

    /// Limits with the given steps left on each side, if they are a range.
    pub fn new(remaining_negative: i32, remaining_positive: i32) -> (limits: Option<JointLimits>)
        ensures
            limits == if (JointLimits { remaining_negative, remaining_positive }).wf() {
                Some(JointLimits { remaining_negative, remaining_positive })
            } else {
                None
            },
    {
        if remaining_negative < 0 || remaining_positive < 0 || remaining_negative > i32::MAX
            - remaining_positive {
            None
        } else {
            Some(JointLimits { remaining_negative, remaining_positive })
        }
    }

    /// Whether the joint can step in direction `dir`.
    pub fn can_step(&self, dir: Direction) -> (allowed: bool)
        ensures
            allowed == self.allows(dir),
    {
        match dir {
            Direction::Negative => self.remaining_negative > 0,
            Direction::Positive => self.remaining_positive > 0,
        }
    }

    /// Tries one step in direction `dir`. At the end of the range nothing
    /// changes and the result is `false`.
    pub fn step(&mut self, dir: Direction) -> (moved: bool)
        requires
            old(self).wf(),
        ensures
            moved == old(self).allows(dir),
            *final(self) == old(self).stepped(dir),
            final(self).wf(),
            final(self).total() == old(self).total(),
    {
        if !self.can_step(dir) {
            return false;
        }
        match dir {
            Direction::Negative => {
                self.remaining_negative = self.remaining_negative - 1;
                self.remaining_positive = self.remaining_positive + 1;
            },
            Direction::Positive => {
                self.remaining_negative = self.remaining_negative + 1;
                self.remaining_positive = self.remaining_positive - 1;
            },
        }
        true
    }
}

impl Limits {
    /// Every joint's limits are a range.
    pub open spec fn wf(self) -> bool {
        &&& self.joint1.wf()
        &&& self.joint2.wf()
        &&& self.joint3.wf()
        &&& self.gripper.wf()
    }

    /// The limits of `joint`.
    pub open spec fn of(self, joint: Joint) -> JointLimits {
        match joint {
            Joint::Joint1 => self.joint1,
            Joint::Joint2 => self.joint2,
            Joint::Joint3 => self.joint3,
            Joint::Gripper => self.gripper,
        }
    }

    /// These limits with those of `joint` replaced by `limits`.
    pub open spec fn with(self, joint: Joint, limits: JointLimits) -> Limits {
        match joint {
            Joint::Joint1 => Limits { joint1: limits, ..self },
            Joint::Joint2 => Limits { joint2: limits, ..self },
            Joint::Joint3 => Limits { joint3: limits, ..self },
            Joint::Gripper => Limits { gripper: limits, ..self },
        }
    }

    /// The limits after an attempt to step `joint` in direction `dir`.
    pub open spec fn stepped(self, joint: Joint, dir: Direction) -> Limits {
        self.with(joint, self.of(joint).stepped(dir))
    }

    /// The limits of `joint`.
    pub fn get(&self, joint: Joint) -> (limits: JointLimits)
        ensures
            limits == self.of(joint),
    {
        match joint {
            Joint::Joint1 => self.joint1,
            Joint::Joint2 => self.joint2,
            Joint::Joint3 => self.joint3,
            Joint::Gripper => self.gripper,
        }
    }

    /// Tries one step of `joint` in direction `dir`. At the end of the joint's
    /// range nothing changes and the result is `false`.
    pub fn step(&mut self, joint: Joint, dir: Direction) -> (moved: bool)
        requires
            old(self).wf(),
        ensures
            moved == old(self).of(joint).allows(dir),
            *final(self) == old(self).stepped(joint, dir),
            final(self).wf(),
    {
        match joint {
            Joint::Joint1 => self.joint1.step(dir),
            Joint::Joint2 => self.joint2.step(dir),
            Joint::Joint3 => self.joint3.step(dir),
            Joint::Gripper => self.gripper.step(dir),
        }
    }
}

/// One attempted step keeps the limits a range of the same size.
pub proof fn lemma_step_keeps_total(limits: JointLimits, dir: Direction)
    requires
        limits.wf(),
    ensures
        limits.stepped(dir).wf(),
        limits.stepped(dir).total() == limits.total(),
{
}

/// Whatever steps are attempted, in whatever order, the two sides of a joint
/// add up to what they did at the start.
pub proof fn lemma_total_is_constant(limits: JointLimits, steps: Seq<Direction>)
    requires
        limits.wf(),
    ensures
        limits.after(steps).wf(),
        limits.after(steps).total() == limits.total(),
    decreases steps.len(),
{
    if steps.len() > 0 {
        lemma_total_is_constant(limits, steps.drop_last());
        lemma_step_keeps_total(limits.after(steps.drop_last()), steps.last());
    }
}

} // verus!
