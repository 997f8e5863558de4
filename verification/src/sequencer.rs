//! The sequencer: drives the joints one at a time, in a fixed order, to the
//! counters of a recorded state. It keeps nothing between calls: the phase is
//! handed in and handed back on every tick.

use vstd::prelude::*;
use crate::arm::{Arm, ArmView, turn, turn_of};
use crate::geometry::Vertex;
use crate::joint::{Direction, Joint, JointLimits, Limits};
use crate::kinematics::{part_views, turn_part, turned_part};
use crate::part::{Part, PartView};
use crate::rotation::Rotation;

verus! {

/// A recorded configuration: how many steps each joint had left in its
/// negative direction, and which object the gripper held.
#[derive(Clone, Copy, Debug, PartialEq, Eq)]
pub struct State {
    pub l1: i32,
    pub l2: i32,
    pub l3: i32,
    pub l4: i32,
    pub moved_object: Option<usize>,
}

/// Where a run of the sequencer stands. The phases follow each other in this
/// order and none is entered twice.
#[derive(Clone, Copy, Debug, PartialEq, Eq, Structural)]
pub enum Phase {
    Joint1,
    Joint2,
    Joint3,
    Gripper,
    Done,
}

/// What the sequencer does in one tick.
#[derive(Clone, Copy, Debug, PartialEq, Eq, Structural)]
pub enum Action {
    /// Step the joint once in the given direction.
    Step(Joint, Direction),
    /// The joint of this phase is where it should be: go to the next phase.
    Advance,
    /// The run is over.
    Idle,
}

impl Phase {
    /// The joint that this phase drives.
    pub open spec fn joint(self) -> Option<Joint> {
        match self {
            Phase::Joint1 => Some(Joint::Joint1),
            Phase::Joint2 => Some(Joint::Joint2),
            Phase::Joint3 => Some(Joint::Joint3),
            Phase::Gripper => Some(Joint::Gripper),
            Phase::Done => None,
        }
    }

    /// The place of this phase in the order of the phases.
    pub open spec fn rank(self) -> nat {
        match self {
            Phase::Joint1 => 0,
            Phase::Joint2 => 1,
            Phase::Joint3 => 2,
            Phase::Gripper => 3,
            Phase::Done => 4,
        }
    }

    /// The phase that follows this one.
    pub open spec fn next_spec(self) -> Phase {
        match self {
            Phase::Joint1 => Phase::Joint2,
            Phase::Joint2 => Phase::Joint3,
            Phase::Joint3 => Phase::Gripper,
            Phase::Gripper => Phase::Done,
            Phase::Done => Phase::Done,
        }
    }

    /// The phase that follows this one.
    #[verifier::when_used_as_spec(next_spec)]
    pub fn next(self) -> (phase: Phase)
        ensures
            phase == self.next_spec(),
    {
        match self {
            Phase::Joint1 => Phase::Joint2,
            Phase::Joint2 => Phase::Joint3,
            Phase::Joint3 => Phase::Gripper,
            Phase::Gripper => Phase::Done,
            Phase::Done => Phase::Done,
        }
    }
}

impl State {
    /// The counter that `joint` is driven to.
    pub open spec fn target(self, joint: Joint) -> int {
        match joint {
            Joint::Joint1 => self.l1 as int,
            Joint::Joint2 => self.l2 as int,
            Joint::Joint3 => self.l3 as int,
            Joint::Gripper => self.l4 as int,
        }
    }

    /// Whether every joint can get to its target within `limits`.
    pub open spec fn reachable(self, limits: Limits) -> bool {
        &&& 0 <= self.l1 <= limits.joint1.total()
        &&& 0 <= self.l2 <= limits.joint2.total()
        &&& 0 <= self.l3 <= limits.joint3.total()
        &&& 0 <= self.l4 <= limits.gripper.total()
    }

    /// The limits of an arm that stands as this state says, within ranges of
    /// the sizes that `limits` has.
    pub open spec fn limits_within(self, limits: Limits) -> Limits {
        Limits {
            joint1: at_counter(limits.joint1, self.l1 as int),
            joint2: at_counter(limits.joint2, self.l2 as int),
            joint3: at_counter(limits.joint3, self.l3 as int),
            gripper: at_counter(limits.gripper, self.l4 as int),
        }
    }

    /// The state of an arm with the limits `limits` that holds `moved_object`.
    pub open spec fn snapshot(limits: Limits, moved_object: Option<usize>) -> State {
        State {
            l1: limits.joint1.remaining_negative,
            l2: limits.joint2.remaining_negative,
            l3: limits.joint3.remaining_negative,
            l4: limits.gripper.remaining_negative,
            moved_object,
        }
    }

    /// The state in which every joint is at the negative end of its range and
    /// the gripper holds nothing: where "return home" leads.
    pub open spec fn home_spec() -> State {
        State { l1: 0, l2: 0, l3: 0, l4: 0, moved_object: None }
    }

    /// The state that "return home" drives the arm to.
    #[verifier::when_used_as_spec(home_spec)]
    pub fn home() -> (state: State)
        ensures
            state == State::home_spec(),
    {
        State { l1: 0, l2: 0, l3: 0, l4: 0, moved_object: None }
    }

    /// Records the counters in `limits` and the held object.
    pub fn record(limits: &Limits, moved_object: Option<usize>) -> (state: State)
        ensures
            state == State::snapshot(*limits, moved_object),
    {
        State {
            l1: limits.joint1.remaining_negative,
            l2: limits.joint2.remaining_negative,
            l3: limits.joint3.remaining_negative,
            l4: limits.gripper.remaining_negative,
            moved_object,
        }
    }

    /// The counter that `joint` is driven to.
    pub fn target_of(&self, joint: Joint) -> (target: i32)
        ensures
            target == self.target(joint),
    {
        match joint {
            Joint::Joint1 => self.l1,
            Joint::Joint2 => self.l2,
            Joint::Joint3 => self.l3,
            Joint::Gripper => self.l4,
        }
    }
}

/// The limits of a joint with the range of `limits` and `counter` steps left
/// in the negative direction.
pub open spec fn at_counter(limits: JointLimits, counter: int) -> JointLimits {
    JointLimits {
        remaining_negative: counter as i32,
        remaining_positive: (limits.total() - counter) as i32,
    }
}

/// What the sequencer does next: a joint above its target steps in the
/// negative direction, one below it in the positive direction, and one on
/// target ends its phase.
pub open spec fn decision(phase: Phase, limits: Limits, target: State) -> Action {
    match phase.joint() {
        None => Action::Idle,
        Some(joint) => {
            let counter = limits.of(joint).remaining_negative;
            if counter > target.target(joint) {
                Action::Step(joint, Direction::Negative)
            } else if counter < target.target(joint) {
                Action::Step(joint, Direction::Positive)
            } else {
                Action::Advance
            }
        },
    }
}

/// The limits and the phase after one tick. A step that the limits reject
/// leaves both as they are.
pub open spec fn tick(limits: Limits, phase: Phase, target: State) -> (Limits, Phase) {
    match decision(phase, limits, target) {
        Action::Step(joint, dir) => (limits.stepped(joint, dir), phase),
        Action::Advance => (limits, phase.next()),
        Action::Idle => (limits, phase),
    }
}

/// The limits and the phase after `ticks` ticks.
pub open spec fn run(limits: Limits, phase: Phase, target: State, ticks: nat) -> (Limits, Phase)
    decreases ticks,
{
    if ticks == 0 {
        (limits, phase)
    } else {
        let before = run(limits, phase, target, (ticks - 1) as nat);
        tick(before.0, before.1, target)
    }
}

/// The number of steps between a counter and its target.
pub open spec fn distance(counter: int, target: int) -> nat {
    if counter >= target {
        (counter - target) as nat
    } else {
        (target - counter) as nat
    }
}

/// Decides what the sequencer does next.
pub fn decide(phase: Phase, limits: &Limits, target: &State) -> (action: Action)
    ensures
        action == decision(phase, *limits, *target),
{
    let joint = match phase {
        Phase::Joint1 => Joint::Joint1,
        Phase::Joint2 => Joint::Joint2,
        Phase::Joint3 => Joint::Joint3,
        Phase::Gripper => Joint::Gripper,
        Phase::Done => { return Action::Idle; },
    };
    let counter = limits.get(joint).remaining_negative;
    let goal = target.target_of(joint);
    if counter > goal {
        Action::Step(joint, Direction::Negative)
    } else if counter < goal {
        Action::Step(joint, Direction::Positive)
    } else {
        Action::Advance
    }
}

/// The objects after the one named by `id` has gone along with a turn by
/// `angle` about `pivot`. An `id` that names no object moves nothing.
pub open spec fn carried(
    objects: Seq<PartView>,
    id: Option<usize>,
    angle: Rotation,
    pivot: Vertex,
) -> Seq<PartView> {
    match id {
        Some(i) => if i < objects.len() {
            objects.update(i as int, turned_part(objects[i as int], angle, pivot))
        } else {
            objects
        },
        None => objects,
    }
}

/// The arm, the phase and the objects after one tick of a run towards
/// `state`. A step of an arm joint takes the object that `state` names along;
/// a step of the gripper moves the fingers alone. A step that the limits
/// reject changes nothing.
pub open spec fn executed(
    arm: ArmView,
    phase: Phase,
    state: State,
    objects: Seq<PartView>,
) -> (ArmView, Phase, Seq<PartView>) {
    match decision(phase, arm.limits, state) {
        Action::Step(joint, dir) => (
            arm.stepped(joint, dir),
            phase,
            if arm.limits.of(joint).allows(dir) && joint != Joint::Gripper {
                carried(objects, state.moved_object, turn_of(joint, dir), arm.pivot(joint))
            } else {
                objects
            },
        ),
        Action::Advance => (arm, phase.next(), objects),
        Action::Idle => (arm, phase, objects),
    }
}

/// Turns the object that `id` names by `angle` about `pivot`.
pub fn carry(objects: &mut Vec<Part>, id: Option<usize>, angle: &Rotation, pivot: Vertex)
    requires
        angle.wf(),
    ensures
        part_views(final(objects)@) == carried(part_views(old(objects)@), id, *angle, pivot),
{
    match id {
        Some(i) => {
            if i < objects.len() {
                turn_part(angle, &mut objects[i], pivot);
            }
        },
        None => {},
    }
    assert(part_views(objects@) =~= carried(part_views(old(objects)@), id, *angle, pivot));
}

/// One tick of a run towards `state`: steps the joint of the current phase
/// towards its target, or ends the phase when the joint is there. The object
/// that `state` names goes along with the arm joints.
pub fn execute(arm: &mut Arm, phase: &mut Phase, state: &State, objects: &mut Vec<Part>)
    requires
        old(arm)@.wf(),
    ensures
        (final(arm)@, *final(phase), part_views(final(objects)@)) == executed(
            old(arm)@,
            *old(phase),
            *state,
            part_views(old(objects)@),
        ),
        (final(arm)@.limits, *final(phase)) == tick(old(arm)@.limits, *old(phase), *state),
        final(arm)@.wf(),
{
    match decide(*phase, &arm.limits, state) {
        Action::Step(joint, dir) => {
            let pivot = arm.pivot(joint);
            let moved = arm.step(joint, dir);
            if moved {
                match joint {
                    Joint::Gripper => {},
                    _ => {
                        let angle = turn(joint, dir);
                        carry(objects, state.moved_object, &angle, pivot);
                    },
                }
            }
        },
        Action::Advance => {
            *phase = phase.next();
        },
        Action::Idle => {},
    }
}

/// One tick of a run that brings the arm home: every joint to the negative
/// end of its range, in the order of the phases. No object goes along.
pub fn base(arm: &mut Arm, phase: &mut Phase)
    requires
        old(arm)@.wf(),
    ensures
        (final(arm)@, *final(phase)) == ({
            let after = executed(old(arm)@, *old(phase), State::home(), Seq::empty());
            (after.0, after.1)
        }),
        (final(arm)@.limits, *final(phase)) == tick(old(arm)@.limits, *old(phase), State::home()),
        final(arm)@.wf(),
{
    let mut none: Vec<Part> = Vec::new();
    let home = State::home();
    assert(part_views(none@) =~= Seq::empty());
    execute(arm, phase, &home, &mut none);
}

/// Running `first` ticks and then `then` more is running them all.
pub proof fn lemma_run_splits(limits: Limits, phase: Phase, target: State, first: nat, then: nat)
    ensures
        run(limits, phase, target, first + then) == ({
            let middle = run(limits, phase, target, first);
            run(middle.0, middle.1, target, then)
        }),
    decreases then,
{
    if then > 0 {
        lemma_run_splits(limits, phase, target, first, (then - 1) as nat);
        assert(first + then - 1 == first + (then - 1) as nat);
    }
}

/// A run never goes back to a phase that it has left: from tick to tick the
/// phase stays or gives way to the next one.
pub proof fn lemma_phases_never_return(
    limits: Limits,
    phase: Phase,
    target: State,
    earlier: nat,
    later: nat,
)
    requires
        earlier <= later,
    ensures
        run(limits, phase, target, earlier).1.rank() <= run(limits, phase, target, later).1.rank(),
    decreases later,
{
    if earlier < later {
        lemma_phases_never_return(limits, phase, target, earlier, (later - 1) as nat);
    }
}

/// A run keeps every joint's limits a range of the size it had.
pub proof fn lemma_run_keeps_ranges(limits: Limits, phase: Phase, target: State, ticks: nat)
    requires
        limits.wf(),
    ensures
        run(limits, phase, target, ticks).0.wf(),
        forall|joint: Joint|
            (#[trigger] run(limits, phase, target, ticks).0.of(joint)).total() == limits.of(
                joint,
            ).total(),
    decreases ticks,
{
    if ticks > 0 {
        lemma_run_keeps_ranges(limits, phase, target, (ticks - 1) as nat);
        let before = run(limits, phase, target, (ticks - 1) as nat);
        let after = run(limits, phase, target, ticks);
        assert forall|joint: Joint| (#[trigger] after.0.of(joint)).total() == limits.of(
            joint,
        ).total() by {
            assert(before.0.of(joint).total() == limits.of(joint).total());
        }
    }
}

/// A phase steps its joint towards the target and nothing else: after `ticks`
/// ticks, no more than the distance to the target, the joint is `ticks` steps
/// nearer, the other joints and the phase are as they were, and every one of
/// those ticks was a step in the direction of the target.
pub proof fn lemma_phase_steps(limits: Limits, phase: Phase, target: State, ticks: nat)
    requires
        limits.wf(),
        phase.joint() is Some,
        0 <= target.target(phase.joint()->0) <= limits.of(phase.joint()->0).total(),
        ticks <= distance(
            limits.of(phase.joint()->0).remaining_negative as int,
            target.target(phase.joint()->0),
        ),
    ensures
        ({
            let joint = phase.joint()->0;
            let counter = limits.of(joint).remaining_negative as int;
            let goal = target.target(joint);
            let now = if counter >= goal { counter - ticks } else { counter + ticks };
            let dir = if counter >= goal { Direction::Negative } else { Direction::Positive };
            &&& run(limits, phase, target, ticks) == (
                limits.with(joint, at_counter(limits.of(joint), now)),
                phase,
            )
            &&& forall|k: nat|
                k < ticks ==> decision(
                    phase,
                    #[trigger] run(limits, phase, target, k).0,
                    target,
                ) == Action::Step(joint, dir)
        }),
    decreases ticks,
{
    let joint = phase.joint()->0;
    let counter = limits.of(joint).remaining_negative as int;
    let goal = target.target(joint);
    let dir = if counter >= goal { Direction::Negative } else { Direction::Positive };
    if ticks > 0 {
        let earlier = (ticks - 1) as nat;
        lemma_phase_steps(limits, phase, target, earlier);
        let before = run(limits, phase, target, earlier);
        assert(decision(phase, before.0, target) == Action::Step(joint, dir));
        assert forall|k: nat| k < ticks implies decision(
            phase,
            #[trigger] run(limits, phase, target, k).0,
            target,
        ) == Action::Step(joint, dir) by {
            if k < earlier {
            } else {
                assert(k == earlier);
            }
        }
    }
}

/// A joint that starts `n` steps from its target is stepped exactly `n` times
/// towards it; the tick after that ends the phase, with the joint on target
/// and the other joints untouched.
pub proof fn lemma_phase_completes(limits: Limits, phase: Phase, target: State)
    requires
        limits.wf(),
        phase.joint() is Some,
        0 <= target.target(phase.joint()->0) <= limits.of(phase.joint()->0).total(),
    ensures
        ({
            let joint = phase.joint()->0;
            let goal = target.target(joint);
            let n = distance(limits.of(joint).remaining_negative as int, goal);
            let settled = limits.with(joint, at_counter(limits.of(joint), goal));
            &&& run(limits, phase, target, n) == (settled, phase)
            &&& run(limits, phase, target, n + 1) == (settled, phase.next())
        }),
{
    let joint = phase.joint()->0;
    let goal = target.target(joint);
    let n = distance(limits.of(joint).remaining_negative as int, goal);
    lemma_phase_steps(limits, phase, target, n);
}

/// The number of ticks a full run takes from `limits` to `target`: the steps
/// of all four joints, and one tick to end each phase.
pub open spec fn run_length(limits: Limits, target: State) -> nat {
    distance(limits.joint1.remaining_negative as int, target.l1 as int) + distance(
        limits.joint2.remaining_negative as int,
        target.l2 as int,
    ) + distance(limits.joint3.remaining_negative as int, target.l3 as int) + distance(
        limits.gripper.remaining_negative as int,
        target.l4 as int,
    ) + 4
}

/// A run from the first phase ends, after `run_length` ticks, with every
/// counter at its target, wherever the joints stood when the run began.
pub proof fn lemma_run_reaches_target(limits: Limits, target: State)
    requires
        limits.wf(),
        target.reachable(limits),
    ensures
        run(limits, Phase::Joint1, target, run_length(limits, target)) == (
            target.limits_within(limits),
            Phase::Done,
        ),
{
    let n1 = distance(limits.joint1.remaining_negative as int, target.l1 as int) + 1;
    let n2 = distance(limits.joint2.remaining_negative as int, target.l2 as int) + 1;
    let n3 = distance(limits.joint3.remaining_negative as int, target.l3 as int) + 1;
    let n4 = distance(limits.gripper.remaining_negative as int, target.l4 as int) + 1;
    lemma_phase_completes(limits, Phase::Joint1, target);
    let s1 = run(limits, Phase::Joint1, target, n1 as nat);
    lemma_phase_completes(s1.0, Phase::Joint2, target);
    let s2 = run(s1.0, Phase::Joint2, target, n2 as nat);
    lemma_phase_completes(s2.0, Phase::Joint3, target);
    let s3 = run(s2.0, Phase::Joint3, target, n3 as nat);
    lemma_phase_completes(s3.0, Phase::Gripper, target);
    let s4 = run(s3.0, Phase::Gripper, target, n4 as nat);
    lemma_run_splits(limits, Phase::Joint1, target, n1 as nat, n2 as nat);
    lemma_run_splits(limits, Phase::Joint1, target, (n1 + n2) as nat, n3 as nat);
    lemma_run_splits(limits, Phase::Joint1, target, (n1 + n2 + n3) as nat, n4 as nat);
    assert(s4.0 == target.limits_within(limits));
}

/// A recorded state is reproduced by replaying it: whatever steps the joints
/// have taken since the state was recorded, the run ends with the counters
/// that were recorded.
pub proof fn lemma_replay_restores(
    recorded: Limits,
    moved_object: Option<usize>,
    now: Limits,
)
    requires
        recorded.wf(),
        now.wf(),
        forall|joint: Joint| (#[trigger] now.of(joint)).total() == recorded.of(joint).total(),
    ensures
        ({
            let target = State::snapshot(recorded, moved_object);
            run(now, Phase::Joint1, target, run_length(now, target)) == (recorded, Phase::Done)
        }),
{
    let target = State::snapshot(recorded, moved_object);
    assert(now.of(Joint::Joint1).total() == recorded.of(Joint::Joint1).total());
    assert(now.of(Joint::Joint2).total() == recorded.of(Joint::Joint2).total());
    assert(now.of(Joint::Joint3).total() == recorded.of(Joint::Joint3).total());
    assert(now.of(Joint::Gripper).total() == recorded.of(Joint::Gripper).total());
    lemma_run_reaches_target(now, target);
}

} // verus!
