//! The scene as a whole: the arm, the free objects, what the gripper holds,
//! the recorded jobs and the run of the sequencer. Commands come in one at a
//! time, each for one discrete step; `tick` is called once per frame.

use vstd::prelude::*;
use crate::arm::{Arm, ArmView, CLAW1, CLAW2, lemma_step_keeps_wf, turn, turn_of};
use crate::chance::random_between;
use crate::geometry::{Vertex, translated};
use crate::grasp::{detect_collision, grasps};
use crate::gravity::{settle, settled_part};
use crate::joint::{Direction, Joint};
use crate::kinematics::part_views;
use crate::part::{Object, Part, PartView, generate_object, object_of};
use crate::sequencer::{
    Action, Phase, State, carried, carry, decision, execute, executed, lemma_replay_restores,
    lemma_run_keeps_ranges, run, run_length,
};

verus! {

/// The scene.
pub struct World {
    pub arm: Arm,
    /// The free objects, oldest first. An object is known by its place here.
    pub objects: Vec<Part>,
    /// The object that the gripper holds. A closing step of the gripper sets
    /// it; it is cleared when the object it names is removed.
    pub held: Option<usize>,
    /// The recorded states, the latest last.
    pub jobs: Vec<State>,
    /// Where the sequencer stands; `Done` when no run is under way.
    pub phase: Phase,
    /// The state that the sequencer drives the arm to.
    pub target: State,
}

/// A scene as plain values.
pub struct WorldView {
    pub arm: ArmView,
    pub objects: Seq<PartView>,
    pub held: Option<usize>,
    pub jobs: Seq<State>,
    pub phase: Phase,
    pub target: State,
}

/// One discrete command from outside. A new object comes in through
/// `World::spawn`, which takes its outline.
#[derive(Clone, Copy, Debug, PartialEq, Eq, Structural)]
pub enum Command {
    /// One step of a joint. The gripper closes with a negative step and opens
    /// with a positive one.
    Step(Joint, Direction),
    /// Record the present state as a job.
    Teach,
    /// Take the latest job and drive the arm to it.
    Replay,
    /// Drive the arm home.
    Home,
    /// Remove the youngest object.
    DeleteLast,
}

impl View for World {
    type V = WorldView;

    open spec fn view(&self) -> WorldView {
        WorldView {
            arm: self.arm@,
            objects: part_views(self.objects@),
            held: self.held,
            jobs: self.jobs@,
            phase: self.phase,
            target: self.target,
        }
    }
}

/// The left edge of the area in which new objects are put.
pub const SPAWN_LEFT: i32 = -200_000;

/// The right edge of the area in which new objects are put.
pub const SPAWN_RIGHT: i32 = 750_000;

/// The lower edge of the area in which new objects are put: the ground.
pub const SPAWN_BOTTOM: i32 = -430_000;

/// The upper edge of the area in which new objects are put.
pub const SPAWN_TOP: i32 = 750_000;

/// The width of an object that is put at a place.
pub const SPAWN_WIDTH: i32 = 50_000;

/// The height of an object that is put at a place.
pub const SPAWN_HEIGHT: i32 = 100_000;

/// Whether `corner` lies in the area in which new objects are put.
pub open spec fn in_spawn_area(corner: Vertex) -> bool {
    &&& SPAWN_LEFT <= corner.x <= SPAWN_RIGHT
    &&& SPAWN_BOTTOM <= corner.y <= SPAWN_TOP
}

/// The outline of an object put at `corner`: an upright rectangle with its
/// lower left corner there, walked counter-clockwise from that corner.
pub open spec fn spawn_outline(corner: Vertex) -> Seq<Vertex> {
    seq![
        corner,
        translated(corner, SPAWN_WIDTH as int, 0),
        translated(corner, SPAWN_WIDTH as int, SPAWN_HEIGHT as int),
        translated(corner, 0, SPAWN_HEIGHT as int),
    ]
}

/// The first of the first `n` objects that the two sensing points grasp.
pub open spec fn first_grasped(
    tip_a: Vertex,
    tip_b: Vertex,
    objects: Seq<PartView>,
    n: nat,
) -> Option<usize>
    decreases n,
{
    if n == 0 {
        None
    } else {
        match first_grasped(tip_a, tip_b, objects, (n - 1) as nat) {
            Some(i) => Some(i),
            None => if grasps(tip_a, tip_b, objects[n - 1].vertices) {
                Some((n - 1) as usize)
            } else {
                None
            },
        }
    }
}

/// `first_grasped` names the first object that is grasped, and none when
/// none is.
pub proof fn lemma_first_grasped(tip_a: Vertex, tip_b: Vertex, objects: Seq<PartView>, n: nat)
    requires
        n <= objects.len(),
        n <= usize::MAX,
    ensures
        match first_grasped(tip_a, tip_b, objects, n) {
            Some(i) => {
                &&& i < n
                &&& grasps(tip_a, tip_b, objects[i as int].vertices)
                &&& forall|j: int| 0 <= j < i ==> !grasps(tip_a, tip_b, objects[j].vertices)
            },
            None => forall|j: int| 0 <= j < n ==> !grasps(tip_a, tip_b, objects[j].vertices),
        },
    decreases n,
{
    if n > 0 {
        lemma_first_grasped(tip_a, tip_b, objects, (n - 1) as nat);
    }
}

impl WorldView {
    /// The arm is whole.
    pub open spec fn wf(self) -> bool {
        self.arm.wf()
    }

    /// Whether object `i` hangs on the gripper: it is held, or it is the
    /// object of the run that is under way.
    pub open spec fn is_carried(self, i: int) -> bool {
        ||| self.held == Some(i as usize)
        ||| self.phase != Phase::Done && self.target.moved_object == Some(i as usize)
    }

    /// The object that the fingers grasp as the arm stands.
    pub open spec fn grasped_now(self) -> Option<usize> {
        first_grasped(
            self.arm.tip(CLAW1 as int),
            self.arm.tip(CLAW2 as int),
            self.objects,
            self.objects.len(),
        )
    }

    /// The scene after an attempt to step `joint` in direction `dir`. A step
    /// of an arm joint takes the held object along. After a closing step of
    /// the gripper the grasp is tested, and the gripper holds what the test
    /// finds: the first object that both fingers grasp, or nothing. No other
    /// step changes what the gripper holds.
    pub open spec fn stepped(self, joint: Joint, dir: Direction) -> WorldView {
        if !self.arm.limits.of(joint).allows(dir) {
            self
        } else {
            let moved = WorldView { arm: self.arm.stepped(joint, dir), ..self };
            match joint {
                Joint::Gripper => {
                    let held = match dir {
                        Direction::Negative => moved.grasped_now(),
                        Direction::Positive => self.held,
                    };
                    WorldView { held, ..moved }
                },
                _ => WorldView {
                    objects: carried(
                        self.objects,
                        self.held,
                        turn_of(joint, dir),
                        self.arm.pivot(joint),
                    ),
                    ..moved
                },
            }
        }
    }

    /// The scene after the present state has been recorded as the latest job.
    pub open spec fn taught(self) -> WorldView {
        WorldView { jobs: self.jobs.push(State::snapshot(self.arm.limits, self.held)), ..self }
    }

    /// The scene after the latest job has been taken off the queue and made
    /// the sequencer's target. With no job recorded nothing changes.
    pub open spec fn replayed(self) -> WorldView {
        if self.jobs.len() == 0 {
            self
        } else {
            WorldView {
                jobs: self.jobs.drop_last(),
                phase: Phase::Joint1,
                target: self.jobs.last(),
                ..self
            }
        }
    }

    /// The scene after "return home" has been triggered.
    pub open spec fn homed(self) -> WorldView {
        WorldView { phase: Phase::Joint1, target: State::home(), ..self }
    }

    /// The scene with a new object of the outline `vertices`.
    pub open spec fn spawned(self, vertices: Seq<Vertex>) -> WorldView {
        WorldView { objects: self.objects.push(object_of(vertices)), ..self }
    }

    /// The scene without its youngest object. If that was the held object the
    /// gripper holds nothing afterwards.
    pub open spec fn deleted(self) -> WorldView {
        if self.objects.len() == 0 {
            self
        } else {
            WorldView {
                objects: self.objects.drop_last(),
                held: if self.held == Some((self.objects.len() - 1) as usize) {
                    None
                } else {
                    self.held
                },
                ..self
            }
        }
    }

    /// The scene after `command`.
    pub open spec fn handled(self, command: Command) -> WorldView {
        match command {
            Command::Step(joint, dir) => self.stepped(joint, dir),
            Command::Teach => self.taught(),
            Command::Replay => self.replayed(),
            Command::Home => self.homed(),
            Command::DeleteLast => self.deleted(),
        }
    }

    /// The scene after every object that does not hang on the gripper has
    /// fallen for one tick.
    pub open spec fn fallen(self) -> WorldView {
        WorldView {
            objects: Seq::new(
                self.objects.len(),
                |i: int|
                    if self.is_carried(i) {
                        self.objects[i]
                    } else {
                        settled_part(self.objects[i])
                    },
            ),
            ..self
        }
    }

    /// The scene after one tick of the sequencer.
    pub open spec fn sequenced(self) -> WorldView {
        let after = executed(self.arm, self.phase, self.target, self.objects);
        WorldView { arm: after.0, phase: after.1, objects: after.2, ..self }
    }

    /// The scene one frame later: the free objects fall, then the sequencer
    /// takes its step.
    pub open spec fn ticked(self) -> WorldView {
        self.fallen().sequenced()
    }
}

impl WorldView {
    /// The scene after the joint steps `moves` have been commanded, in order.
    pub open spec fn after_moves(self, moves: Seq<(Joint, Direction)>) -> WorldView
        decreases moves.len(),
    {
        if moves.len() == 0 {
            self
        } else {
            self.after_moves(moves.drop_last()).stepped(moves.last().0, moves.last().1)
        }
    }

    /// The scene `ticks` frames later, with no command in between.
    pub open spec fn after_ticks(self, ticks: nat) -> WorldView
        decreases ticks,
    {
        if ticks == 0 {
            self
        } else {
            self.after_ticks((ticks - 1) as nat).ticked()
        }
    }
}

/// Joint steps leave the jobs and the sequencer alone, and every joint's
/// range the size it was.
pub proof fn lemma_moves_keep_ranges(world: WorldView, moves: Seq<(Joint, Direction)>)
    requires
        world.wf(),
    ensures
        world.after_moves(moves).wf(),
        world.after_moves(moves).jobs == world.jobs,
        world.after_moves(moves).phase == world.phase,
        world.after_moves(moves).target == world.target,
        forall|joint: Joint|
            (#[trigger] world.after_moves(moves).arm.limits.of(joint)).total()
                == world.arm.limits.of(joint).total(),
    decreases moves.len(),
{
    if moves.len() > 0 {
        lemma_moves_keep_ranges(world, moves.drop_last());
        let before = world.after_moves(moves.drop_last());
        let after = world.after_moves(moves);
        lemma_step_keeps_wf(before.arm, moves.last().0, moves.last().1);
        assert forall|joint: Joint| (#[trigger] after.arm.limits.of(joint)).total()
            == world.arm.limits.of(joint).total() by {
            assert(before.arm.limits.of(joint).total() == world.arm.limits.of(joint).total());
        }
    }
}

/// Frame by frame the counters and the phase of the scene go the way of the
/// sequencer's run, and the target and the jobs stay.
pub proof fn lemma_ticks_follow_run(world: WorldView, ticks: nat)
    requires
        world.wf(),
    ensures
        world.after_ticks(ticks).wf(),
        (world.after_ticks(ticks).arm.limits, world.after_ticks(ticks).phase) == run(
            world.arm.limits,
            world.phase,
            world.target,
            ticks,
        ),
        world.after_ticks(ticks).target == world.target,
        world.after_ticks(ticks).jobs == world.jobs,
        forall|joint: Joint|
            (#[trigger] world.after_ticks(ticks).arm.limits.of(joint)).total()
                == world.arm.limits.of(joint).total(),
    decreases ticks,
{
    lemma_run_keeps_ranges(world.arm.limits, world.phase, world.target, ticks);
    if ticks > 0 {
        lemma_ticks_follow_run(world, (ticks - 1) as nat);
        let before = world.after_ticks((ticks - 1) as nat).fallen();
        match decision(before.phase, before.arm.limits, before.target) {
            Action::Step(joint, dir) => {
                lemma_step_keeps_wf(before.arm, joint, dir);
            },
            _ => {},
        }
    }
}

/// Teach and replay: a state is recorded; the joints are then stepped about
/// by hand in any way; the job is replayed. Once the run is over, after
/// `run_length` frames, every joint has the counters that were recorded.
pub proof fn lemma_teach_then_replay(world: WorldView, moves: Seq<(Joint, Direction)>)
    requires
        world.wf(),
    ensures
        ({
            let replaying = world.taught().after_moves(moves).replayed();
            let frames = run_length(replaying.arm.limits, replaying.target);
            let end = replaying.after_ticks(frames);
            &&& replaying.target == State::snapshot(world.arm.limits, world.held)
            &&& replaying.jobs == world.jobs
            &&& end.phase == Phase::Done
            &&& end.arm.limits == world.arm.limits
        }),
{
    let taught = world.taught();
    let moved = taught.after_moves(moves);
    lemma_moves_keep_ranges(taught, moves);
    let replaying = moved.replayed();
    assert(taught.jobs.len() > 0);
    assert(taught.jobs.last() == State::snapshot(world.arm.limits, world.held));
    assert(taught.jobs.drop_last() =~= world.jobs);
    let frames = run_length(replaying.arm.limits, replaying.target);
    lemma_ticks_follow_run(replaying, frames);
    lemma_replay_restores(world.arm.limits, world.held, moved.arm.limits);
}

/// The first of `objects` that the gripper holds by the grasp test. Both
/// parts must have a tip.
pub fn detect_collisions(claw1: &Part, claw2: &Part, objects: &Vec<Part>) -> (found: Option<usize>)
    requires
        claw1@.tip is Some,
        claw2@.tip is Some,
    ensures
        found == first_grasped(
            claw1@.tip->0,
            claw2@.tip->0,
            part_views(objects@),
            objects@.len(),
        ),
        match found {
            Some(i) => {
                &&& i < objects@.len()
                &&& grasps(claw1@.tip->0, claw2@.tip->0, part_views(objects@)[i as int].vertices)
                &&& forall|j: int|
                    0 <= j < i ==> !grasps(
                        claw1@.tip->0,
                        claw2@.tip->0,
                        part_views(objects@)[j].vertices,
                    )
            },
            None => forall|j: int|
                0 <= j < objects@.len() ==> !grasps(
                    claw1@.tip->0,
                    claw2@.tip->0,
                    part_views(objects@)[j].vertices,
                ),
        },
{
    let n = objects.len();
    let mut i: usize = 0;
    while i < n
        invariant
            n == objects.len(),
            i <= n,
            claw1@.tip is Some,
            claw2@.tip is Some,
            first_grasped(claw1@.tip->0, claw2@.tip->0, part_views(objects@), i as nat) is None,
        decreases n - i,
    {
        if detect_collision(claw1, claw2, objects[i].get_vertices_ref()) {
            proof {
                lemma_found_stays(
                    claw1@.tip->0,
                    claw2@.tip->0,
                    part_views(objects@),
                    (i + 1) as nat,
                    n as nat,
                );
                lemma_first_grasped(claw1@.tip->0, claw2@.tip->0, part_views(objects@), n as nat);
            }
            return Some(i);
        }
        i += 1;
    }
    proof {
        lemma_first_grasped(claw1@.tip->0, claw2@.tip->0, part_views(objects@), n as nat);
    }
    None
}

proof fn lemma_found_stays(tip_a: Vertex, tip_b: Vertex, objects: Seq<PartView>, n: nat, m: nat)
    requires
        n <= m,
        first_grasped(tip_a, tip_b, objects, n) is Some,
    ensures
        first_grasped(tip_a, tip_b, objects, m) == first_grasped(tip_a, tip_b, objects, n),
    decreases m,
{
    if m > n {
        lemma_found_stays(tip_a, tip_b, objects, n, (m - 1) as nat);
    }
}

impl World {
    /// A scene with the arm `arm` and one object, at rest: nothing held,
    /// nothing recorded, no run under way.
    pub fn new(arm: Arm, object: Object) -> (world: World)
        requires
            arm@.wf(),
        ensures
            world@ == (WorldView {
                arm: arm@,
                objects: seq![object_of(object.vertices@)],
                held: None,
                jobs: Seq::empty(),
                phase: Phase::Done,
                target: State::home(),
            }),
            world@.wf(),
    {
        let mut objects: Vec<Part> = Vec::new();
        objects.push(Part::Object(object));
        let world = World {
            arm,
            objects,
            held: None,
            jobs: Vec::new(),
            phase: Phase::Done,
            target: State::home(),
        };
        assert(world@.objects =~= seq![object_of(object.vertices@)]);
        world
    }

    /// Whether the arm of the scene is whole. `step_joint`, `handle` and `tick`
    /// ask for this, and keep it.
    pub fn is_whole(&self) -> (whole: bool)
        ensures
            whole == self@.wf(),
    {
        self.arm.is_whole()
    }

    /// Tries one step of `joint` in direction `dir`. At the end of the joint's
    /// range nothing changes and the result is `false`.
    pub fn step_joint(&mut self, joint: Joint, dir: Direction) -> (moved: bool)
        requires
            old(self)@.wf(),
        ensures
            moved == old(self)@.arm.limits.of(joint).allows(dir),
            final(self)@ == old(self)@.stepped(joint, dir),
            final(self)@.wf(),
    {
        let pivot = self.arm.pivot(joint);
        if !self.arm.step(joint, dir) {
            return false;
        }
        match joint {
            Joint::Gripper => {
                assert(self.arm@.parts[CLAW1 as int].tip is Some);
                assert(self.arm@.parts[CLAW2 as int].tip is Some);
                match dir {
                    Direction::Negative => {
                        self.held = detect_collisions(
                            &self.arm.parts[CLAW1],
                            &self.arm.parts[CLAW2],
                            &self.objects,
                        );
                    },
                    Direction::Positive => {},
                }
            },
            _ => {
                let angle = turn(joint, dir);
                carry(&mut self.objects, self.held, &angle, pivot);
            },
        }
        true
    }

    /// Records the counters of all joints and the held object as the latest
    /// job.
    pub fn teach(&mut self)
        ensures
            final(self)@ == old(self)@.taught(),
    {
        let state = State::record(&self.arm.limits, self.held);
        self.jobs.push(state);
    }

    /// Takes the latest job off the queue and starts a run towards it. With no
    /// job recorded nothing happens and the result is `false`.
    pub fn replay(&mut self) -> (started: bool)
        ensures
            started == (old(self)@.jobs.len() > 0),
            final(self)@ == old(self)@.replayed(),
    {
        match self.jobs.pop() {
            Some(job) => {
                self.target = job;
                self.phase = Phase::Joint1;
                true
            },
            None => false,
        }
    }

    /// Starts a run that brings the arm home.
    pub fn home(&mut self)
        ensures
            final(self)@ == old(self)@.homed(),
    {
        self.target = State::home();
        self.phase = Phase::Joint1;
    }

    /// Adds an object of the outline `vertices` to the scene and returns the
    /// place it is known by.
    pub fn spawn(&mut self, vertices: Vec<Vertex>) -> (id: usize)
        ensures
            id == old(self)@.objects.len(),
            final(self)@ == old(self)@.spawned(vertices@),
    {
        let id = self.objects.len();
        self.objects.push(Part::Object(generate_object(vertices)));
        assert(part_views(self.objects@) =~= old(self)@.objects.push(object_of(vertices@)));
        id
    }

    /// Adds an object with its lower left corner at `corner` and returns the
    /// place it is known by.
    pub fn spawn_at(&mut self, corner: Vertex) -> (id: usize)
        ensures
            id == old(self)@.objects.len(),
            final(self)@ == old(self)@.spawned(spawn_outline(corner)),
    {
        let mut outline: Vec<Vertex> = Vec::new();
        outline.push(corner);
        outline.push(corner.offset(SPAWN_WIDTH, 0));
        outline.push(corner.offset(SPAWN_WIDTH, SPAWN_HEIGHT));
        outline.push(corner.offset(0, SPAWN_HEIGHT));
        assert(outline@ =~= spawn_outline(corner));
        self.spawn(outline)
    }

    /// Adds an object at a place that `rng` draws from the area for new
    /// objects. Returns the place the object is known by and the corner it
    /// was put at.
    pub fn spawn_random(&mut self, rng: &mut rand::rngs::ThreadRng) -> (placed: (usize, Vertex))
        ensures
            placed.0 == old(self)@.objects.len(),
            in_spawn_area(placed.1),
            final(self)@ == old(self)@.spawned(spawn_outline(placed.1)),
    {
        let x = random_between(rng, SPAWN_LEFT, SPAWN_RIGHT);
        let y = random_between(rng, SPAWN_BOTTOM, SPAWN_TOP);
        let corner = Vertex { x, y };
        let id = self.spawn_at(corner);
        (id, corner)
    }

    /// Removes the youngest object. With no object in the scene nothing
    /// happens and the result is `false`.
    pub fn delete_last(&mut self) -> (removed: bool)
        ensures
            removed == (old(self)@.objects.len() > 0),
            final(self)@ == old(self)@.deleted(),
    {
        match self.objects.pop() {
            Some(_) => {
                let gone = self.objects.len();
                let was_held = match self.held {
                    Some(id) => id == gone,
                    None => false,
                };
                if was_held {
                    self.held = None;
                }
                assert(part_views(self.objects@) =~= old(self)@.objects.drop_last());
                true
            },
            None => false,
        }
    }

    /// Carries out `command`.
    pub fn handle(&mut self, command: Command)
        requires
            old(self)@.wf(),
        ensures
            final(self)@ == old(self)@.handled(command),
            final(self)@.wf(),
    {
        match command {
            Command::Step(joint, dir) => {
                self.step_joint(joint, dir);
            },
            Command::Teach => self.teach(),
            Command::Replay => {
                self.replay();
            },
            Command::Home => self.home(),
            Command::DeleteLast => {
                self.delete_last();
            },
        }
    }

    /// Whether object `i` hangs on the gripper.
    pub fn carries(&self, i: usize) -> (carried: bool)
        ensures
            carried == self@.is_carried(i as int),
    {
        let held = match self.held {
            Some(id) => id == i,
            None => false,
        };
        let running = match self.phase {
            Phase::Done => false,
            _ => match self.target.moved_object {
                Some(id) => id == i,
                None => false,
            },
        };
        held || running
    }

    /// Lets every object that does not hang on the gripper fall for one tick.
    pub fn fall(&mut self)
        ensures
            final(self)@ == old(self)@.fallen(),
    {
        let n = self.objects.len();
        let mut i: usize = 0;
        while i < n
            invariant
                n == self.objects.len(),
                n == old(self).objects.len(),
                i <= n,
                self.arm == old(self).arm,
                self.held == old(self).held,
                self.jobs == old(self).jobs,
                self.phase == old(self).phase,
                self.target == old(self).target,
                forall|k: int| i <= k < n ==> self.objects@[k] == old(self).objects@[k],
                forall|k: int|
                    0 <= k < i ==> self.objects@[k]@ == old(self)@.fallen().objects[k],
            decreases n - i,
        {
            if !self.carries(i) {
                settle(&mut self.objects[i]);
            }
            i += 1;
        }
        assert(self@.objects =~= old(self)@.fallen().objects);
    }

    /// One frame: the free objects fall, then the sequencer takes its step.
    pub fn tick(&mut self)
        requires
            old(self)@.wf(),
        ensures
            final(self)@ == old(self)@.ticked(),
            final(self)@.wf(),
    {
        self.fall();
        let target = self.target;
        execute(&mut self.arm, &mut self.phase, &target, &mut self.objects);
    }
}

} // verus!
