//! Free fall: an object that nothing holds sinks by a fixed step per tick
//! until it rests on the ground.

use vstd::prelude::*;
use crate::geometry::{Vertex, translated};
use crate::part::{Part, PartView};

verus! {

/// The height of the ground.
pub const GROUND: i32 = -430_000;

/// How far a falling object sinks in one tick.
pub const GRAVITY_STEP: i32 = 10_000;

/// How far an object sinks in the next tick when its reference vertex is at
/// height `y`: a full step, or what is left down to the ground; nothing once
/// it is at the ground or below.
pub open spec fn fall_distance(y: int) -> int {
    if y <= GROUND {
        0
    } else if y - GROUND < GRAVITY_STEP {
        y - GROUND
    } else {
        GRAVITY_STEP as int
    }
}

/// The height of the reference vertex after `ticks` more ticks.
pub open spec fn height_after(y: int, ticks: nat) -> int
    decreases ticks,
{
    if ticks == 0 {
        y
    } else {
        let before = height_after(y, (ticks - 1) as nat);
        before - fall_distance(before)
    }
}

/// The number of ticks an object at height `y` needs to come to rest.
pub open spec fn ticks_to_ground(y: int) -> nat {
    if y <= GROUND {
        0
    } else {
        ((y - GROUND + GRAVITY_STEP - 1) / (GRAVITY_STEP as int)) as nat
    }
}

/// The height that decides whether a polygon falls: that of its first
/// vertex. An empty outline has none.
pub open spec fn reference_height(vertices: Seq<Vertex>) -> Option<int> {
    if vertices.len() == 0 {
        None
    } else {
        Some(vertices[0].y as int)
    }
}

/// How far the polygon `vertices` sinks in the next tick.
pub open spec fn fall_of(vertices: Seq<Vertex>) -> int {
    match reference_height(vertices) {
        Some(y) => fall_distance(y),
        None => 0,
    }
}

/// Every point of `points` lowered by `distance`.
pub open spec fn lowered_points(points: Seq<Vertex>, distance: int) -> Seq<Vertex> {
    Seq::new(points.len(), |i: int| translated(points[i], 0, -distance))
}

/// A part lowered by `distance`, outline and tip alike.
pub open spec fn lowered_part(part: PartView, distance: int) -> PartView {
    PartView {
        kind: part.kind,
        vertices: lowered_points(part.vertices, distance),
        tip: match part.tip {
            Some(tip) => Some(translated(tip, 0, -distance)),
            None => None,
        },
        indices: part.indices,
    }
}

/// Whether a polygon is still above the ground, so that it falls when nothing
/// holds it.
pub fn is_airborne(vertices: &Vec<Vertex>) -> (airborne: bool)
    ensures
        airborne == (fall_of(vertices@) > 0),
{
    vertices.len() > 0 && vertices[0].y > GROUND
}

/// Lowers every point of `points` by `distance`.
fn lower_points(points: &mut Vec<Vertex>, distance: i32)
    requires
        0 <= distance <= GRAVITY_STEP,
    ensures
        final(points)@ == lowered_points(old(points)@, distance as int),
{
    let n = points.len();
    let mut i: usize = 0;
    while i < n
        invariant
            0 <= distance <= GRAVITY_STEP,
            n == points.len(),
            points.len() == old(points).len(),
            i <= n,
            forall|k: int| 0 <= k < i ==> points@[k] == translated(old(points)@[k], 0, -distance),
            forall|k: int| i <= k < n ==> points@[k] == old(points)@[k],
        decreases n - i,
    {
        let v = points[i];
        points[i] = v.offset(0, -distance);
        i += 1;
    }
    assert(points@ =~= lowered_points(old(points)@, distance as int));
}

/// The reference height of a polygon one tick later.
pub open spec fn reference_after_tick(vertices: Seq<Vertex>) -> Option<int> {
    match reference_height(vertices) {
        Some(y) => Some(height_after(y, 1)),
        None => None,
    }
}

/// A part after one tick of free fall.
pub open spec fn settled_part(part: PartView) -> PartView {
    lowered_part(part, fall_of(part.vertices))
}

/// One tick of free fall, in place.
pub fn settle(part: &mut Part)
    ensures
        final(part)@ == settled_part(old(part)@),
        reference_height(final(part)@.vertices) == reference_after_tick(old(part)@.vertices),
{
    let distance = next_fall(part.get_vertices_ref());
    proof {
        if part@.vertices.len() > 0 {
            let y = part@.vertices[0].y as int;
            assert(height_after(y, 0) == y);
        }
    }
    match part {
        Part::Chain(chain) => {
            lower_points(&mut chain.vertices, distance);
            chain.tip = chain.tip.offset(0, -distance);
        },
        Part::Claw(claw) => {
            lower_points(&mut claw.vertices, distance);
            claw.tip = claw.tip.offset(0, -distance);
        },
        Part::Object(object) => {
            lower_points(&mut object.vertices, distance);
        },
    }
}

/// One tick of free fall: every vertex of `part`, and its tip where it has
/// one, sinks by `GRAVITY_STEP`, the last step cut short so that the reference
/// vertex comes to rest on the ground and not below. A part at rest stays as it
/// is. Returns the outline as it now stands.
pub fn apply_gravity(part: &mut Part) -> (updated: Vec<Vertex>)
    ensures
        final(part)@ == settled_part(old(part)@),
        reference_height(final(part)@.vertices) == reference_after_tick(old(part)@.vertices),
        updated@ == final(part)@.vertices,
{
    settle(part);
    part.get_vertices_ref().clone()
}

/// How far the polygon `vertices` sinks in the next tick.
pub fn next_fall(vertices: &Vec<Vertex>) -> (distance: i32)
    ensures
        distance == fall_of(vertices@),
        0 <= distance <= GRAVITY_STEP,
{
    if vertices.len() == 0 {
        return 0;
    }
    let y = vertices[0].y;
    if y <= GROUND {
        0
    } else if y < GROUND + GRAVITY_STEP {
        y - GROUND
    } else {
        GRAVITY_STEP
    }
}

/// A part after `ticks` ticks of free fall.
pub open spec fn settled_for(part: PartView, ticks: nat) -> PartView
    decreases ticks,
{
    if ticks == 0 {
        part
    } else {
        settled_part(settled_for(part, (ticks - 1) as nat))
    }
}

/// Tick by tick the reference vertex of a falling part is where `height_after`
/// says: a full step lower each time, until it rests on the ground.
pub proof fn lemma_fall_follows_height(part: PartView, ticks: nat)
    requires
        part.vertices.len() > 0,
    ensures
        settled_for(part, ticks).vertices.len() == part.vertices.len(),
        reference_height(settled_for(part, ticks).vertices) == Some(
            height_after(part.vertices[0].y as int, ticks),
        ),
    decreases ticks,
{
    if ticks > 0 {
        lemma_fall_follows_height(part, (ticks - 1) as nat);
    }
}

/// A falling object never sinks below the ground, and one at rest stays put.
pub proof fn lemma_fall_stops_at_ground(y: int, ticks: nat)
    ensures
        y >= GROUND ==> height_after(y, ticks) >= GROUND,
        y <= GROUND ==> height_after(y, ticks) == y,
        height_after(y, ticks) <= y,
    decreases ticks,
{
    if ticks > 0 {
        lemma_fall_stops_at_ground(y, (ticks - 1) as nat);
    }
}

/// While it is in the air an object sinks by a full step per tick: after
/// `ticks` ticks it is `ticks` steps lower, or on the ground if that would
/// take it below.
pub proof fn lemma_height_after(y: int, ticks: nat)
    requires
        y >= GROUND,
    ensures
        height_after(y, ticks) == if y - ticks * GRAVITY_STEP >= GROUND {
            y - ticks * GRAVITY_STEP
        } else {
            GROUND as int
        },
    decreases ticks,
{
    if ticks > 0 {
        lemma_height_after(y, (ticks - 1) as nat);
    }
}

/// An object above the ground rests on it after `ticks_to_ground` ticks, the
/// distance divided by the step and rounded up; it is still in the air one
/// tick earlier, and it stays on the ground from then on.
pub proof fn lemma_lands_on_time(y: int, ticks: nat)
    requires
        y > GROUND,
    ensures
        ticks >= ticks_to_ground(y) ==> height_after(y, ticks) == GROUND,
        ticks < ticks_to_ground(y) ==> height_after(y, ticks) > GROUND,
{
    lemma_height_after(y, ticks);
    let n = ticks_to_ground(y);
    let d = y - GROUND + GRAVITY_STEP - 1;
    vstd::arithmetic::div_mod::lemma_fundamental_div_mod(d, GRAVITY_STEP as int);
    vstd::arithmetic::div_mod::lemma_mod_bound(d, GRAVITY_STEP as int);
    assert(n * GRAVITY_STEP >= y - GROUND);
    assert((n - 1) * GRAVITY_STEP < y - GROUND);
    if ticks >= n {
        assert(ticks * GRAVITY_STEP >= n * GRAVITY_STEP) by (nonlinear_arith)
            requires
                ticks >= n,
        ;
    } else {
        assert(ticks * GRAVITY_STEP <= (n - 1) * GRAVITY_STEP) by (nonlinear_arith)
            requires
                ticks <= n - 1,
        ;
    }
}

} // verus!
