//! Turning parts about a pivot.

use vstd::prelude::*;
use crate::geometry::Vertex;
use crate::part::{Part, PartView};
use crate::rotation::{
    Rotation, lemma_identity_fixes, lemma_inverse_restores, restored, turn_fits,
};

verus! {

/// Every point of `points` turned by `angle` about `pivot`.
pub open spec fn turned_points(points: Seq<Vertex>, angle: Rotation, pivot: Vertex) -> Seq<Vertex> {
    Seq::new(points.len(), |i: int| angle.rotated(points[i], pivot))
}

/// A part after a turn: outline and tip turned alike, the rest as it was.
pub open spec fn turned_part(part: PartView, angle: Rotation, pivot: Vertex) -> PartView {
    PartView {
        kind: part.kind,
        vertices: turned_points(part.vertices, angle, pivot),
        tip: match part.tip {
            Some(tip) => Some(angle.rotated(tip, pivot)),
            None => None,
        },
        indices: part.indices,
    }
}

/// Turns every point of `points` by `angle` about `pivot`.
pub fn rotate_points(angle: &Rotation, points: &mut Vec<Vertex>, pivot: Vertex)
    requires
        angle.wf(),
    ensures
        final(points)@ == turned_points(old(points)@, *angle, pivot),
{
    let n = points.len();
    let mut i: usize = 0;
    while i < n
        invariant
            angle.wf(),
            n == points.len(),
            points.len() == old(points).len(),
            i <= n,
            forall|k: int| 0 <= k < i ==> points@[k] == angle.rotated(old(points)@[k], pivot),
            forall|k: int| i <= k < n ==> points@[k] == old(points)@[k],
        decreases n - i,
    {
        let v = points[i];
        points[i] = angle.apply(v, pivot);
        i += 1;
    }
    assert(points@ =~= turned_points(old(points)@, *angle, pivot));
}

/// The parts of `parts` as plain values.
pub open spec fn part_views(parts: Seq<Part>) -> Seq<PartView> {
    Seq::new(parts.len(), |i: int| parts[i]@)
}

/// The parts from index `first` on turned by `angle` about `pivot`, those
/// before it left where they are.
pub open spec fn turned_from(
    parts: Seq<PartView>,
    first: int,
    angle: Rotation,
    pivot: Vertex,
) -> Seq<PartView> {
    Seq::new(
        parts.len(),
        |i: int|
            if i >= first {
                turned_part(parts[i], angle, pivot)
            } else {
                parts[i]
            },
    )
}

/// Turns `part` by `angle` about `pivot` in place.
pub fn turn_part(angle: &Rotation, part: &mut Part, pivot: Vertex)
    requires
        angle.wf(),
    ensures
        final(part)@ == turned_part(old(part)@, *angle, pivot),
{
    match part {
        Part::Chain(chain) => {
            rotate_points(angle, &mut chain.vertices, pivot);
            chain.tip = angle.apply(chain.tip, pivot);
        },
        Part::Claw(claw) => {
            rotate_points(angle, &mut claw.vertices, pivot);
            claw.tip = angle.apply(claw.tip, pivot);
        },
        Part::Object(object) => {
            rotate_points(angle, &mut object.vertices, pivot);
        },
    }
}

/// Turns `part` by `angle` about `pivot`: every vertex, and the tip where the
/// part has one. Returns the outline as it now stands.
pub fn rotate(angle: &Rotation, part: &mut Part, pivot: Vertex) -> (updated: Vec<Vertex>)
    requires
        angle.wf(),
    ensures
        final(part)@ == turned_part(old(part)@, *angle, pivot),
        updated@ == final(part)@.vertices,
{
    turn_part(angle, part, pivot);
    part.get_vertices_ref().clone()
}

/// Turns the parts from index `first` on by `angle` about `pivot`, as one
/// rigid body. The parts before `first` are upstream of the joint and stay.
pub fn rotate_from(angle: &Rotation, parts: &mut Vec<Part>, first: usize, pivot: Vertex)
    requires
        angle.wf(),
    ensures
        part_views(final(parts)@) == turned_from(
            part_views(old(parts)@),
            first as int,
            *angle,
            pivot,
        ),
{
    let n = parts.len();
    let mut i: usize = first;
    while i < n
        invariant
            angle.wf(),
            n == parts.len(),
            parts.len() == old(parts).len(),
            first <= i,
            forall|k: int| 0 <= k < n && (k < first || k >= i) ==> parts@[k] == old(parts)@[k],
            forall|k: int|
                first <= k < i && k < n ==> parts@[k]@ == turned_part(
                    old(parts)@[k]@,
                    *angle,
                    pivot,
                ),
        decreases n - i,
    {
        turn_part(angle, &mut parts[i], pivot);
        i += 1;
    }
    assert(part_views(parts@) =~= turned_from(
        part_views(old(parts)@),
        first as int,
        *angle,
        pivot,
    ));
}

/// Turns every part of `parts` by `angle` about `pivot`, as one rigid body.
pub fn rotate_all(angle: &Rotation, parts: &mut Vec<Part>, pivot: Vertex)
    requires
        angle.wf(),
    ensures
        part_views(final(parts)@) == turned_from(part_views(old(parts)@), 0, *angle, pivot),
{
    rotate_from(angle, parts, 0, pivot);
}

/// A tip that is one of the part's vertices is still that vertex after a turn.
pub proof fn lemma_turn_keeps_tip_on_vertex(part: PartView, angle: Rotation, pivot: Vertex, k: int)
    requires
        part.tip_is_vertex(k),
    ensures
        turned_part(part, angle, pivot).tip_is_vertex(k),
{
}

/// Turning a part by no angle leaves its outline and its tip as they are.
pub proof fn lemma_identity_turn(part: PartView, pivot: Vertex)
    ensures
        turned_part(part, Rotation::identity(), pivot) == part,
{
    let after = turned_part(part, Rotation::identity(), pivot);
    assert forall|i: int| 0 <= i < part.vertices.len() implies after.vertices[i]
        == part.vertices[i] by {
        lemma_identity_fixes(part.vertices[i], pivot);
    }
    assert(after.vertices =~= part.vertices);
    if part.tip is Some {
        lemma_identity_fixes(part.tip->0, pivot);
    }
}

/// Turning a part and then turning it back by the inverse brings every vertex,
/// and the tip, back to where it was, up to `round_trip_tolerance` along each
/// axis, wherever no turned point saturates.
pub proof fn lemma_inverse_turn(part: PartView, angle: Rotation, pivot: Vertex)
    requires
        angle.wf(),
        forall|i: int| 0 <= i < part.vertices.len() ==> turn_fits(angle, part.vertices[i], pivot),
        part.tip matches Some(tip) ==> turn_fits(angle, tip, pivot),
    ensures
        ({
            let back = turned_part(turned_part(part, angle, pivot), angle.inverse(), pivot);
            &&& back.kind == part.kind
            &&& back.indices == part.indices
            &&& back.vertices.len() == part.vertices.len()
            &&& forall|i: int|
                0 <= i < part.vertices.len() ==> restored(
                    #[trigger] back.vertices[i],
                    part.vertices[i],
                    pivot,
                )
            &&& part.tip matches Some(tip) ==> back.tip is Some && restored(
                back.tip->0,
                tip,
                pivot,
            )
            &&& part.tip is None ==> back.tip is None
        }),
{
    let back = turned_part(turned_part(part, angle, pivot), angle.inverse(), pivot);
    assert forall|i: int| 0 <= i < part.vertices.len() implies restored(
        #[trigger] back.vertices[i],
        part.vertices[i],
        pivot,
    ) by {
        lemma_inverse_restores(angle, part.vertices[i], pivot);
    }
    if part.tip is Some {
        lemma_inverse_restores(angle, part.tip->0, pivot);
    }
}

} // verus!
