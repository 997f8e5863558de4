//! The rigid parts of the scene: arm links, gripper fingers and free objects.

use vstd::prelude::*;
use crate::geometry::{Vertex, translated};
use crate::rotation::Rotation;

verus! {

/// The radius of a joint disc.
pub const DEF_RADIUS: i32 = 50_000;

/// How much narrower a link is at its far end than the joint disc, on each
/// side.
pub const DEF_THINNING: i32 = 20_000;

/// The length of a link, from its joint to its tip.
pub const DEF_HEIGHT: i32 = 400_000;

/// The number of outline points in a full joint disc.
pub const DISC_SEGMENTS: u32 = 100;

/// An arm link: a wedge on a joint disc. `tip` is where the next link hinges.
#[derive(Debug, PartialEq, Eq)]
pub struct Chain {
    pub vertices: Vec<Vertex>,
    pub indices: Vec<u32>,
    pub tip: Vertex,
}

/// A gripper finger: a three-point wedge. `tip` is the point it hinges on and
/// senses with.
#[derive(Debug, PartialEq, Eq)]
pub struct Claw {
    pub vertices: Vec<Vertex>,
    pub tip: Vertex,
}

/// A free polygon that the gripper can pick up.
#[derive(Debug, PartialEq, Eq)]
pub struct Object {
    pub vertices: Vec<Vertex>,
}

/// Any part of the scene.
#[derive(Debug, PartialEq, Eq)]
pub enum Part {
    Chain(Chain),
    Claw(Claw),
    Object(Object),
}

/// Which variant a part is.
#[derive(Clone, Copy, Debug, PartialEq, Eq, Structural)]
pub enum PartKind {
    Chain,
    Claw,
    Object,
}

/// What a part is, as plain values: its outline in drawing order, the point
/// that turns in lock-step with it, and the order in which a renderer walks the
/// outline (empty where the outline is walked as it stands).
pub struct PartView {
    pub kind: PartKind,
    pub vertices: Seq<Vertex>,
    pub tip: Option<Vertex>,
    pub indices: Seq<u32>,
}

impl PartView {
    /// Whether the tip of the part is its vertex `k`.
    pub open spec fn tip_is_vertex(self, k: int) -> bool {
        0 <= k < self.vertices.len() && self.tip == Some(self.vertices[k])
    }
}

impl View for Part {
    type V = PartView;

    open spec fn view(&self) -> PartView {
        match *self {
            Part::Chain(c) => PartView {
                kind: PartKind::Chain,
                vertices: c.vertices@,
                tip: Some(c.tip),
                indices: c.indices@,
            },
            Part::Claw(c) => PartView {
                kind: PartKind::Claw,
                vertices: c.vertices@,
                tip: Some(c.tip),
                indices: Seq::empty(),
            },
            Part::Object(o) => PartView {
                kind: PartKind::Object,
                vertices: o.vertices@,
                tip: None,
                indices: Seq::empty(),
            },
        }
    }
}

impl Part {
    /// The outline of the part.
    pub fn get_vertices_ref(&self) -> (vertices: &Vec<Vertex>)
        ensures
            vertices@ == self@.vertices,
    {
        match self {
            Part::Chain(c) => &c.vertices,
            Part::Claw(c) => &c.vertices,
            Part::Object(o) => &o.vertices,
        }
    }

    /// The outline of the part, to be changed in place.
    pub fn get_vertices(&mut self) -> (vertices: &mut Vec<Vertex>)
        ensures
            vertices@ == old(self)@.vertices,
            final(self)@ == (PartView { vertices: final(vertices)@, ..old(self)@ }),
    {
        match self {
            Part::Chain(c) => &mut c.vertices,
            Part::Claw(c) => &mut c.vertices,
            Part::Object(o) => &mut o.vertices,
        }
    }

    /// The tip of a link or finger; a free object has none.
    pub fn get_tip(&self) -> (tip: Option<Vertex>)
        ensures
            tip == self@.tip,
    {
        match self {
            Part::Chain(c) => Some(c.tip),
            Part::Claw(c) => Some(c.tip),
            Part::Object(_) => None,
        }
    }
}

/// Point `i` on the outline of the joint disc about `center`, counted
/// counter-clockwise from the disc's rightmost point in hundredths of a turn.
pub open spec fn rim_point(center: Vertex, i: nat) -> Vertex
    decreases i,
{
    if i == 0 {
        translated(center, DEF_RADIUS as int, 0)
    } else {
        Rotation::outline_step().rotated(rim_point(center, (i - 1) as nat), center)
    }
}

/// The outline of a link that stands upright on the joint at `center`: the two
/// far corners of the wedge with the disc's leftmost point between them, then
/// the disc's outline from its third point round to its start.
pub open spec fn chain_outline(center: Vertex) -> Seq<Vertex> {
    Seq::new(
        (DISC_SEGMENTS + 1) as nat,
        |i: int|
            if i == 0 {
                translated(center, DEF_RADIUS - DEF_THINNING, DEF_HEIGHT as int)
            } else if i == 1 {
                translated(center, -DEF_RADIUS, 0)
            } else if i == 2 {
                translated(center, -DEF_RADIUS + DEF_THINNING, DEF_HEIGHT as int)
            } else {
                rim_point(center, i as nat)
            },
    )
}

/// The order in which a link's outline is drawn as a fan: the wedge and the
/// first disc point, then the disc points once more from the first on.
pub open spec fn chain_indices() -> Seq<u32> {
    Seq::new(
        (DISC_SEGMENTS + 2) as nat,
        |i: int|
            if i <= 3 {
                i as u32
            } else {
                (i - 1) as u32
            },
    )
}

/// A link that stands upright on the joint at `center`.
pub open spec fn chain_at(center: Vertex) -> PartView {
    PartView {
        kind: PartKind::Chain,
        vertices: chain_outline(center),
        tip: Some(translated(center, 0, DEF_HEIGHT as int)),
        indices: chain_indices(),
    }
}

/// A finger hinged `side` above the wrist `wrist` (below it for a negative
/// `side`), pointing right: its hinge, its back and its far end.
pub open spec fn claw_at(wrist: Vertex, side: int) -> PartView {
    PartView {
        kind: PartKind::Claw,
        vertices: seq![
            translated(wrist, 0, side * (DEF_THINNING + 10_000)),
            translated(wrist, 10_000, side * (DEF_THINNING + 40_000)),
            translated(wrist, 60_000, side * (DEF_THINNING + 30_000)),
        ],
        tip: Some(translated(wrist, 0, side * (DEF_THINNING + 10_000))),
        indices: Seq::empty(),
    }
}

/// The tip of a finger is its first vertex.
pub proof fn lemma_claw_tip_is_first_vertex(wrist: Vertex, side: int)
    ensures
        claw_at(wrist, side).tip_is_vertex(0),
{
}

/// A free object with the outline `vertices`.
pub open spec fn object_of(vertices: Seq<Vertex>) -> PartView {
    PartView { kind: PartKind::Object, vertices, tip: None, indices: Seq::empty() }
}

/// The outline, drawing order and tip of a link that stands upright on the
/// joint at `(center_x, center_y)`.
pub fn generate_vertices(center_x: i32, center_y: i32) -> (link: (Vec<Vertex>, Vec<u32>, Vertex))
    ensures
        link.0@ == chain_outline(Vertex { x: center_x, y: center_y }),
        link.1@ == chain_indices(),
        link.2 == translated(Vertex { x: center_x, y: center_y }, 0, DEF_HEIGHT as int),
{
    let center = Vertex { x: center_x, y: center_y };
    let mut vertices: Vec<Vertex> = Vec::new();
    vertices.push(center.offset(DEF_RADIUS - DEF_THINNING, DEF_HEIGHT));
    vertices.push(center.offset(-DEF_RADIUS, 0));
    vertices.push(center.offset(-DEF_RADIUS + DEF_THINNING, DEF_HEIGHT));
    let mut indices: Vec<u32> = Vec::new();
    indices.push(0);
    indices.push(1);
    indices.push(2);
    indices.push(3);
    let step = Rotation::outline_step();
    let mut rim = center.offset(DEF_RADIUS, 0);
    let mut i: u32 = 1;
    while i <= DISC_SEGMENTS
        invariant
            1 <= i <= DISC_SEGMENTS + 1,
            center == (Vertex { x: center_x, y: center_y }),
            step == Rotation::outline_step(),
            step.wf(),
            rim == rim_point(center, (i - 1) as nat),
            vertices@.len() == (if i <= 3 { 3 } else { i as int }),
            indices@.len() == (if i <= 3 { 4 } else { i + 1 }),
            forall|k: int| 0 <= k < vertices@.len() ==> vertices@[k] == chain_outline(center)[k],
            forall|k: int| 0 <= k < indices@.len() ==> indices@[k] == chain_indices()[k],
        decreases DISC_SEGMENTS + 1 - i,
    {
        rim = step.apply(rim, center);
        if i >= 3 {
            vertices.push(rim);
            indices.push(i);
        }
        i += 1;
    }
    assert(vertices@ =~= chain_outline(center));
    assert(indices@ =~= chain_indices());
    (vertices, indices, center.offset(0, DEF_HEIGHT))
}

/// A link that stands upright on the joint at `(center_x, center_y)`.
pub fn generate_chain(center_x: i32, center_y: i32) -> (chain: Chain)
    ensures
        Part::Chain(chain)@ == chain_at(Vertex { x: center_x, y: center_y }),
{
    let (vertices, indices, tip) = generate_vertices(center_x, center_y);
    Chain { vertices, indices, tip }
}

/// The two fingers of a gripper whose wrist is at `vertex`: the first above
/// it, the second below, both pointing right.
pub fn generate_claws(vertex: Vertex) -> (claws: (Part, Part))
    ensures
        claws.0@ == claw_at(vertex, 1),
        claws.1@ == claw_at(vertex, -1),
{
    let mut upper: Vec<Vertex> = Vec::new();
    upper.push(vertex.offset(0, DEF_THINNING + 10_000));
    upper.push(vertex.offset(10_000, DEF_THINNING + 40_000));
    upper.push(vertex.offset(60_000, DEF_THINNING + 30_000));
    let mut lower: Vec<Vertex> = Vec::new();
    lower.push(vertex.offset(0, -DEF_THINNING - 10_000));
    lower.push(vertex.offset(10_000, -DEF_THINNING - 40_000));
    lower.push(vertex.offset(60_000, -DEF_THINNING - 30_000));
    let tip1 = upper[0];
    let tip2 = lower[0];
    let claw1 = Part::Claw(Claw { vertices: upper, tip: tip1 });
    let claw2 = Part::Claw(Claw { vertices: lower, tip: tip2 });
    assert(claw1@.vertices =~= claw_at(vertex, 1).vertices);
    assert(claw2@.vertices =~= claw_at(vertex, -1).vertices);
    (claw1, claw2)
}

/// A free object with the outline `vertices`.
pub fn generate_object(vertices: Vec<Vertex>) -> (object: Object)
    ensures
        object.vertices@ == vertices@,
{
    Object { vertices }
}

} // verus!
