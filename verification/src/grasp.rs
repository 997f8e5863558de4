//! The grasp test: do both finger tips sit inside the target polygon, as far
//! as a horizontal ray from each tip can tell?
//!
//! The test is a tuned cue for this arm's fingers and objects. It is not a
//! certified containment test: near corners of a polygon it can err either way.

use vstd::prelude::*;
use crate::geometry::Vertex;
use crate::part::Part;

verus! {

/// How far beyond the crossing a ray is still taken to meet an edge, unless
/// the caller says otherwise. It makes up for the distance between the point
/// a finger senses with and the end of the finger. The value is tuned to the
/// fingers that `generate_claws` builds and to objects of about their size;
/// for other shapes hand `detect_grasp` an offset of your own.
pub const GRASP_OFFSET: i32 = 70_000;

/// Whether the edge from `first` to `second` is one that the ray from
/// `ray_start` towards larger `x` can cross: the ray's height lies in the
/// half-open span of the edge's heights, and the ray starts left of the edge's
/// right end. A level edge has an empty span and never qualifies.
pub open spec fn edge_in_reach(ray_start: Vertex, first: Vertex, second: Vertex) -> bool {
    &&& (first.y <= ray_start.y < second.y) || (second.y <= ray_start.y < first.y)
    &&& ray_start.x < first.x || ray_start.x < second.x
}

/// The numerator of the distance from `ray_start` to where its ray crosses the
/// line through `first` and `second`; the denominator is `second.y - first.y`.
pub open spec fn crossing_numerator(ray_start: Vertex, first: Vertex, second: Vertex) -> int {
    (first.x - ray_start.x) * (second.y - first.y) - (first.y - ray_start.y) * (second.x - first.x)
}

/// `n / d` rounded up to the next integer (`d != 0`).
pub open spec fn ceil_div(n: int, d: int) -> int {
    if d > 0 {
        -((-n) / d)
    } else {
        -(n / (-d))
    }
}

/// The abscissa at which the ray from `ray_start` is taken to hit the line
/// through `first` and `second`: the crossing, moved right by `offset` and
/// rounded up to the next coordinate step.
pub open spec fn hit_abscissa(ray_start: Vertex, first: Vertex, second: Vertex, offset: int) -> int {
    ray_start.x + ceil_div(
        crossing_numerator(ray_start, first, second),
        second.y - first.y,
    ) + offset
}

/// Whether `ray_start` lies left of the hit, in exact arithmetic:
/// `crossing_numerator / (second.y - first.y) + offset > 0`.
pub open spec fn left_of_hit(ray_start: Vertex, first: Vertex, second: Vertex, offset: int) -> bool {
    let d = second.y - first.y;
    let n = crossing_numerator(ray_start, first, second) + offset * d;
    (d > 0 && n > 0) || (d < 0 && n < 0)
}

/// Whether the edge from `first` to `second` counts for the ray from
/// `ray_start`.
pub open spec fn edge_counts(ray_start: Vertex, first: Vertex, second: Vertex, offset: int) -> bool {
    edge_in_reach(ray_start, first, second) && left_of_hit(ray_start, first, second, offset)
}

/// Edge `i` of a polygon runs from vertex `i` to the next one, the last edge
/// back to the first vertex.
pub open spec fn edge_end(polygon: Seq<Vertex>, i: int) -> Vertex {
    polygon[(i + 1) % (polygon.len() as int)]
}

/// How many of the first `n` edges of `polygon` count for the ray from
/// `ray_start`.
pub open spec fn crossings(ray_start: Vertex, polygon: Seq<Vertex>, n: nat, offset: int) -> nat
    decreases n,
{
    if n == 0 {
        0
    } else {
        let i = (n - 1) as int;
        let rest = crossings(ray_start, polygon, (n - 1) as nat, offset);
        if edge_counts(ray_start, polygon[i], edge_end(polygon, i), offset) {
            rest + 1
        } else {
            rest
        }
    }
}

/// Whether the ray from `ray_start` crosses an odd number of edges.
pub open spec fn inside_by_parity(ray_start: Vertex, polygon: Seq<Vertex>, offset: int) -> bool {
    crossings(ray_start, polygon, polygon.len(), offset) % 2 == 1
}

/// The grasp cue for the offset `offset`: each of the two sensing points,
/// taken by itself, crosses an odd number of edges.
pub open spec fn grasps_with(
    tip_a: Vertex,
    tip_b: Vertex,
    polygon: Seq<Vertex>,
    offset: int,
) -> bool {
    inside_by_parity(tip_a, polygon, offset) && inside_by_parity(tip_b, polygon, offset)
}

/// The grasp cue for the offset `GRASP_OFFSET`.
pub open spec fn grasps(tip_a: Vertex, tip_b: Vertex, polygon: Seq<Vertex>) -> bool {
    grasps_with(tip_a, tip_b, polygon, GRASP_OFFSET as int)
}

/// The grasp cue does not depend on which finger is named first.
pub proof fn lemma_grasp_ignores_finger_order(
    tip_a: Vertex,
    tip_b: Vertex,
    polygon: Seq<Vertex>,
    offset: int,
)
    ensures
        grasps_with(tip_a, tip_b, polygon, offset) == grasps_with(tip_b, tip_a, polygon, offset),
{
}

/// Whether the ray from `ray_start` can cross the edge from `first` to
/// `second`.
pub fn check_boundaries(ray_start: Vertex, first: Vertex, second: Vertex) -> (in_reach: bool)
    ensures
        in_reach == edge_in_reach(ray_start, first, second),
{
    let y = ray_start.y;
    let larger = if first.x > second.x { first.x } else { second.x };
    ((first.y <= y && y < second.y) || (second.y <= y && y < first.y)) && ray_start.x < larger
}

proof fn lemma_small_product(a: int, b: int)
    by (nonlinear_arith)
    requires
        -0x1_0000_0000 <= a <= 0x1_0000_0000,
        -0x1_0000_0000 <= b <= 0x1_0000_0000,
    ensures
        -0x1_0000_0000_0000_0000 <= a * b <= 0x1_0000_0000_0000_0000,
{
}

/// `q` is `n / d` rounded up exactly when `(q - 1) * d < n <= q * d` (`d > 0`).
proof fn lemma_ceil_div(n: int, d: int, q: int)
    requires
        d > 0,
    ensures
        q == ceil_div(n, d) <==> (q - 1) * d < n <= q * d,
{
    let f = (-n) / d;
    vstd::arithmetic::div_mod::lemma_fundamental_div_mod(-n, d);
    vstd::arithmetic::div_mod::lemma_mod_bound(-n, d);
    assert(-n == d * f + (-n) % d);
    assert((-f - 1) * d == -(d * f) - d && (-f) * d == -(d * f)) by (nonlinear_arith);
    if (q - 1) * d < n <= q * d {
        assert(q == -f) by (nonlinear_arith)
            requires
                (q - 1) * d < n <= q * d,
                (-f - 1) * d < n <= (-f) * d,
                d > 0,
        ;
    }
}

/// The abscissa at which the ray from `ray_start` is taken to hit the line
/// through the edge, for the offset `offset`. The edge must not be level.
pub fn hit_at(ray_start: Vertex, first: Vertex, second: Vertex, offset: i32) -> (hit: i128)
    requires
        first.y != second.y,
    ensures
        hit == hit_abscissa(ray_start, first, second, offset as int),
        ray_start.x < hit <==> left_of_hit(ray_start, first, second, offset as int),
{
    let x: i128 = ray_start.x as i128;
    let y: i128 = ray_start.y as i128;
    let x1: i128 = first.x as i128;
    let y1: i128 = first.y as i128;
    let x2: i128 = second.x as i128;
    let y2: i128 = second.y as i128;
    proof {
        lemma_small_product(x1 - x, y2 - y1);
        lemma_small_product(y1 - y, x2 - x1);
    }
    let numerator: i128 = (x1 - x) * (y2 - y1) - (y1 - y) * (x2 - x1);
    let rise: i128 = y2 - y1;
    // Divide by a positive number, and towards the next integer above.
    let n: i128 = if rise > 0 { numerator } else { -numerator };
    let d: i128 = if rise > 0 { rise } else { -rise };
    let quotient: i128 = if n > 0 { (n - 1) / d + 1 } else { -((-n) / d) };
    proof {
        let q = quotient as int;
        let ni = n as int;
        let di = d as int;
        let ri = rise as int;
        let k = offset as int;
        if ni > 0 {
            vstd::arithmetic::div_mod::lemma_fundamental_div_mod(ni - 1, di);
            vstd::arithmetic::div_mod::lemma_mod_bound(ni - 1, di);
            assert((q - 1) * di == di * ((ni - 1) / di)) by (nonlinear_arith)
                requires
                    q == (ni - 1) / di + 1,
            ;
            assert(q * di == (q - 1) * di + di) by (nonlinear_arith);
        }
        lemma_ceil_div(ni, di, q);
        assert(q == ceil_div(ni, di));
        assert(ceil_div(ni, di) == ceil_div(numerator as int, ri));
        assert(k * ri == if ri > 0 { k * di } else { -(k * di) }) by (nonlinear_arith)
            requires
                di == if ri > 0 { ri } else { -ri },
        ;
        assert(q > -k <==> ni + k * di > 0) by (nonlinear_arith)
            requires
                (q - 1) * di < ni <= q * di,
                di > 0,
        ;
    }
    x + quotient + offset as i128
}

/// The abscissa at which the ray from `ray_start` is taken to hit the line
/// through the edge, for the offset `GRASP_OFFSET`. The edge must not be
/// level.
pub fn ray_edge_intersect(ray_start: Vertex, first: Vertex, second: Vertex) -> (hit: i128)
    requires
        first.y != second.y,
    ensures
        hit == hit_abscissa(ray_start, first, second, GRASP_OFFSET as int),
        ray_start.x < hit <==> left_of_hit(ray_start, first, second, GRASP_OFFSET as int),
{
    hit_at(ray_start, first, second, GRASP_OFFSET)
}

/// Whether the edge from `first` to `second` counts for the ray from
/// `ray_start`, for the offset `offset`.
pub fn edge_hit(ray_start: Vertex, first: Vertex, second: Vertex, offset: i32) -> (counts: bool)
    ensures
        counts == edge_counts(ray_start, first, second, offset as int),
{
    if check_boundaries(ray_start, first, second) {
        (ray_start.x as i128) < hit_at(ray_start, first, second, offset)
    } else {
        false
    }
}

/// The grasp test on two sensing points: from each a ray is cast towards
/// larger `x`, and both rays must cross an odd number of the edges of
/// `polygon`. An edge counts for a ray up to `offset` beyond the crossing.
pub fn detect_grasp(tip_a: Vertex, tip_b: Vertex, polygon: &Vec<Vertex>, offset: i32) -> (grasped:
    bool)
    ensures
        grasped == grasps_with(tip_a, tip_b, polygon@, offset as int),
{
    let length = polygon.len();
    let mut odd_a = false;
    let mut odd_b = false;
    let mut i: usize = 0;
    while i < length
        invariant
            length == polygon.len(),
            i <= length,
            odd_a == (crossings(tip_a, polygon@, i as nat, offset as int) % 2 == 1),
            odd_b == (crossings(tip_b, polygon@, i as nat, offset as int) % 2 == 1),
        decreases length - i,
    {
        let first = polygon[i];
        let second = polygon[if i + 1 == length { 0 } else { i + 1 }];
        assert(second == edge_end(polygon@, i as int)) by {
            if i + 1 < length {
                vstd::arithmetic::div_mod::lemma_small_mod((i + 1) as nat, length as nat);
            } else {
                vstd::arithmetic::div_mod::lemma_mod_self_0(length as int);
            }
        }
        if edge_hit(tip_a, first, second, offset) {
            odd_a = !odd_a;
        }
        if edge_hit(tip_b, first, second, offset) {
            odd_b = !odd_b;
        }
        i += 1;
    }
    odd_a && odd_b
}

/// Whether the gripper holds the polygon `vertices`, by the grasp test on the
/// tips of the two fingers with the offset `GRASP_OFFSET`. Both parts must
/// have a tip.
pub fn detect_collision(claw1: &Part, claw2: &Part, vertices: &Vec<Vertex>) -> (grasped: bool)
    requires
        claw1@.tip is Some,
        claw2@.tip is Some,
    ensures
        grasped == grasps(claw1@.tip->0, claw2@.tip->0, vertices@),
{
    match (claw1.get_tip(), claw2.get_tip()) {
        (Some(tip1), Some(tip2)) => detect_grasp(tip1, tip2, vertices, GRASP_OFFSET),
        _ => false,
    }
}

} // verus!
