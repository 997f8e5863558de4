//! Points and the unit in which their coordinates are counted.

use vstd::prelude::*;

verus! {

/// Coordinate steps in one display unit.
pub const UNIT: i32 = 1_000_000;

/// A point of the plane, each coordinate in steps of `1 / UNIT`.
#[derive(Clone, Copy, Debug, PartialEq, Eq, Structural)]
pub struct Vertex {
    pub x: i32,
    pub y: i32,
}

/// The nearest value to `v` that a coordinate can hold.
pub open spec fn clamp_coordinate(v: int) -> int {
    if v < i32::MIN {
        i32::MIN as int
    } else if v > i32::MAX {
        i32::MAX as int
    } else {
        v
    }
}

/// The point `(x, y)`, each coordinate brought into the range of `i32`.
pub open spec fn vertex_at(x: int, y: int) -> Vertex {
    Vertex { x: clamp_coordinate(x) as i32, y: clamp_coordinate(y) as i32 }
}

/// `v` moved by `(dx, dy)`, saturating at the ends of the coordinate range.
pub open spec fn translated(v: Vertex, dx: int, dy: int) -> Vertex {
    vertex_at(v.x + dx, v.y + dy)
}

/// Narrows a wide intermediate result to a coordinate, saturating.
pub fn saturate(v: i128) -> (c: i32)
    ensures
        c == clamp_coordinate(v as int),
{
    if v < i32::MIN as i128 {
        i32::MIN
    } else if v > i32::MAX as i128 {
        i32::MAX
    } else {
        v as i32
    }
}

impl Vertex {
    /// Moves the point by `(dx, dy)`, saturating.
    pub fn offset(self, dx: i32, dy: i32) -> (moved: Vertex)
        ensures
            moved == translated(self, dx as int, dy as int),
    {
        Vertex {
            x: saturate(self.x as i128 + dx as i128),
            y: saturate(self.y as i128 + dy as i128),
        }
    }
}

} // verus!
