//! Turns about a pivot, in fixed-point arithmetic.

use vstd::prelude::*;
use crate::geometry::{Vertex, saturate, vertex_at};

verus! {

/// The value that stands for 1 in a cosine or sine.
pub const SCALE: i64 = 1_000_000_000;

/// How far `cos * cos + sin * sin` of a turn may lie from `SCALE * SCALE`. Any
/// pair obtained by rounding a true cosine and sine to the nearest billionth
/// is within it.
pub const NORM_SLACK: i64 = 2_000_000_000;

/// A turn of the plane, counter-clockwise for a positive sine.
#[derive(Clone, Copy, Debug, PartialEq, Eq, Structural)]
pub struct Rotation {
    pub cos: i64,
    pub sin: i64,
}

/// `n / d` rounded to the nearest integer, halves upwards (`d > 0`).
pub open spec fn round_div(n: int, d: int) -> int {
    (2 * n + d) / (2 * d)
}

/// Whether `cos` and `sin`, in billionths, are the entries of a turn.
pub open spec fn is_turn(cos: int, sin: int) -> bool {
    &&& -SCALE <= cos <= SCALE
    &&& -SCALE <= sin <= SCALE
    &&& -NORM_SLACK <= cos * cos + sin * sin - SCALE * SCALE <= NORM_SLACK
}

impl Rotation {
    /// The entries are in range and of unit length up to rounding.
    pub open spec fn wf(self) -> bool {
        is_turn(self.cos as int, self.sin as int)
    }

    /// The first coordinate of the turned offset `(dx, dy)`.
    pub open spec fn turn_x(self, dx: int, dy: int) -> int {
        round_div(self.cos * dx - self.sin * dy, SCALE as int)
    }

    /// The second coordinate of the turned offset `(dx, dy)`.
    pub open spec fn turn_y(self, dx: int, dy: int) -> int {
        round_div(self.sin * dx + self.cos * dy, SCALE as int)
    }

    /// The image of `v` under the turn about `pivot`: the offset from the pivot
    /// is multiplied by the rotation matrix, each entry rounded to the nearest
    /// coordinate step, and carried back.
    pub open spec fn rotated(self, v: Vertex, pivot: Vertex) -> Vertex {
        vertex_at(
            pivot.x + self.turn_x(v.x - pivot.x, v.y - pivot.y),
            pivot.y + self.turn_y(v.x - pivot.x, v.y - pivot.y),
        )
    }

    /// The turn that undoes `self`.
    pub open spec fn inverse_spec(self) -> Rotation {
        Rotation { cos: self.cos, sin: (-self.sin) as i64 }
    }

    /// The turn by no angle.
    pub open spec fn identity_spec() -> Rotation {
        Rotation { cos: SCALE, sin: 0 }
    }

    /// The turn with the given cosine and sine, if they are those of a turn.
    pub fn new(cos: i64, sin: i64) -> (r: Option<Rotation>)
        ensures
            r == if is_turn(cos as int, sin as int) {
                Some(Rotation { cos, sin })
            } else {
                None
            },
    {
        if cos < -SCALE || cos > SCALE || sin < -SCALE || sin > SCALE {
            return None;
        }
        assert(-SCALE * SCALE <= cos * cos <= SCALE * SCALE) by (nonlinear_arith)
            requires
                -SCALE <= cos <= SCALE,
        ;
        assert(-SCALE * SCALE <= sin * sin <= SCALE * SCALE) by (nonlinear_arith)
            requires
                -SCALE <= sin <= SCALE,
        ;
        let norm: i128 = cos as i128 * cos as i128 + sin as i128 * sin as i128;
        let unit: i128 = SCALE as i128 * SCALE as i128;
        if norm - unit < -(NORM_SLACK as i128) || norm - unit > NORM_SLACK as i128 {
            None
        } else {
            Some(Rotation { cos, sin })
        }
    }

    /// The fixed increment of an arm joint: three degrees, counter-clockwise.
    /// A joint turns by it in a positive step and by its inverse in a negative
    /// one.
    pub open spec fn arm_step_spec() -> Rotation {
        Rotation { cos: 998_629_535, sin: 52_335_956 }
    }

    /// The fixed increment of the gripper: five degrees, counter-clockwise.
    pub open spec fn grip_step_spec() -> Rotation {
        Rotation { cos: 996_194_698, sin: 87_155_743 }
    }

    /// From one point of a joint disc's outline to the next: a hundredth of a
    /// full turn, counter-clockwise.
    pub open spec fn outline_step_spec() -> Rotation {
        Rotation { cos: 998_026_728, sin: 62_790_520 }
    }

    /// A quarter of a full turn, clockwise.
    pub open spec fn quarter_clockwise_spec() -> Rotation {
        Rotation { cos: 0, sin: -1_000_000_000i64 }
    }

    /// The fixed increment of an arm joint.
    #[verifier::when_used_as_spec(arm_step_spec)]
    pub fn arm_step() -> (r: Rotation)
        ensures
            r == Rotation::arm_step_spec(),
            r.wf(),
    {
        Rotation { cos: 998_629_535, sin: 52_335_956 }
    }

    /// The fixed increment of the gripper.
    #[verifier::when_used_as_spec(grip_step_spec)]
    pub fn grip_step() -> (r: Rotation)
        ensures
            r == Rotation::grip_step_spec(),
            r.wf(),
    {
        Rotation { cos: 996_194_698, sin: 87_155_743 }
    }

    /// From one point of a joint disc's outline to the next.
    #[verifier::when_used_as_spec(outline_step_spec)]
    pub fn outline_step() -> (r: Rotation)
        ensures
            r == Rotation::outline_step_spec(),
            r.wf(),
    {
        Rotation { cos: 998_026_728, sin: 62_790_520 }
    }

    /// A quarter of a full turn, clockwise.
    #[verifier::when_used_as_spec(quarter_clockwise_spec)]
    pub fn quarter_clockwise() -> (r: Rotation)
        ensures
            r == Rotation::quarter_clockwise_spec(),
            r.wf(),
    {
        Rotation { cos: 0, sin: -1_000_000_000 }
    }

    /// The turn by no angle.
    #[verifier::when_used_as_spec(identity_spec)]
    pub fn identity() -> (r: Rotation)
        ensures
            r == Rotation::identity_spec(),
            r.wf(),
    {
        Rotation { cos: SCALE, sin: 0 }
    }

    /// The turn that undoes `self`.
    #[verifier::when_used_as_spec(inverse_spec)]
    pub fn inverse(self) -> (r: Rotation)
        requires
            self.wf(),
        ensures
            r == self.inverse_spec(),
            r.wf(),
    {
        assert((-self.sin) * (-self.sin) == self.sin * self.sin) by (nonlinear_arith);
        Rotation { cos: self.cos, sin: -self.sin }
    }

    /// Turns `v` about `pivot`.
    pub fn apply(&self, v: Vertex, pivot: Vertex) -> (w: Vertex)
        requires
            self.wf(),
        ensures
            w == self.rotated(v, pivot),
    {
        let dx: i128 = v.x as i128 - pivot.x as i128;
        let dy: i128 = v.y as i128 - pivot.y as i128;
        let c: i128 = self.cos as i128;
        let s: i128 = self.sin as i128;
        proof {
            lemma_product_bound(c as int, dx as int);
            lemma_product_bound(s as int, dy as int);
            lemma_product_bound(s as int, dx as int);
            lemma_product_bound(c as int, dy as int);
        }
        let tx: i128 = divide_rounding(c * dx - s * dy);
        let ty: i128 = divide_rounding(s * dx + c * dy);
        Vertex { x: saturate(pivot.x as i128 + tx), y: saturate(pivot.y as i128 + ty) }
    }
}

/// The width of the numerators that `divide_rounding` accepts.
const NUMERATOR_LIMIT: i128 = 0x1_0000_0000_0000_0000;

proof fn lemma_product_bound(c: int, d: int)
    by (nonlinear_arith)
    requires
        -SCALE <= c <= SCALE,
        -0x1_0000_0000 <= d <= 0x1_0000_0000,
    ensures
        -SCALE * 0x1_0000_0000 <= c * d <= SCALE * 0x1_0000_0000,
{
}

/// `n / SCALE`, rounded to the nearest integer, halves upwards.
fn divide_rounding(n: i128) -> (q: i128)
    requires
        -NUMERATOR_LIMIT <= n <= NUMERATOR_LIMIT,
    ensures
        q == round_div(n as int, SCALE as int),
        -NUMERATOR_LIMIT <= q <= NUMERATOR_LIMIT,
{
    let twice: i128 = 2 * n + SCALE as i128;
    let divisor: i128 = 2 * SCALE as i128;
    if twice >= 0 {
        twice / divisor
    } else {
        let up: i128 = (-twice + divisor - 1) / divisor;
        -up
    }
}

/// How far a coordinate may end from where it began after a turn and its
/// inverse, for an offset `d` from the pivot along that axis: two steps from
/// rounding, and two billionths of the offset from the length of the turn.
pub open spec fn round_trip_tolerance(d: int) -> int {
    2 + 2 * (if d < 0 { -d } else { d }) / (SCALE as int)
}

/// Whether the turn `r` of `v` about `pivot` stays within the coordinate
/// range, so that the turned point is exact up to rounding and not saturated.
pub open spec fn turn_fits(r: Rotation, v: Vertex, pivot: Vertex) -> bool {
    &&& i32::MIN <= pivot.x + r.turn_x(v.x - pivot.x, v.y - pivot.y) <= i32::MAX
    &&& i32::MIN <= pivot.y + r.turn_y(v.x - pivot.x, v.y - pivot.y) <= i32::MAX
}

/// Whether `back` is where `v` was before a turn about `pivot` and its
/// inverse, up to `round_trip_tolerance` along each axis.
pub open spec fn restored(back: Vertex, v: Vertex, pivot: Vertex) -> bool {
    &&& -round_trip_tolerance(v.x - pivot.x) <= back.x - v.x <= round_trip_tolerance(
        v.x - pivot.x,
    )
    &&& -round_trip_tolerance(v.y - pivot.y) <= back.y - v.y <= round_trip_tolerance(
        v.y - pivot.y,
    )
}

/// What pins `round_div(n, SCALE)` down: it is the one `q` with
/// `2 * SCALE * q <= 2 * n + SCALE < 2 * SCALE * (q + 1)`.
pub proof fn lemma_round_div(n: int, q: int)
    ensures
        q == round_div(n, SCALE as int) <==> 2 * SCALE * q <= 2 * n + SCALE < 2 * SCALE * q + 2
            * SCALE,
{
    let d: int = 2 * SCALE;
    let x: int = 2 * n + SCALE;
    vstd::arithmetic::div_mod::lemma_fundamental_div_mod(x, d);
    vstd::arithmetic::div_mod::lemma_mod_bound(x, d);
    assert(d * (x / d) == 2 * SCALE * (x / d)) by (nonlinear_arith)
        requires
            d == 2 * SCALE,
    ;
    if 2 * SCALE * q <= x < 2 * SCALE * q + 2 * SCALE {
        let r = x - 2 * SCALE * q;
        assert(q * d == 2 * SCALE * q) by (nonlinear_arith)
            requires
                d == 2 * SCALE,
        ;
        vstd::arithmetic::div_mod::lemma_fundamental_div_mod_converse(x, d, q, r);
    }
}

/// Turning by no angle moves no point.
pub proof fn lemma_identity_fixes(v: Vertex, pivot: Vertex)
    ensures
        Rotation::identity().rotated(v, pivot) == v,
{
    let r = Rotation::identity();
    let dx = v.x - pivot.x;
    let dy = v.y - pivot.y;
    assert(r.cos * dx - r.sin * dy == SCALE * dx);
    assert(r.sin * dx + r.cos * dy == SCALE * dy);
    lemma_round_div(SCALE * dx, dx);
    lemma_round_div(SCALE * dy, dy);
}

proof fn lemma_turn_back(c: int, s: int, dx: int, dy: int, tx: int, ty: int, back: int)
    requires
        is_turn(c, s),
        tx == round_div(c * dx - s * dy, SCALE as int),
        ty == round_div(s * dx + c * dy, SCALE as int),
        back == round_div(c * tx + s * ty, SCALE as int),
    ensures
        -round_trip_tolerance(dx) <= back - dx <= round_trip_tolerance(dx),
{
    let big = SCALE as int;
    let a = c * dx - s * dy;
    let b = s * dx + c * dy;
    lemma_round_div(a, tx);
    lemma_round_div(b, ty);
    let r1 = 2 * a + big - 2 * big * tx;
    let r2 = 2 * b + big - 2 * big * ty;
    assert(0 <= r1 < 2 * big);
    assert(0 <= r2 < 2 * big);
    let delta = c * c + s * s - big * big;
    let e1 = c * (big - r1);
    let e2 = s * (big - r2);
    let m = c * tx + s * ty;
    // 2 * big * tx is 2 * a + (big - r1), and likewise for ty.
    assert(c * (2 * big * tx) == 2 * (c * a) + e1) by (nonlinear_arith)
        requires
            2 * big * tx == 2 * a + (big - r1),
            e1 == c * (big - r1),
    ;
    assert(s * (2 * big * ty) == 2 * (s * b) + e2) by (nonlinear_arith)
        requires
            2 * big * ty == 2 * b + (big - r2),
            e2 == s * (big - r2),
    ;
    assert(c * a + s * b == (c * c + s * s) * dx) by (nonlinear_arith)
        requires
            a == c * dx - s * dy,
            b == s * dx + c * dy,
    ;
    assert((c * c + s * s) * dx == big * big * dx + delta * dx) by (nonlinear_arith)
        requires
            delta == c * c + s * s - big * big,
    ;
    assert(2 * big * m == c * (2 * big * tx) + s * (2 * big * ty)) by (nonlinear_arith)
        requires
            m == c * tx + s * ty,
    ;
    assert(2 * big * m == 2 * (big * big * dx) + 2 * (delta * dx) + e1 + e2);
    assert(-big * big <= e1 <= big * big) by (nonlinear_arith)
        requires
            e1 == c * (big - r1),
            -big <= c <= big,
            -big <= big - r1 <= big,
    ;
    assert(-big * big <= e2 <= big * big) by (nonlinear_arith)
        requires
            e2 == s * (big - r2),
            -big <= s <= big,
            -big <= big - r2 <= big,
    ;
    let ad = if dx < 0 { -dx } else { dx };
    assert(-2 * (big * ad) <= delta * dx <= 2 * (big * ad)) by (nonlinear_arith)
        requires
            -2 * big <= delta <= 2 * big,
            ad == if dx < 0 { -dx } else { dx },
            big > 0,
    ;
    let gap = m - big * dx;
    assert(2 * big * m - 2 * (big * big * dx) == 2 * (big * gap)) by (nonlinear_arith)
        requires
            gap == m - big * dx,
    ;
    assert(big * gap <= big * (2 * ad + big)) by (nonlinear_arith)
        requires
            2 * (big * gap) <= 4 * (big * ad) + 2 * (big * big),
    ;
    assert(big * gap >= big * (-2 * ad - big)) by (nonlinear_arith)
        requires
            2 * (big * gap) >= -4 * (big * ad) - 2 * (big * big),
    ;
    assert(gap <= 2 * ad + big) by (nonlinear_arith)
        requires
            big * gap <= big * (2 * ad + big),
            big > 0,
    ;
    assert(gap >= -2 * ad - big) by (nonlinear_arith)
        requires
            big * gap >= big * (-2 * ad - big),
            big > 0,
    ;
    lemma_round_div(m, back);
    let k = 2 * ad / big;
    vstd::arithmetic::div_mod::lemma_fundamental_div_mod(2 * ad, big);
    vstd::arithmetic::div_mod::lemma_mod_bound(2 * ad, big);
    assert(big * k <= 2 * ad < big * k + big);
    // So 2 * (back - dx) lies strictly between -(2 * k + 5) and 2 * k + 5.
    assert(2 * big * (back - dx) < big * (2 * k + 5)) by (nonlinear_arith)
        requires
            2 * big * back <= 2 * m + big,
            m - big * dx <= 2 * ad + big,
            2 * ad < big * k + big,
            big > 0,
    ;
    assert(2 * big * (back - dx) > -(big * (2 * k + 5))) by (nonlinear_arith)
        requires
            2 * m + big < 2 * big * back + 2 * big,
            m - big * dx >= -2 * ad - big,
            2 * ad < big * k + big,
            big > 0,
    ;
    assert(2 * (back - dx) < 2 * k + 5) by (nonlinear_arith)
        requires
            2 * big * (back - dx) < big * (2 * k + 5),
            big > 0,
    ;
    assert(2 * (back - dx) > -(2 * k + 5)) by (nonlinear_arith)
        requires
            2 * big * (back - dx) > -(big * (2 * k + 5)),
            big > 0,
    ;
}

/// A turn followed by its inverse brings a point back to where it was, up to
/// `round_trip_tolerance` along each axis, wherever the turned point does not
/// saturate.
pub proof fn lemma_inverse_restores(r: Rotation, v: Vertex, pivot: Vertex)
    requires
        r.wf(),
        turn_fits(r, v, pivot),
    ensures
        restored(r.inverse().rotated(r.rotated(v, pivot), pivot), v, pivot),
{
    let c = r.cos as int;
    let s = r.sin as int;
    let dx = v.x - pivot.x;
    let dy = v.y - pivot.y;
    let tx = r.turn_x(dx, dy);
    let ty = r.turn_y(dx, dy);
    let w = r.rotated(v, pivot);
    assert(w.x == pivot.x + tx);
    assert(w.y == pivot.y + ty);
    let q = r.inverse();
    assert(q.sin == -s);
    let bx = q.turn_x(tx, ty);
    let by = q.turn_y(tx, ty);
    assert(q.cos * tx - q.sin * ty == c * tx + s * ty) by (nonlinear_arith)
        requires
            q.cos == c,
            q.sin == -s,
    ;
    assert(q.sin * tx + q.cos * ty == c * ty + (-s) * tx) by (nonlinear_arith)
        requires
            q.cos == c,
            q.sin == -s,
    ;
    lemma_turn_back(c, s, dx, dy, tx, ty, bx);
    // The second axis is the first one of the mirrored turn.
    assert((-s) * (-s) == s * s) by (nonlinear_arith);
    assert(c * dy - (-s) * dx == s * dx + c * dy) by (nonlinear_arith);
    assert((-s) * dy + c * dx == c * dx - s * dy) by (nonlinear_arith);
    lemma_turn_back(c, -s, dy, dx, ty, tx, by);
}

} // verus!
