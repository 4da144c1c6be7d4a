//! Positions on the play field and the arithmetic on them.

use vstd::prelude::*;
use crate::constants::{NANOS_PER_SEC, STEP_SIZE};

verus! {

/// A position, in grid units.
#[derive(Debug, Clone, Copy, PartialEq, Eq, Structural, Hash)]
pub struct Point {
    pub x: i32,
    pub y: i32,
}

/// The coordinate nearest to `v` that fits the coordinate type.
pub open spec fn clamp_coord(v: int) -> i32 {
    if v < i32::MIN {
        i32::MIN
    } else if v > i32::MAX {
        i32::MAX
    } else {
        v as i32
    }
}

/// Squared distance between two positions.
pub open spec fn distance_squared(a: Point, b: Point) -> int {
    (a.x - b.x) * (a.x - b.x) + (a.y - b.y) * (a.y - b.y)
}

/// Whether `p` lies strictly less than `radius` away from `center`.
pub open spec fn within_radius(p: Point, center: Point, radius: int) -> bool {
    0 <= radius && distance_squared(p, center) < radius * radius
}

/// Moves a coordinate by `delta`, stopping at the ends of the coordinate range.
pub fn shift_coord(c: i32, delta: i64) -> (r: i32)
    ensures
        r == clamp_coord(c + delta),
{
    let v: i128 = c as i128 + delta as i128;
    if v < i32::MIN as i128 {
        i32::MIN
    } else if v > i32::MAX as i128 {
        i32::MAX
    } else {
        v as i32
    }
}

/// The length of `steps` grid steps, as far as it matters to a coordinate: a length that
/// leads out of the coordinate range from anywhere is cut to a shorter one that still does.
pub fn step_distance(steps: usize) -> (d: i64)
    ensures
        0 <= d <= steps * STEP_SIZE,
        forall|c: i32| clamp_coord(c + d) == #[trigger] clamp_coord(c + steps * STEP_SIZE),
        forall|c: i32| clamp_coord(c - d) == #[trigger] clamp_coord(c - steps * STEP_SIZE),
{
    if steps <= 0x1000_0000 {
        steps as i64 * STEP_SIZE as i64
    } else {
        0x1000_0000 * STEP_SIZE as i64
    }
}

/// The whole units covered in `delta` nanoseconds at `speed` units per second, by
/// something that was `carry` billionths of a unit ahead of its position.
pub open spec fn way_covered(speed: u64, delta: u64, carry: u64) -> int {
    (speed * delta + carry) / (NANOS_PER_SEC as int)
}

/// The billionths of a unit that are left over once the whole units are covered.
pub open spec fn way_carried(speed: u64, delta: u64, carry: u64) -> u64 {
    ((speed * delta + carry) % (NANOS_PER_SEC as int)) as u64
}

/// The whole units covered, and the billionths of a unit left over.
pub fn travel(speed: u64, delta: u64, carry: u64) -> (way: (u128, u64))
    ensures
        way.0 == way_covered(speed, delta, carry),
        way.1 == way_carried(speed, delta, carry),
{
    assert(0 <= speed * delta <= 0xffff_ffff_ffff_ffff * 0xffff_ffff_ffff_ffff) by (nonlinear_arith)
        requires
            0 <= speed <= 0xffff_ffff_ffff_ffff,
            0 <= delta <= 0xffff_ffff_ffff_ffff,
    ;
    let total: u128 = speed as u128 * delta as u128 + carry as u128;
    (total / (NANOS_PER_SEC as u128), (total % (NANOS_PER_SEC as u128)) as u64)
}

/// The way covered, as far as it matters to a coordinate, and the billionths left over.
pub fn travel_offset(speed: u64, delta: u64, carry: u64) -> (way: (i64, u64))
    ensures
        0 <= way.0 <= way_covered(speed, delta, carry),
        forall|c: i32|
            clamp_coord(c + way.0) == #[trigger] clamp_coord(c + way_covered(speed, delta, carry)),
        forall|c: i32|
            clamp_coord(c - way.0) == #[trigger] clamp_coord(c - way_covered(speed, delta, carry)),
        way.1 == way_carried(speed, delta, carry),
{
    let (d, left) = travel(speed, delta, carry);
    if d > 0x1_0000_0000 {
        (0x1_0000_0000, left)
    } else {
        (d as i64, left)
    }
}

/// How far something gets does not depend on how the time is cut into steps: two steps
/// cover what one step of their joint length covers, and leave over the same.
pub proof fn lemma_travel_adds_up(speed: u64, first: u64, second: u64, carry: u64)
    requires
        first + second <= u64::MAX,
    ensures
        way_covered(speed, first, carry) + way_covered(
            speed,
            second,
            way_carried(speed, first, carry),
        ) == way_covered(speed, (first + second) as u64, carry),
        way_carried(speed, second, way_carried(speed, first, carry)) == way_carried(
            speed,
            (first + second) as u64,
            carry,
        ),
{
    let n = NANOS_PER_SEC as int;
    let a = speed * first + carry;
    let b = speed * second;
    assert(a >= 0 && b >= 0) by (nonlinear_arith)
        requires
            a == speed * first + carry,
            b == speed * second,
            speed >= 0,
            first >= 0,
            second >= 0,
            carry >= 0,
    ;
    assert(speed * (first + second) + carry == a + b) by (nonlinear_arith)
        requires
            a == speed * first + carry,
            b == speed * second,
    ;
    vstd::arithmetic::div_mod::lemma_fundamental_div_mod(a, n);
    let q = a / n;
    let r = a % n;
    assert(a + b == n * q + (b + r));
    vstd::arithmetic::div_mod::lemma_div_multiples_vanish_fancy(q, b + r - n * ((b + r) / n), n);
    vstd::arithmetic::div_mod::lemma_fundamental_div_mod(b + r, n);
    vstd::arithmetic::div_mod::lemma_fundamental_div_mod_converse(
        a + b,
        n,
        q + (b + r) / n,
        (b + r) % n,
    );
}

impl Point {
    pub fn new(x: i32, y: i32) -> (p: Point)
        ensures
            p == (Point { x, y }),
    {
        Point { x, y }
    }

    /// Whether this position lies strictly less than `radius` away from `center`.
    pub fn is_within(&self, center: &Point, radius: i32) -> (b: bool)
        ensures
            b == within_radius(*self, *center, radius as int),
    {
        if radius < 0 {
            return false;
        }
        let dx: i128 = self.x as i128 - center.x as i128;
        let dy: i128 = self.y as i128 - center.y as i128;
        let r: i128 = radius as i128;
        assert(0 <= dx * dx <= 0x1_0000_0000 * 0x1_0000_0000) by (nonlinear_arith)
            requires
                -0x1_0000_0000 < dx < 0x1_0000_0000,
        ;
        assert(0 <= dy * dy <= 0x1_0000_0000 * 0x1_0000_0000) by (nonlinear_arith)
            requires
                -0x1_0000_0000 < dy < 0x1_0000_0000,
        ;
        assert(0 <= r * r <= 0x1_0000_0000 * 0x1_0000_0000) by (nonlinear_arith)
            requires
                0 <= r < 0x1_0000_0000,
        ;
        dx * dx + dy * dy < r * r
    }
}

} // verus!
