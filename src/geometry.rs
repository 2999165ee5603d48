//! Fixed-point vectors, axis-aligned boxes and the playfield.
use vstd::prelude::*;

verus! {

/// Length units in one pixel.
pub const UNIT: i64 = 1000;

/// Microseconds in one second.
pub const MICROS: i64 = 1_000_000;

/// Largest playfield side, in length units.
pub const MAX_EXTENT: i64 = 1_000_000_000;

/// Largest magnitude of any speed component the model carries.
pub const MAX_SPEED: i64 = 100_000_000;

/// Longest frame the model integrates in one step, in microseconds.
pub const MAX_DELTA: u64 = 60_000_000;

/// A vector of two fixed-point components.
#[derive(Clone, Copy, Debug, PartialEq, Eq, Structural)]
pub struct Vec2 {
    pub x: i64,
    pub y: i64,
}

impl Vec2 {
    pub fn new(x: i64, y: i64) -> (r: Vec2)
        ensures
            r.x == x,
            r.y == y,
    {
        Vec2 { x, y }
    }
}

/// An axis-aligned box with its top-left corner at `(x, y)`.
#[derive(Clone, Copy, Debug, PartialEq, Eq, Structural)]
pub struct Rect {
    pub x: i64,
    pub y: i64,
    pub w: i64,
    pub h: i64,
}

/// Two boxes overlap when they share at least one point, edges included.
pub open spec fn rects_overlap(a: Rect, b: Rect) -> bool {
    a.x <= b.x + b.w && a.x + a.w >= b.x && a.y <= b.y + b.h && a.y + a.h >= b.y
}

/// The box `r` lies within `[0, width] x [0, height]`.
pub open spec fn rect_within(r: Rect, width: int, height: int) -> bool {
    0 <= r.x && r.x + r.w <= width && 0 <= r.y && r.y + r.h <= height
}

/// Whether every corner of a box is far enough from the `i64` limits that
/// its edges can be computed.
pub open spec fn rect_bounded(r: Rect) -> bool {
    -4 * MAX_EXTENT <= r.x <= 4 * MAX_EXTENT && -4 * MAX_EXTENT <= r.y <= 4 * MAX_EXTENT
        && 0 <= r.w <= 4 * MAX_EXTENT && 0 <= r.h <= 4 * MAX_EXTENT
}

impl Rect {
    pub open spec fn overlaps_spec(self, other: Rect) -> bool {
        rects_overlap(self, other)
    }

    /// Whether the two boxes share a point.
    pub fn overlaps(&self, other: &Rect) -> (r: bool)
        requires
            rect_bounded(*self),
            rect_bounded(*other),
        ensures
            r == rects_overlap(*self, *other),
            r == self.overlaps_spec(*other),
    {
        self.x <= other.x + other.w && self.x + self.w >= other.x && self.y <= other.y + other.h
            && self.y + self.h >= other.y
    }
}

/// The playfield: the box from the origin to `(width, height)`.
#[derive(Clone, Copy, Debug, PartialEq, Eq, Structural)]
pub struct Arena {
    pub width: i64,
    pub height: i64,
}

impl Arena {
    pub open spec fn wf(self) -> bool {
        0 <= self.width <= MAX_EXTENT && 0 <= self.height <= MAX_EXTENT
    }

    /// Whether `p` lies strictly inside the playfield.
    pub open spec fn holds(self, p: Vec2) -> bool {
        0 < p.x < self.width && 0 < p.y < self.height
    }

    pub fn new(width: i64, height: i64) -> (r: Arena)
        ensures
            r.width == width,
            r.height == height,
    {
        Arena { width, height }
    }

    /// Whether `p` lies strictly inside the playfield.
    pub fn contains(&self, p: Vec2) -> (r: bool)
        ensures
            r == self.holds(p),
    {
        p.x > 0 && p.x < self.width && p.y > 0 && p.y < self.height
    }
}

/// `v * num / den`, rounded toward zero.
pub open spec fn scaled(v: int, num: int, den: int) -> int {
    if v >= 0 {
        v * num / den
    } else {
        -((-v) * num / den)
    }
}

/// `|scaled(v, num, den)| <= |v| * num / den`, and the sign of `v` is kept.
pub proof fn lemma_scaled_bounds(v: int, num: int, den: int)
    requires
        0 <= num,
        0 < den,
    ensures
        v >= 0 ==> 0 <= scaled(v, num, den) <= v * num / den,
        v < 0 ==> -((-v) * num / den) == scaled(v, num, den) <= 0,
        num <= den ==> (v >= 0 ==> scaled(v, num, den) <= v),
        num <= den ==> (v < 0 ==> scaled(v, num, den) >= v),
        v == 0 ==> scaled(v, num, den) == 0,
{
    if v >= 0 {
        assert(v * num >= 0) by (nonlinear_arith)
            requires v >= 0, num >= 0;
        assert(v * num / den >= 0) by (nonlinear_arith)
            requires v * num >= 0, den > 0;
        if num <= den {
            assert(v * num <= v * den) by (nonlinear_arith)
                requires v >= 0, num <= den;
            assert(v * num / den <= v) by (nonlinear_arith)
                requires v * num <= v * den, den > 0, v * num >= 0;
        }
    } else {
        let u = -v;
        assert(u * num >= 0) by (nonlinear_arith)
            requires u >= 0, num >= 0;
        assert(u * num / den >= 0) by (nonlinear_arith)
            requires u * num >= 0, den > 0;
        if num <= den {
            assert(u * num <= u * den) by (nonlinear_arith)
                requires u >= 0, num <= den;
            assert(u * num / den <= u) by (nonlinear_arith)
                requires u * num <= u * den, den > 0, u * num >= 0;
        }
    }
}

/// `v * num / den` rounded toward zero, for a product that fits.
pub fn scale(v: i64, num: i64, den: i64) -> (r: i64)
    requires
        0 <= num,
        0 < den,
        -MAX_SPEED * 2 <= v <= MAX_SPEED * 2,
        num <= MAX_DELTA,
    ensures
        r == scaled(v as int, num as int, den as int),
{
    if v >= 0 {
        assert(v * num <= MAX_SPEED * 2 * MAX_DELTA) by (nonlinear_arith)
            requires 0 <= v <= MAX_SPEED * 2, 0 <= num <= MAX_DELTA;
        assert(v * num >= 0) by (nonlinear_arith)
            requires v >= 0, num >= 0;
        v * num / den
    } else {
        let u = -v;
        assert(u * num <= MAX_SPEED * 2 * MAX_DELTA) by (nonlinear_arith)
            requires 0 <= u <= MAX_SPEED * 2, 0 <= num <= MAX_DELTA;
        assert(u * num >= 0) by (nonlinear_arith)
            requires u >= 0, num >= 0;
        -(u * num / den)
    }
}

/// Keeps `v` within `[-MAX_SPEED, MAX_SPEED]`.
pub open spec fn capped(v: int) -> int {
    if v > MAX_SPEED {
        MAX_SPEED as int
    } else if v < -MAX_SPEED {
        -MAX_SPEED
    } else {
        v
    }
}

pub fn cap_speed(v: i64) -> (r: i64)
    ensures
        r == capped(v as int),
{
    if v > MAX_SPEED {
        MAX_SPEED
    } else if v < -MAX_SPEED {
        -MAX_SPEED
    } else {
        v
    }
}

} // verus!

verus! {

/// A speed of magnitude at most `b`, integrated over one frame, moves at
/// most `60 * b`.
pub proof fn lemma_scaled_move(v: int, d: int, b: int)
    requires
        -b <= v <= b,
        0 <= d <= MAX_DELTA,
    ensures
        -60 * b <= scaled(v, d, MICROS as int) <= 60 * b,
{
    let u = if v >= 0 { v } else { -v };
    assert(u * d <= b * MAX_DELTA) by (nonlinear_arith)
        requires 0 <= u <= b, 0 <= d <= MAX_DELTA;
    assert(u * d >= 0) by (nonlinear_arith)
        requires u >= 0, d >= 0;
    assert(u * d / (MICROS as int) <= 60 * b) by (nonlinear_arith)
        requires u * d <= b * MAX_DELTA, u * d >= 0;
    assert(u * d / (MICROS as int) >= 0) by (nonlinear_arith)
        requires u * d >= 0;
}

} // verus!
