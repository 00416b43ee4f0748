//! Angles in whole degrees, and their sine in thousandths (Bhaskara I's
//! rational approximation, within about two thousandths of the true sine).
use vstd::prelude::*;
use crate::geom::{bounded, dot, dot_exec, Vec2, POS_LIMIT, UNIT};

verus! {

/// Sine of `d` degrees in thousandths, for `0 <= d <= 180`.
pub open spec fn bhaskara(d: int) -> int {
    4000 * (d * (180 - d)) / (40500 - d * (180 - d))
}

/// Sine of `d` degrees in thousandths, for `0 <= d < 360`.
pub open spec fn sine(d: int) -> int {
    if d <= 180 { bhaskara(d) } else { -bhaskara(d - 180) }
}

/// Cosine of `d` degrees in thousandths, for `0 <= d < 360`.
pub open spec fn cosine(d: int) -> int {
    sine((d + 90) % 360)
}

/// The unit direction a ship or rocket with rotation `d` faces: rotation 0
/// points up the screen, and rotation grows clockwise.
pub open spec fn heading(d: int) -> Vec2 {
    Vec2 { x: sine(d) as i64, y: (-cosine(d)) as i64 }
}

/// The unit vector at angle `d` from the x axis.
pub open spec fn polar(d: int) -> Vec2 {
    Vec2 { x: cosine(d) as i64, y: sine(d) as i64 }
}

/// An angle brought into `[0, 360)`.
pub open spec fn wrap_deg(a: int) -> int {
    a % 360
}

/// The turn from rotation `from` to rotation `to`, in `(-180, 180]`.
pub open spec fn turn_between(from: int, to: int) -> int {
    let a = wrap_deg(to - from);
    if a > 180 { a - 360 } else { a }
}

pub fn sine_half(d: i64) -> (r: i64)
    requires
        0 <= d <= 180,
    ensures
        r == bhaskara(d as int),
        0 <= r <= UNIT,
{
    assert(0 <= d * (180 - d) <= 8100) by (nonlinear_arith)
        requires
            0 <= d <= 180,
    ;
    let p = d * (180 - d);
    let r = 4000 * p / (40500 - p);
    assert(r <= 1000) by (nonlinear_arith)
        requires
            r == 4000 * p / (40500 - p),
            0 <= p <= 8100,
    ;
    assert(r >= 0) by (nonlinear_arith)
        requires
            r == 4000 * p / (40500 - p),
            0 <= p <= 8100,
    ;
    r
}

pub fn sin_deg(d: u32) -> (r: i64)
    requires
        d < 360,
    ensures
        r == sine(d as int),
        -UNIT <= r <= UNIT,
{
    if d <= 180 {
        sine_half(d as i64)
    } else {
        -sine_half(d as i64 - 180)
    }
}

pub fn cos_deg(d: u32) -> (r: i64)
    requires
        d < 360,
    ensures
        r == cosine(d as int),
        -UNIT <= r <= UNIT,
{
    sin_deg((d + 90) % 360)
}

/// The unit direction for rotation `d`, in milli-units.
pub fn heading_of(d: u32) -> (r: Vec2)
    requires
        d < 360,
    ensures
        r == heading(d as int),
        bounded(r, UNIT as int),
{
    Vec2 { x: sin_deg(d), y: -cos_deg(d) }
}

/// The unit vector at angle `d` from the x axis, in milli-units.
pub fn polar_of(d: u32) -> (r: Vec2)
    requires
        d < 360,
    ensures
        r == polar(d as int),
        bounded(r, UNIT as int),
{
    Vec2 { x: cos_deg(d), y: sin_deg(d) }
}

/// Rotation `rot` turned by `delta` degrees, brought into `[0, 360)`.
pub fn turn(rot: u32, delta: i64) -> (r: u32)
    requires
        rot < 360,
        -360 <= delta <= 360,
    ensures
        r == wrap_deg(rot + delta),
        r < 360,
{
    let t = rot as i64 + delta + 360;
    assert((rot + delta + 360) % 360 == (rot + delta) % 360) by (nonlinear_arith);
    (t % 360) as u32
}

/// The turn from rotation `from` to rotation `to`, in `(-180, 180]`.
pub fn turn_to(from: u32, to: u32) -> (r: i64)
    requires
        from < 360,
        to < 360,
    ensures
        r == turn_between(from as int, to as int),
        -180 < r <= 180,
{
    let a = turn(to, -(from as i64)) as i64;
    if a > 180 {
        a - 360
    } else {
        a
    }
}

/// `b` is the rotation in `[0, 360)` whose heading points most nearly along
/// `v`, the first such where several do equally well.
pub open spec fn is_bearing(v: Vec2, b: int) -> bool {
    &&& 0 <= b < 360
    &&& forall|d: int| 0 <= d < 360 ==> dot(heading(d), v) <= dot(heading(b), v)
    &&& forall|d: int| 0 <= d < b ==> dot(heading(d), v) < dot(heading(b), v)
}

/// The rotation that faces along `v`.
pub open spec fn bearing_of(v: Vec2) -> int {
    choose|b: int| is_bearing(v, b)
}

pub proof fn lemma_bearing_unique(v: Vec2, a: int, b: int)
    requires
        is_bearing(v, a),
        is_bearing(v, b),
    ensures
        a == b,
{
    if a < b {
        assert(dot(heading(a), v) < dot(heading(b), v));
    } else if b < a {
        assert(dot(heading(b), v) < dot(heading(a), v));
    }
}

/// The rotation in `[0, 360)` whose heading points most nearly along `v`
/// (the first such rotation where several do equally well).
pub fn bearing(v: Vec2) -> (r: u32)
    requires
        bounded(v, 2 * POS_LIMIT),
    ensures
        is_bearing(v, r as int),
        r == bearing_of(v),
{
    let mut best: u32 = 0;
    let mut best_dot = dot_exec(heading_of(0), v);
    let mut d: u32 = 1;
    while d < 360
        invariant
            bounded(v, 2 * POS_LIMIT),
            1 <= d <= 360,
            best < d,
            best_dot == dot(heading(best as int), v),
            forall|e: int| 0 <= e < d ==> dot(heading(e), v) <= best_dot,
            forall|e: int| 0 <= e < best ==> dot(heading(e), v) < best_dot,
        decreases 360 - d,
    {
        let h = heading_of(d);
        let p = dot_exec(h, v);
        if p > best_dot {
            best = d;
            best_dot = p;
        }
        d += 1;
    }
    proof {
        assert(is_bearing(v, best as int));
        let c = choose|b: int| is_bearing(v, b);
        lemma_bearing_unique(v, c, best as int);
    }
    best
}

} // verus!
