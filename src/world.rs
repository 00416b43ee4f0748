//! Spawning and culling around the moving ship, and end-of-tick cleanup.
use vstd::prelude::*;
use crate::entity::{Asteroid, BlackHole, Bullet, Rocket, SCREEN_LIMIT};
use crate::geom::{
    abs, add_clamped, add_sat, bounded, dist_sq, dist_sq_exec, lemma_root_up, root_up, sqrt_up,
    Vec2, POS_LIMIT,
};
use crate::rng::random_between;
use crate::trig::{polar, polar_of};

verus! {

/// How far the ship travels, in milli-pixels, before new space is filled.
pub const GENERATE_STEP: i64 = 50_000;

/// Largest expected count of new asteroids in one step, in thousandths.
pub const EXPECTED_CAP: i128 = 1_000_000_000;

/// Milliseconds a bullet lives.
pub const BULLET_LIFETIME_MS: u64 = 1500;

/// Milliseconds a rocket lives.
pub const ROCKET_LIFETIME_MS: u64 = 4000;

/// Whether the ship has moved far enough from the last anchor to fill in
/// new space.
pub open spec fn generation_due(anchor: Vec2, ship: Vec2) -> bool {
    dist_sq(anchor, ship) > GENERATE_STEP * GENERATE_STEP
}

pub fn is_generation_due(anchor: Vec2, ship: Vec2) -> (r: bool)
    requires
        bounded(anchor, POS_LIMIT as int),
        bounded(ship, POS_LIMIT as int),
    ensures
        r == generation_due(anchor, ship),
{
    dist_sq_exec(anchor, ship) > 2_500_000_000u128
}

/// Expected number of new asteroids, in thousandths, after a move of `g`
/// on a `w` by `h` screen: the density times the newly uncovered area
/// (five screens wide in each direction, less the overlap of the two
/// strips), at four asteroids per screen, never below zero and at most
/// `EXPECTED_CAP`.
pub open spec fn expected_new(g: Vec2, w: int, h: int) -> int {
    let area = 5000 * abs(g.x as int) * h + 5000 * abs(g.y as int) * w - g.x * g.y;
    let e = 4 * area / (1000 * (w * h));
    if area <= 0 { 0 } else if e > EXPECTED_CAP { EXPECTED_CAP as int } else { e }
}

pub fn expected_new_asteroids(g: Vec2, w: u32, h: u32) -> (r: i128)
    requires
        bounded(g, 2 * POS_LIMIT),
        0 < w <= SCREEN_LIMIT,
        0 < h <= SCREEN_LIMIT,
    ensures
        r == expected_new(g, w as int, h as int),
        0 <= r <= EXPECTED_CAP,
{
    let gx = g.x as i128;
    let gy = g.y as i128;
    let ax = if gx < 0 { -gx } else { gx };
    let ay = if gy < 0 { -gy } else { gy };
    let (wi, hi) = (w as i128, h as i128);
    assert(0 <= 5000 * ax * hi <= 5000 * 0x200_0000_0000 * 0x1_0000) by (nonlinear_arith)
        requires
            0 <= ax <= 0x200_0000_0000,
            0 < hi <= 0x1_0000,
    ;
    assert(0 <= 5000 * ay * wi <= 5000 * 0x200_0000_0000 * 0x1_0000) by (nonlinear_arith)
        requires
            0 <= ay <= 0x200_0000_0000,
            0 < wi <= 0x1_0000,
    ;
    assert(-0x200_0000_0000 * 0x200_0000_0000 <= gx * gy <= 0x200_0000_0000 * 0x200_0000_0000)
        by (nonlinear_arith)
        requires
            -0x200_0000_0000 <= gx <= 0x200_0000_0000,
            -0x200_0000_0000 <= gy <= 0x200_0000_0000,
    ;
    let area = 5000 * ax * hi + 5000 * ay * wi - gx * gy;
    assert(0 < wi * hi <= 0x1_0000 * 0x1_0000) by (nonlinear_arith)
        requires
            0 < wi <= 0x1_0000,
            0 < hi <= 0x1_0000,
    ;
    if area <= 0 {
        return 0;
    }
    let den = 1000 * (wi * hi);
    let e = 4 * area / den;
    assert(e >= 0) by (nonlinear_arith)
        requires
            e == 4 * area / den as int,
            area > 0,
            den > 0,
    ;
    if e > EXPECTED_CAP {
        EXPECTED_CAP
    } else {
        e
    }
}

/// Draws how many asteroids fill newly uncovered space: uniform in
/// `[0.8 e, 1.2 e + 2)` for an expectation of `e` (in thousandths).
pub fn draw_new_count(expected: i128) -> (r: i64)
    requires
        0 <= expected <= EXPECTED_CAP,
    ensures
        8 * expected / 10000 <= r < 2 + 12 * expected / 10000,
{
    let lo = (8 * expected / 10000) as i64;
    let hi = (2 + 12 * expected / 10000) as i64;
    random_between(lo, hi)
}

/// A spawn place for an asteroid filling new space after a move of `g`
/// (relative to the ship, in milli-pixels): just beyond the edge the ship
/// moves toward, on the side picked with probability in proportion to how
/// much new space each direction uncovered, set back by up to the move's
/// length (at most 2^19 pixels).
pub fn spawn_offset(g: Vec2, w: u32, h: u32) -> (r: Vec2)
    requires
        bounded(g, 2 * POS_LIMIT),
        0 < w <= SCREEN_LIMIT,
        0 < h <= SCREEN_LIMIT,
    ensures
        bounded(r, 0x8_0000 * 1000int),
        r.x % 1000 == 0 && r.y % 1000 == 0,
        on_leading_edge(g, r, w as int, h as int),
{
    let ax = if g.x < 0 { -(g.x as i128) } else { g.x as i128 };
    let ay = if g.y < 0 { -(g.y as i128) } else { g.y as i128 };
    assert(0 <= ax * (h as i128) <= 0x200_0000_0000 * 0x1_0000 && 0 <= ay * (w as i128)
        <= 0x200_0000_0000 * 0x1_0000) by (nonlinear_arith)
        requires
            0 <= ax <= 0x200_0000_0000,
            0 <= ay <= 0x200_0000_0000,
            0 < w <= 0x1_0000,
            0 < h <= 0x1_0000,
    ;
    let nx = ax * (h as i128);
    let ny = ay * (w as i128);
    let pick = random_between(0, 1_000_000) as i128;
    assert(0 <= pick * (nx + ny) <= 1_000_000 * (2 * 0x200_0000_0000 * 0x1_0000)) by (nonlinear_arith)
        requires
            0 <= pick < 1_000_000,
            0 <= nx <= 0x200_0000_0000 * 0x1_0000,
            0 <= ny <= 0x200_0000_0000 * 0x1_0000,
    ;
    let (w5, h5) = (5 * w as i64 / 2, 5 * h as i64 / 2);
    if pick * (nx + ny) < 1_000_000 * nx {
        let ax_px = if ax / 1000 > 0x8_0000 { 0x8_0000 } else { (ax / 1000) as i64 };
        let back = random_between(0, ax_px);
        let m = (w5 - back) * 1000;
        let y = random_between(-h5, h5);
        let r = Vec2 { x: if g.x < 0 { -m } else { m }, y: y * 1000 };
        assert(edge_x(g, back as int, w5 as int) == r.x);
        r
    } else {
        let ay_px = if ay / 1000 > 0x8_0000 { 0x8_0000 } else { (ay / 1000) as i64 };
        let back = random_between(0, ay_px);
        let m = (h5 - back) * 1000;
        let x = random_between(-w5, w5);
        let r = Vec2 { x: x * 1000, y: if g.y < 0 { -m } else { m } };
        assert(edge_y(g, back as int, h5 as int) == r.y);
        r
    }
}

/// `r` lies on the edge the ship moves toward: two and a half screens out
/// along x (on the side of `g.x`) and anywhere along y within that, or the
/// same with the axes swapped; set back toward the ship by less than the
/// move (or not at all when the move has no length along that axis).
pub open spec fn on_leading_edge(g: Vec2, r: Vec2, w: int, h: int) -> bool {
    let (w5, h5) = (5 * w / 2, 5 * h / 2);
    let (gx, gy) = (abs(g.x as int) / 1000, abs(g.y as int) / 1000);
    let bx = if gx > 0x8_0000 { 0x8_0000 } else { gx };
    let by = if gy > 0x8_0000 { 0x8_0000 } else { gy };
    (exists|back: int|
        (if bx > 0 { 0 <= back < bx } else { back == 0 }) && #[trigger] edge_x(g, back, w5) == r.x
            && -h5 * 1000 <= r.y < h5 * 1000) || (exists|back: int|
        (if by > 0 { 0 <= back < by } else { back == 0 }) && #[trigger] edge_y(g, back, h5) == r.y
            && -w5 * 1000 <= r.x < w5 * 1000)
}

pub open spec fn edge_x(g: Vec2, back: int, w5: int) -> int {
    if g.x < 0 { -(w5 - back) * 1000 } else { (w5 - back) * 1000 }
}

pub open spec fn edge_y(g: Vec2, back: int, h5: int) -> int {
    if g.y < 0 { -(h5 - back) * 1000 } else { (h5 - back) * 1000 }
}

/// The length of the screen's diagonal in pixels, rounded up.
pub fn screen_diagonal(w: u32, h: u32) -> (r: i64)
    requires
        0 < w <= SCREEN_LIMIT,
        0 < h <= SCREEN_LIMIT,
    ensures
        r * r >= w * w + h * h,
        (r - 1) * (r - 1) < w * w + h * h,
        0 < r <= 2 * SCREEN_LIMIT,
        r == diagonal(w as int, h as int),
{
    assert(0 < w * w + h * h <= 2 * 0x1_0000 * 0x1_0000) by (nonlinear_arith)
        requires
            0 < w <= 0x1_0000,
            0 < h <= 0x1_0000,
    ;
    let n = (w as u128) * (w as u128) + (h as u128) * (h as u128);
    let r = sqrt_up(n);
    assert(r <= 2 * 0x1_0000) by (nonlinear_arith)
        requires
            r >= 0,
            r == 0 || (r - 1) * (r - 1) < n,
            n <= 2 * 0x1_0000 * 0x1_0000,
    ;
    assert(r > 0) by (nonlinear_arith)
        requires
            r * r >= n,
            n > 0,
            r >= 0,
    ;
    proof {
        lemma_root_up(w * w + h * h, r as int);
    }
    r as i64
}

/// `center` moved `d` pixels along the angle `b` (degrees from the x axis).
pub open spec fn at_bearing(center: Vec2, b: int, d: int) -> Vec2 {
    add_sat(center, Vec2 { x: (polar(b).x * d) as i64, y: (polar(b).y * d) as i64 }, POS_LIMIT as int)
}

/// `p` lies at some angle from `center`, between `near` and `far` pixels
/// away (exactly `near` when the two are equal).
pub open spec fn ring_place(center: Vec2, p: Vec2, near: int, far: int) -> bool {
    exists|b: int, d: int|
        0 <= b < 360 && (near >= far ==> d == near) && (near < far ==> near <= d < far) && p
            == #[trigger] at_bearing(center, b, d)
}

/// The length of a `w` by `h` screen's diagonal in pixels, rounded up.
pub open spec fn diagonal(w: int, h: int) -> int {
    root_up(w * w + h * h)
}

/// A point at a random bearing from `center`, between `near` and `far`
/// pixels away.
pub fn around(center: Vec2, near: i64, far: i64) -> (r: Vec2)
    requires
        bounded(center, POS_LIMIT as int),
        0 <= near <= far <= 4 * SCREEN_LIMIT,
    ensures
        bounded(r, POS_LIMIT as int),
        ring_place(center, r, near as int, far as int),
{
    let bearing = random_between(0, 360);
    let d = random_between(near, far);
    let dir = polar_of(bearing as u32);
    assert(-1000 * 0x4_0000 <= dir.x * d <= 1000 * 0x4_0000 && -1000 * 0x4_0000 <= dir.y * d
        <= 1000 * 0x4_0000) by (nonlinear_arith)
        requires
            -1000 <= dir.x <= 1000,
            -1000 <= dir.y <= 1000,
            0 <= d <= 0x4_0000,
    ;
    let r = add_clamped(center, Vec2 { x: dir.x * d, y: dir.y * d }, POS_LIMIT);
    assert(polar(bearing as int) == dir);
    assert(r == at_bearing(center, bearing as int, d as int));
    r
}

/// Whether a body at `pos` is still within the world around the ship: less
/// than half of five screen diagonals away.
pub open spec fn in_world(ship: Vec2, pos: Vec2, w: int, h: int) -> bool {
    4 * dist_sq(ship, pos) < 25_000_000 * (w * w + h * h)
}

pub fn is_in_world(ship: Vec2, pos: Vec2, w: u32, h: u32) -> (r: bool)
    requires
        bounded(ship, POS_LIMIT as int),
        bounded(pos, POS_LIMIT as int),
        0 < w <= SCREEN_LIMIT,
        0 < h <= SCREEN_LIMIT,
    ensures
        r == in_world(ship, pos, w as int, h as int),
{
    assert(0 < w * w + h * h <= 2 * 0x1_0000 * 0x1_0000) by (nonlinear_arith)
        requires
            0 < w <= 0x1_0000,
            0 < h <= 0x1_0000,
    ;
    let d = dist_sq_exec(ship, pos);
    assert(d <= 8 * POS_LIMIT * POS_LIMIT) by (nonlinear_arith)
        requires
            d == (ship.x - pos.x) * (ship.x - pos.x) + (ship.y - pos.y) * (ship.y - pos.y),
            bounded(ship, POS_LIMIT as int),
            bounded(pos, POS_LIMIT as int),
    ;
    let s = (w as u128) * (w as u128) + (h as u128) * (h as u128);
    4 * d < 25_000_000 * s
}

pub open spec fn bullet_kept(b: Bullet, now: int) -> bool {
    b.shot_at + BULLET_LIFETIME_MS > now && !b.collided
}

pub open spec fn rocket_kept(r: Rocket, now: int) -> bool {
    r.shot_at + ROCKET_LIFETIME_MS > now && !r.collided
}

pub open spec fn asteroid_kept(a: Asteroid, ship: Vec2, w: int, h: int) -> bool {
    !a.collided && in_world(ship, a.pos, w, h)
}

pub open spec fn hole_kept(b: BlackHole, ship: Vec2, w: int, h: int) -> bool {
    !b.collided && in_world(ship, b.pos, w, h)
}

proof fn lemma_filter_step<A>(s: Seq<A>, p: spec_fn(A) -> bool, i: int)
    requires
        0 <= i < s.len(),
    ensures
        s.take(i + 1).filter(p) == if p(s[i]) {
            s.take(i).filter(p).push(s[i])
        } else {
            s.take(i).filter(p)
        },
{
    reveal(Seq::filter);
    assert(s.take(i + 1).drop_last() =~= s.take(i));
}

/// Filtering twice by the same test keeps what filtering once keeps.
pub proof fn lemma_filter_idempotent<A>(s: Seq<A>, p: spec_fn(A) -> bool)
    ensures
        s.filter(p).filter(p) == s.filter(p),
    decreases s.len(),
{
    reveal(Seq::filter);
    if s.len() > 0 {
        lemma_filter_idempotent(s.drop_last(), p);
        let f = s.drop_last().filter(p);
        if p(s.last()) {
            assert(f.push(s.last()).drop_last() =~= f);
        }
    }
}

pub fn keep_bullets(bullets: &mut Vec<Bullet>, now: u64)
    ensures
        final(bullets)@ == old(bullets)@.filter(|b: Bullet| bullet_kept(b, now as int)),
{
    let mut kept: Vec<Bullet> = Vec::new();
    let mut i: usize = 0;
    while i < bullets.len()
        invariant
            0 <= i <= bullets@.len(),
            bullets@ == old(bullets)@,
            kept@ == bullets@.take(i as int).filter(|b: Bullet| bullet_kept(b, now as int)),
        decreases bullets@.len() - i,
    {
        let b = bullets[i];
        proof {
            lemma_filter_step(bullets@, |b: Bullet| bullet_kept(b, now as int), i as int);
        }
        if b.shot_at as u128 + BULLET_LIFETIME_MS as u128 > now as u128 && !b.collided {
            kept.push(b);
        }
        i += 1;
    }
    proof {
        assert(bullets@.take(i as int) =~= bullets@);
    }
    *bullets = kept;
}

pub fn keep_rockets(rockets: &mut Vec<Rocket>, now: u64)
    ensures
        final(rockets)@ == old(rockets)@.filter(|r: Rocket| rocket_kept(r, now as int)),
{
    let mut kept: Vec<Rocket> = Vec::new();
    let mut i: usize = 0;
    while i < rockets.len()
        invariant
            0 <= i <= rockets@.len(),
            rockets@ == old(rockets)@,
            kept@ == rockets@.take(i as int).filter(|r: Rocket| rocket_kept(r, now as int)),
        decreases rockets@.len() - i,
    {
        let r = rockets[i];
        proof {
            lemma_filter_step(rockets@, |r: Rocket| rocket_kept(r, now as int), i as int);
        }
        if r.shot_at as u128 + ROCKET_LIFETIME_MS as u128 > now as u128 && !r.collided {
            kept.push(r);
        }
        i += 1;
    }
    proof {
        assert(rockets@.take(i as int) =~= rockets@);
    }
    *rockets = kept;
}

pub fn keep_asteroids(asteroids: &mut Vec<Asteroid>, ship: Vec2, w: u32, h: u32, n_shapes: usize)
    requires
        bounded(ship, POS_LIMIT as int),
        0 < w <= SCREEN_LIMIT,
        0 < h <= SCREEN_LIMIT,
        forall|i: int|
            0 <= i < old(asteroids)@.len() ==> (#[trigger] old(asteroids)@[i]).wf(n_shapes as nat),
    ensures
        final(asteroids)@ == old(asteroids)@.filter(
            |a: Asteroid| asteroid_kept(a, ship, w as int, h as int),
        ),
{
    let mut kept: Vec<Asteroid> = Vec::new();
    let mut i: usize = 0;
    while i < asteroids.len()
        invariant
            bounded(ship, POS_LIMIT as int),
            0 < w <= SCREEN_LIMIT,
            0 < h <= SCREEN_LIMIT,
            forall|k: int| 0 <= k < asteroids@.len() ==> (#[trigger] asteroids@[k]).wf(n_shapes as nat),
            0 <= i <= asteroids@.len(),
            asteroids@ == old(asteroids)@,
            kept@ == asteroids@.take(i as int).filter(|a: Asteroid| asteroid_kept(a, ship, w as int, h as int)),
        decreases asteroids@.len() - i,
    {
        let a = asteroids[i];
        proof {
            lemma_filter_step(asteroids@, |a: Asteroid| asteroid_kept(a, ship, w as int, h as int), i as int);
        }
        if !a.collided && is_in_world(ship, a.pos, w, h) {
            kept.push(a);
        }
        i += 1;
    }
    proof {
        assert(asteroids@.take(i as int) =~= asteroids@);
    }
    *asteroids = kept;
}

pub fn keep_holes(holes: &mut Vec<BlackHole>, ship: Vec2, w: u32, h: u32)
    requires
        bounded(ship, POS_LIMIT as int),
        0 < w <= SCREEN_LIMIT,
        0 < h <= SCREEN_LIMIT,
        forall|i: int| 0 <= i < old(holes)@.len() ==> (#[trigger] old(holes)@[i]).wf(),
    ensures
        final(holes)@ == old(holes)@.filter(|b: BlackHole| hole_kept(b, ship, w as int, h as int)),
{
    let mut kept: Vec<BlackHole> = Vec::new();
    let mut i: usize = 0;
    while i < holes.len()
        invariant
            bounded(ship, POS_LIMIT as int),
            0 < w <= SCREEN_LIMIT,
            0 < h <= SCREEN_LIMIT,
            forall|k: int| 0 <= k < holes@.len() ==> (#[trigger] holes@[k]).wf(),
            0 <= i <= holes@.len(),
            holes@ == old(holes)@,
            kept@ == holes@.take(i as int).filter(|b: BlackHole| hole_kept(b, ship, w as int, h as int)),
        decreases holes@.len() - i,
    {
        let b = holes[i];
        proof {
            lemma_filter_step(holes@, |b: BlackHole| hole_kept(b, ship, w as int, h as int), i as int);
        }
        if !b.collided && is_in_world(ship, b.pos, w, h) {
            kept.push(b);
        }
        i += 1;
    }
    proof {
        assert(holes@.take(i as int) =~= holes@);
    }
    *holes = kept;
}

} // verus!
