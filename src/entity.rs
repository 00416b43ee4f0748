//! The simulated bodies: ship, bullets, rockets, asteroids, black holes, and
//! the shared palette of asteroid outlines.
use vstd::prelude::*;
use crate::geom::{
    abs, bounded, div_t, dot, lemma_root_exists, lemma_scaled_fits, norm_sq, perp_ccw, perp_cw,
    root_up, scale_to, scaled, Vec2, POS_LIMIT, UNIT, VEL_LIMIT,
};
use crate::rng::random_between;

verus! {

/// Radius of the ship's hit circle: a third of its 25-pixel height.
pub const SHIP_RADIUS: i64 = 8333;

/// Radius of a bullet.
pub const BULLET_RADIUS: i64 = 2000;

/// Radius of a rocket where black holes are concerned.
pub const ROCKET_RADIUS: i64 = 5000;

/// Length of a rocket, its reach where asteroids are concerned.
pub const ROCKET_SIZE: i64 = 8000;

/// Largest radius an asteroid may have.
pub const ASTEROID_SIZE_LIMIT: i64 = 10_000_000;

/// Largest side of the screen, in pixels.
pub const SCREEN_LIMIT: u32 = 0x1_0000;

/// Milli-degrees in a full turn.
pub const FULL_TURN_MILLI: i64 = 360_000;

#[derive(Clone, Copy, Debug)]
pub struct Ship {
    pub pos: Vec2,
    /// Rotation in degrees, in `[0, 360)`.
    pub rot: u32,
    pub vel: Vec2,
}

#[derive(Clone, Copy, Debug)]
pub struct Bullet {
    pub pos: Vec2,
    pub vel: Vec2,
    /// Game time of the shot, in milliseconds.
    pub shot_at: u64,
    pub collided: bool,
}

#[derive(Clone, Copy, Debug)]
pub struct Rocket {
    pub pos: Vec2,
    pub vel: Vec2,
    /// Rotation in degrees, in `[0, 360)`.
    pub rot: u32,
    pub collided: bool,
    /// Game time of the launch, in milliseconds.
    pub shot_at: u64,
    /// Whether the rocket has begun to home in on asteroids.
    pub steer: bool,
}

#[derive(Clone, Copy, Debug)]
pub struct Asteroid {
    pub pos: Vec2,
    pub vel: Vec2,
    /// Rotation in milli-degrees, in `[0, 360000)`.
    pub rot: i64,
    /// Spin in milli-degrees per tick.
    pub rot_speed: i64,
    /// Radius in milli-pixels.
    pub size: i64,
    /// Remaining durability: at 3 the asteroid no longer splits.
    pub sides: u8,
    pub collided: bool,
    /// Index of the outline in the shared palette.
    pub shape_idx: usize,
}

#[derive(Clone, Copy, Debug)]
pub struct BlackHole {
    pub pos: Vec2,
    pub vel: Vec2,
    /// Radius in milli-pixels.
    pub size: i64,
    pub collided: bool,
}

/// An irregular polygon outline: for each corner, an angular offset (in
/// thousandths of the corner's share of a turn) and a radius factor (in
/// thousandths of the asteroid's radius).
#[derive(Debug)]
pub struct AsteroidShape {
    pub corners: Vec<(i64, i64)>,
}

pub open spec fn body_ok(pos: Vec2, vel: Vec2) -> bool {
    bounded(pos, POS_LIMIT as int) && bounded(vel, VEL_LIMIT as int)
}

impl Ship {
    pub open spec fn wf(&self) -> bool {
        body_ok(self.pos, self.vel) && self.rot < 360
    }
}

impl Bullet {
    pub open spec fn wf(&self) -> bool {
        body_ok(self.pos, self.vel)
    }
}

impl Rocket {
    pub open spec fn wf(&self) -> bool {
        body_ok(self.pos, self.vel) && self.rot < 360
    }
}

impl BlackHole {
    pub open spec fn wf(&self) -> bool {
        body_ok(self.pos, self.vel) && 0 < self.size <= crate::physics::HOLE_SIZE_CAP
    }
}

impl Asteroid {
    pub open spec fn wf(&self, n_shapes: nat) -> bool {
        &&& body_ok(self.pos, self.vel)
        &&& 0 <= self.rot < FULL_TURN_MILLI
        &&& -2000 <= self.rot_speed <= 2000
        &&& 0 <= self.size <= ASTEROID_SIZE_LIMIT
        &&& self.sides >= 3
        &&& self.shape_idx < n_shapes
    }

    /// A fresh asteroid at `pos`: slow random drift and spin, a radius of a
    /// tenth of the screen's shorter side, 3 to 7 sides, a random outline.
    pub fn new(pos: Vec2, n_shapes: usize, screen_w: u32, screen_h: u32) -> (r: Asteroid)
        requires
            bounded(pos, POS_LIMIT as int),
            n_shapes > 0,
            0 < screen_w <= SCREEN_LIMIT,
            0 < screen_h <= SCREEN_LIMIT,
        ensures
            r.wf(n_shapes as nat),
            r.pos == pos,
            -UNIT <= r.vel.x < UNIT,
            -UNIT <= r.vel.y < UNIT,
            r.rot == 0,
            -2000 <= r.rot_speed < 2000,
            r.size == 100 * (if screen_w < screen_h { screen_w } else { screen_h }),
            3 <= r.sides < 8,
            !r.collided,
    {
        let short = if screen_w < screen_h { screen_w } else { screen_h };
        let vx = random_between(-UNIT, UNIT);
        let vy = random_between(-UNIT, UNIT);
        let rot_speed = random_between(-2000, 2000);
        let sides = random_between(3, 8);
        let shape_idx = random_between(0, (n_shapes % 0x10_0000) as i64);
        Asteroid {
            pos,
            vel: Vec2 { x: vx, y: vy },
            rot: 0,
            rot_speed,
            size: 100 * short as i64,
            sides: sides as u8,
            collided: false,
            shape_idx: if shape_idx >= 0 && (shape_idx as usize) < n_shapes { shape_idx as usize } else { 0 },
        }
    }
}

impl AsteroidShape {
    pub open spec fn wf(&self) -> bool {
        &&& 6 <= self.corners@.len() < 12
        &&& forall|i: int|
            0 <= i < self.corners@.len() ==> -300 <= (#[trigger] self.corners@[i]).0 < 300
                && 900 <= self.corners@[i].1 < 1100
    }

    /// A random outline of 6 to 11 corners, each with an angular jitter in
    /// `[-0.3, 0.3)` of its share and a radius factor in `[0.9, 1.1)`.
    pub fn new() -> (r: AsteroidShape)
        ensures
            r.wf(),
    {
        let n = random_between(6, 12);
        let mut corners: Vec<(i64, i64)> = Vec::new();
        let mut i: i64 = 0;
        while i < n
            invariant
                6 <= n < 12,
                0 <= i <= n,
                corners@.len() == i,
                forall|j: int|
                    0 <= j < corners@.len() ==> -300 <= (#[trigger] corners@[j]).0 < 300
                        && 900 <= corners@[j].1 < 1100,
            decreases n - i,
        {
            let arc_offset = random_between(-300, 300);
            let radius_factor = random_between(900, 1100);
            corners.push((arc_offset, radius_factor));
            i += 1;
        }
        AsteroidShape { corners }
    }
}

/// The two quarter-turns of the hit vector that the fragments fly along.
pub open spec fn fragment_dir(hit: Vec2, second: bool) -> Vec2 {
    if second { perp_ccw(hit) } else { perp_cw(hit) }
}

/// What each fragment of `a`, struck along `hit`, is: at the parent's place,
/// one side fewer, four fifths of its radius, moving at `speed` (a draw in
/// `[1, 3)` pixels per tick) at a right angle to `hit`.
pub open spec fn is_fragment(c: Asteroid, a: Asteroid, hit: Vec2, second: bool, n_shapes: nat) -> bool {
    &&& c.wf(n_shapes)
    &&& c.pos == a.pos
    &&& c.sides == a.sides - 1
    &&& c.size == a.size * 4 / 5
    &&& !c.collided
    &&& exists|speed: int| UNIT <= speed < 3 * UNIT && c.vel == #[trigger] fragment_vel(hit, second, speed)
}

/// The velocity of a fragment at `speed`: straight up the screen when the
/// hit vector is zero and gives no direction.
pub open spec fn fragment_vel(hit: Vec2, second: bool, speed: int) -> Vec2 {
    if hit == (Vec2 { x: 0, y: 0 }) {
        Vec2 { x: 0, y: (-speed) as i64 }
    } else {
        scaled(fragment_dir(hit, second), speed)
    }
}

proof fn lemma_rem_small(a: int, l: int, q: int)
    requires
        l > 0,
        q == div_t(a, l),
    ensures
        abs(a - q * l) < l,
{
    let m = abs(a) / l;
    assert(m * l <= abs(a) < m * l + l) by (nonlinear_arith)
        requires
            m == abs(a) / l,
            l > 0,
    ;
    if a >= 0 {
        assert(q == m);
    } else {
        assert(q == -m);
        assert(q * l == -(m * l)) by (nonlinear_arith)
            requires
                q == -m,
        ;
    }
}

/// A quarter-turned vector rescaled with rounding toward zero stays at a
/// right angle to the vector it was turned from, up to `|hx| + |hy|` in the dot product.
proof fn lemma_perp_dot(hx: int, hy: int, k: int, l: int, q1: int, q2: int)
    requires
        l > 0,
        q1 == div_t(hy * k, l),
        q2 == div_t(-hx * k, l),
        hx != 0 || hy != 0,
    ensures
        abs(hx * q1 + hy * q2) < abs(hx) + abs(hy),
{
    lemma_rem_small(hy * k, l, q1);
    lemma_rem_small(-hx * k, l, q2);
    let e1 = hy * k - q1 * l;
    let e2 = -hx * k - q2 * l;
    let d = hx * q1 + hy * q2;
    assert(hx * e1 == hx * hy * k - hx * q1 * l) by (nonlinear_arith)
        requires
            e1 == hy * k - q1 * l,
    ;
    assert(hy * e2 == -(hx * hy * k) - hy * q2 * l) by (nonlinear_arith)
        requires
            e2 == -hx * k - q2 * l,
    ;
    assert(d * l == hx * q1 * l + hy * q2 * l) by (nonlinear_arith)
        requires
            d == hx * q1 + hy * q2,
    ;
    assert(d * l == -(hx * e1 + hy * e2));
    assert(abs(d * l) == abs(d) * l) by (nonlinear_arith)
        requires
            l > 0,
    ;
    assert(abs(hx * e1) == abs(hx) * abs(e1)) by (nonlinear_arith);
    assert(abs(hy * e2) == abs(hy) * abs(e2)) by (nonlinear_arith);
    assert(abs(hx) * abs(e1) <= abs(hx) * (l - 1)) by (nonlinear_arith)
        requires
            abs(e1) <= l - 1,
    ;
    assert(abs(hy) * abs(e2) <= abs(hy) * (l - 1)) by (nonlinear_arith)
        requires
            abs(e2) <= l - 1,
    ;
    let sum = abs(hx) + abs(hy);
    assert(abs(hx) * (l - 1) + abs(hy) * (l - 1) == sum * l - sum) by (nonlinear_arith)
        requires
            sum == abs(hx) + abs(hy),
    ;
    assert(abs(d) * l < sum * l);
    assert(abs(d) < sum) by (nonlinear_arith)
        requires
            abs(d) * l < sum * l,
            l > 0,
    ;
}

/// The direction of a fragment is at a right angle to a non-zero hit
/// vector: the dot product is below `|hit.x| + |hit.y|`, against lengths of
/// at least a thousand times the hit's.
pub proof fn lemma_fragment_perpendicular(hit: Vec2, second: bool, speed: int)
    requires
        hit != (Vec2 { x: 0, y: 0 }),
        bounded(hit, VEL_LIMIT as int),
        0 <= speed <= VEL_LIMIT,
    ensures
        abs(dot(scaled(fragment_dir(hit, second), speed), hit)) < abs(hit.x as int) + abs(
            hit.y as int,
        ),
{
    let d = fragment_dir(hit, second);
    let (hx, hy) = (hit.x as int, hit.y as int);
    let n = norm_sq(d);
    if second {
        assert(d.x == -hy && d.y == hx);
    } else {
        assert(d.x == hy && d.y == -hx);
    }
    assert(d.x * d.x == hy * hy && d.y * d.y == hx * hx) by (nonlinear_arith)
        requires
            d.x == hy || d.x == -hy,
            d.y == hx || d.y == -hx,
    ;
    assert(n > 0) by (nonlinear_arith)
        requires
            n == hy * hy + hx * hx,
            hx != 0 || hy != 0,
    ;
    assert(n <= 2 * VEL_LIMIT * VEL_LIMIT) by (nonlinear_arith)
        requires
            n == hy * hy + hx * hx,
            -VEL_LIMIT <= hx <= VEL_LIMIT,
            -VEL_LIMIT <= hy <= VEL_LIMIT,
    ;
    lemma_root_exists(n);
    let l = root_up(n);
    let s = scaled(d, speed);
    lemma_scaled_fits(d, speed, l);
    if second {
        assert(-(-hx) * speed == hx * speed) by (nonlinear_arith);
        assert(s.x == div_t((-hy) * speed, l));
        assert(s.y == div_t(-(-hx) * speed, l));
        lemma_perp_dot(-hx, -hy, speed, l, s.x as int, s.y as int);
        assert((-hx) * s.x + (-hy) * s.y == -(s.x * hx + s.y * hy)) by (nonlinear_arith);
    } else {
        assert(s.x == div_t(hy * speed, l));
        assert(s.y == div_t((-hx) * speed, l));
        lemma_perp_dot(hx, hy, speed, l, s.x as int, s.y as int);
        assert(hx * s.x + hy * s.y == s.x * hx + s.y * hy) by (nonlinear_arith);
    }
}

/// The fragments of asteroid `a` destroyed by a hit along `hit`: two when it
/// has more than 3 sides, none at 3.
pub fn fragment(a: &Asteroid, hit: Vec2, n_shapes: usize) -> (r: Vec<Asteroid>)
    requires
        a.wf(n_shapes as nat),
        bounded(hit, VEL_LIMIT as int),
        n_shapes > 0,
    ensures
        a.sides > 3 ==> r@.len() == 2 && is_fragment(r@[0], *a, hit, false, n_shapes as nat)
            && is_fragment(r@[1], *a, hit, true, n_shapes as nat),
        a.sides <= 3 ==> r@.len() == 0,
{
    let mut r: Vec<Asteroid> = Vec::new();
    if a.sides > 3 {
        let first = fragment_one(a, hit, false, n_shapes);
        let second = fragment_one(a, hit, true, n_shapes);
        r.push(first);
        r.push(second);
    }
    r
}

/// Every fragment has one side fewer, four fifths of the parent's radius,
/// and flies at a right angle to a non-zero hit vector (the dot product of
/// its velocity with the hit is below `|hit.x| + |hit.y|`).
pub proof fn lemma_fragment_laws(c: Asteroid, a: Asteroid, hit: Vec2, second: bool, n_shapes: nat)
    requires
        is_fragment(c, a, hit, second, n_shapes),
        bounded(hit, VEL_LIMIT as int),
        hit != (Vec2 { x: 0, y: 0 }),
    ensures
        c.sides == a.sides - 1,
        c.size == a.size * 4 / 5,
        abs(dot(c.vel, hit)) < abs(hit.x as int) + abs(hit.y as int),
{
    let speed = choose|speed: int|
        UNIT <= speed < 3 * UNIT && c.vel == #[trigger] fragment_vel(hit, second, speed);
    lemma_fragment_perpendicular(hit, second, speed);
}

fn fragment_one(a: &Asteroid, hit: Vec2, second: bool, n_shapes: usize) -> (c: Asteroid)
    requires
        a.wf(n_shapes as nat),
        a.sides > 3,
        bounded(hit, VEL_LIMIT as int),
        n_shapes > 0,
    ensures
        is_fragment(c, *a, hit, second, n_shapes as nat),
{
    let dir = if second {
        Vec2 { x: -hit.y, y: hit.x }
    } else {
        Vec2 { x: hit.y, y: -hit.x }
    };
    let speed = random_between(UNIT, 3 * UNIT);
    let vel = scale_to(dir, speed);
    let rot = random_between(0, FULL_TURN_MILLI);
    let rot_speed = random_between(-2000, 2000);
    let shape_idx = random_between(0, (n_shapes % 0x10_0000) as i64);
    let c = Asteroid {
        pos: a.pos,
        vel,
        rot,
        rot_speed,
        size: a.size * 4 / 5,
        sides: a.sides - 1,
        collided: false,
        shape_idx: if shape_idx >= 0 && (shape_idx as usize) < n_shapes { shape_idx as usize } else { 0 },
    };
    assert(c.vel == fragment_vel(hit, second, speed as int));
    assert(dir == fragment_dir(hit, second));
    assert(dir == (Vec2 { x: 0, y: 0 }) <==> hit == (Vec2 { x: 0, y: 0 }));
    c
}

} // verus!
