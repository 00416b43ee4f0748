//! Motion, gravity and black-hole merging.
use vstd::prelude::*;
use crate::entity::{
    Asteroid, BlackHole, Bullet, Rocket, Ship, BULLET_RADIUS, ROCKET_RADIUS, SHIP_RADIUS,
};
use crate::geom::{
    abs, add_clamped, add_sat, bounded, clamp_length, clamped, dist_sq, dist_sq_exec, div_t,
    div_trunc, lemma_clamped_within, norm_sq, scale_to, scaled, sub_vec, within, Vec2, POS_LIMIT,
    VEL_LIMIT,
};
use crate::trig::{heading, heading_of};

verus! {

/// Largest radius a black hole grows to by merging.
pub const HOLE_SIZE_CAP: i64 = 400_000;

/// Speed cap of the ship, in milli-pixels per tick.
pub const SHIP_SPEED_CAP: i64 = 5000;

/// Speed cap of a rocket under its own thrust.
pub const ROCKET_SPEED_CAP: i64 = 15_000;

/// Largest pull a black hole exerts in one tick.
pub const GRAVITY_CAP: i64 = 100_000;

/// Gravity coefficient: a hole of radius `s` pulls `GRAVITY * s / d^2`
/// milli-pixels per tick at distance `d` (both in milli-pixels).
pub const GRAVITY: u128 = 70_000_000;

/// What the player asks of the ship's engine this tick.
#[derive(Clone, Copy, Debug, PartialEq, Eq, Structural)]
pub enum Drive {
    Thrust,
    Brake,
    Coast,
}

/// The ship's acceleration: a third of a pixel along its heading under
/// thrust, a twentieth of its velocity against it when braking, a
/// thousandth when coasting.
pub open spec fn ship_acc(ship: Ship, drive: Drive) -> Vec2 {
    match drive {
        Drive::Thrust => Vec2 {
            x: div_t(heading(ship.rot as int).x as int, 3) as i64,
            y: div_t(heading(ship.rot as int).y as int, 3) as i64,
        },
        Drive::Brake => Vec2 {
            x: (-div_t(ship.vel.x as int, 20)) as i64,
            y: (-div_t(ship.vel.y as int, 20)) as i64,
        },
        Drive::Coast => Vec2 {
            x: (-div_t(ship.vel.x as int, 1000)) as i64,
            y: (-div_t(ship.vel.y as int, 1000)) as i64,
        },
    }
}

/// The ship after one tick of semi-implicit Euler integration: velocity
/// plus acceleration, limited to the speed cap, then added to the position.
pub open spec fn integrated(ship: Ship, drive: Drive) -> Ship {
    let v = clamped(
        Vec2 {
            x: (ship.vel.x + ship_acc(ship, drive).x) as i64,
            y: (ship.vel.y + ship_acc(ship, drive).y) as i64,
        },
        SHIP_SPEED_CAP as int,
    );
    Ship { pos: add_sat(ship.pos, v, POS_LIMIT as int), rot: ship.rot, vel: v }
}

pub fn ship_acceleration(ship: &Ship, drive: Drive) -> (r: Vec2)
    requires
        ship.wf(),
    ensures
        r == ship_acc(*ship, drive),
        bounded(r, VEL_LIMIT as int),
{
    match drive {
        Drive::Thrust => {
            let h = heading_of(ship.rot);
            Vec2 { x: div_trunc(h.x as i128, 3) as i64, y: div_trunc(h.y as i128, 3) as i64 }
        },
        Drive::Brake => Vec2 {
            x: -(div_trunc(ship.vel.x as i128, 20) as i64),
            y: -(div_trunc(ship.vel.y as i128, 20) as i64),
        },
        Drive::Coast => Vec2 {
            x: -(div_trunc(ship.vel.x as i128, 1000) as i64),
            y: -(div_trunc(ship.vel.y as i128, 1000) as i64),
        },
    }
}

/// One tick of the ship's motion. Its speed never exceeds the cap
/// afterwards, and a velocity already within the cap is left as it is.
pub fn integrate_ship(ship: &mut Ship, drive: Drive)
    requires
        old(ship).wf(),
    ensures
        *final(ship) == integrated(*old(ship), drive),
        final(ship).wf(),
        norm_sq(final(ship).vel) <= SHIP_SPEED_CAP * SHIP_SPEED_CAP,
{
    let acc = ship_acceleration(ship, drive);
    let v = Vec2 { x: ship.vel.x + acc.x, y: ship.vel.y + acc.y };
    let v = clamp_length(v, SHIP_SPEED_CAP);
    ship.vel = v;
    ship.pos = add_clamped(ship.pos, v, POS_LIMIT);
}

/// Limiting a velocity to a cap twice is the same as once, and the result
/// is within the cap.
pub proof fn lemma_clamp_idempotent(v: Vec2, cap: int)
    requires
        bounded(v, 2 * POS_LIMIT),
        0 <= cap <= VEL_LIMIT,
    ensures
        norm_sq(clamped(v, cap)) <= cap * cap,
        clamped(clamped(v, cap), cap) == clamped(v, cap),
{
    lemma_clamped_within(v, cap);
}

/// How hard a hole of radius `size` pulls at squared distance `d2`: the
/// inverse-square law, limited to `GRAVITY_CAP`, and the cap itself at
/// distance zero.
pub open spec fn pull_strength(size: int, d2: int) -> int {
    if d2 == 0 || GRAVITY * size / d2 > GRAVITY_CAP {
        GRAVITY_CAP as int
    } else {
        GRAVITY * size / d2
    }
}

/// The pull toward `center` of a hole of radius `size` on a body at `pos`;
/// straight up the screen when the two coincide.
pub open spec fn pull(center: Vec2, size: int, pos: Vec2) -> Vec2 {
    let d = Vec2 { x: (center.x - pos.x) as i64, y: (center.y - pos.y) as i64 };
    let k = pull_strength(size, dist_sq(center, pos));
    if d == (Vec2 { x: 0, y: 0 }) {
        Vec2 { x: 0, y: (-k) as i64 }
    } else {
        scaled(d, k)
    }
}

/// Whether a body of radius `radius` at `pos` is inside a hole.
pub open spec fn captured(center: Vec2, size: int, pos: Vec2, radius: int) -> bool {
    dist_sq(center, pos) < (size + radius) * (size + radius)
}

pub fn pull_of(center: Vec2, size: i64, pos: Vec2) -> (r: Vec2)
    requires
        bounded(center, POS_LIMIT as int),
        bounded(pos, POS_LIMIT as int),
        0 < size <= 2 * HOLE_SIZE_CAP,
    ensures
        r == pull(center, size as int, pos),
        bounded(r, GRAVITY_CAP as int),
{
    let d = sub_vec(center, pos);
    let d2 = dist_sq_exec(center, pos);
    let k: i64 = if d2 == 0 || GRAVITY * (size as u128) / d2 > GRAVITY_CAP as u128 {
        GRAVITY_CAP
    } else {
        (GRAVITY * (size as u128) / d2) as i64
    };
    scale_to(d, k)
}

/// The velocity of a body at `pos` after a hole pulls it, and whether the
/// hole swallows it.
pub fn gravitate(hole: &BlackHole, pos: Vec2, vel: Vec2, radius: i64) -> (r: (Vec2, bool))
    requires
        hole.wf(),
        bounded(pos, POS_LIMIT as int),
        0 <= radius <= ASTEROID_REACH,
    ensures
        r.0 == add_sat(vel, pull(hole.pos, hole.size as int, pos), VEL_LIMIT as int),
        r.1 == captured(hole.pos, hole.size as int, pos, radius as int),
        bounded(r.0, VEL_LIMIT as int),
{
    let acc = pull_of(hole.pos, hole.size, pos);
    let v = add_clamped(vel, acc, VEL_LIMIT);
    let hit = within(hole.pos, pos, hole.size + radius);
    (v, hit)
}

/// Largest radius of a body that gravity acts on.
pub const ASTEROID_REACH: i64 = 10_000_000;

/// A bullet after a hole's pull: swallowed bullets are flagged.
pub open spec fn pulled_bullet(hole: BlackHole, b: Bullet) -> Bullet {
    Bullet {
        vel: add_sat(b.vel, pull(hole.pos, hole.size as int, b.pos), VEL_LIMIT as int),
        collided: b.collided || captured(hole.pos, hole.size as int, b.pos, BULLET_RADIUS as int),
        ..b
    }
}

pub open spec fn pulled_rocket(hole: BlackHole, r: Rocket) -> Rocket {
    Rocket {
        vel: add_sat(r.vel, pull(hole.pos, hole.size as int, r.pos), VEL_LIMIT as int),
        collided: r.collided || captured(hole.pos, hole.size as int, r.pos, ROCKET_RADIUS as int),
        ..r
    }
}

pub open spec fn pulled_asteroid(hole: BlackHole, a: Asteroid) -> Asteroid {
    Asteroid {
        vel: add_sat(a.vel, pull(hole.pos, hole.size as int, a.pos), VEL_LIMIT as int),
        collided: a.collided || captured(hole.pos, hole.size as int, a.pos, a.size as int),
        ..a
    }
}

pub fn pull_bullets(hole: &BlackHole, bullets: &mut Vec<Bullet>)
    requires
        hole.wf(),
        forall|i: int| 0 <= i < old(bullets)@.len() ==> (#[trigger] old(bullets)@[i]).wf(),
    ensures
        final(bullets)@.len() == old(bullets)@.len(),
        forall|i: int|
            0 <= i < final(bullets)@.len() ==> #[trigger] final(bullets)@[i] == pulled_bullet(
                *hole,
                old(bullets)@[i],
            ),
        forall|i: int| 0 <= i < final(bullets)@.len() ==> (#[trigger] final(bullets)@[i]).wf(),
{
    let ghost start = bullets@;
    let mut i: usize = 0;
    while i < bullets.len()
        invariant
            hole.wf(),
            bullets@.len() == start.len(),
            forall|k: int| 0 <= k < start.len() ==> (#[trigger] start[k]).wf(),
            forall|k: int| 0 <= k < i ==> #[trigger] bullets@[k] == pulled_bullet(*hole, start[k]),
            forall|k: int| i <= k < start.len() ==> #[trigger] bullets@[k] == start[k],
        decreases start.len() - i,
    {
        let mut b = bullets[i];
        let (v, hit) = gravitate(hole, b.pos, b.vel, BULLET_RADIUS);
        b.vel = v;
        b.collided = b.collided || hit;
        bullets.set(i, b);
        i += 1;
    }
}

pub fn pull_rockets(hole: &BlackHole, rockets: &mut Vec<Rocket>)
    requires
        hole.wf(),
        forall|i: int| 0 <= i < old(rockets)@.len() ==> (#[trigger] old(rockets)@[i]).wf(),
    ensures
        final(rockets)@.len() == old(rockets)@.len(),
        forall|i: int|
            0 <= i < final(rockets)@.len() ==> #[trigger] final(rockets)@[i] == pulled_rocket(
                *hole,
                old(rockets)@[i],
            ),
        forall|i: int| 0 <= i < final(rockets)@.len() ==> (#[trigger] final(rockets)@[i]).wf(),
{
    let ghost start = rockets@;
    let mut i: usize = 0;
    while i < rockets.len()
        invariant
            hole.wf(),
            rockets@.len() == start.len(),
            forall|k: int| 0 <= k < start.len() ==> (#[trigger] start[k]).wf(),
            forall|k: int| 0 <= k < i ==> #[trigger] rockets@[k] == pulled_rocket(*hole, start[k]),
            forall|k: int| i <= k < start.len() ==> #[trigger] rockets@[k] == start[k],
        decreases start.len() - i,
    {
        let mut r = rockets[i];
        let (v, hit) = gravitate(hole, r.pos, r.vel, ROCKET_RADIUS);
        r.vel = v;
        r.collided = r.collided || hit;
        rockets.set(i, r);
        i += 1;
    }
}

pub fn pull_asteroids(hole: &BlackHole, asteroids: &mut Vec<Asteroid>, n_shapes: usize)
    requires
        hole.wf(),
        forall|i: int|
            0 <= i < old(asteroids)@.len() ==> (#[trigger] old(asteroids)@[i]).wf(n_shapes as nat),
    ensures
        final(asteroids)@.len() == old(asteroids)@.len(),
        forall|i: int|
            0 <= i < final(asteroids)@.len() ==> #[trigger] final(asteroids)@[i]
                == pulled_asteroid(*hole, old(asteroids)@[i]),
        forall|i: int|
            0 <= i < final(asteroids)@.len() ==> (#[trigger] final(asteroids)@[i]).wf(n_shapes as nat),
{
    let ghost start = asteroids@;
    let mut i: usize = 0;
    while i < asteroids.len()
        invariant
            hole.wf(),
            asteroids@.len() == start.len(),
            forall|k: int| 0 <= k < start.len() ==> (#[trigger] start[k]).wf(n_shapes as nat),
            forall|k: int|
                0 <= k < i ==> #[trigger] asteroids@[k] == pulled_asteroid(*hole, start[k]),
            forall|k: int| i <= k < start.len() ==> #[trigger] asteroids@[k] == start[k],
        decreases start.len() - i,
    {
        let mut a = asteroids[i];
        let (v, hit) = gravitate(hole, a.pos, a.vel, a.size);
        a.vel = v;
        a.collided = a.collided || hit;
        asteroids.set(i, a);
        i += 1;
    }
}

/// Every hole moves by its velocity.
pub fn drift_holes(holes: &mut Vec<BlackHole>)
    requires
        forall|i: int| 0 <= i < old(holes)@.len() ==> (#[trigger] old(holes)@[i]).wf(),
    ensures
        final(holes)@.len() == old(holes)@.len(),
        forall|i: int|
            0 <= i < final(holes)@.len() ==> #[trigger] final(holes)@[i] == (BlackHole {
                pos: add_sat(old(holes)@[i].pos, old(holes)@[i].vel, POS_LIMIT as int),
                ..old(holes)@[i]
            }),
        forall|i: int| 0 <= i < final(holes)@.len() ==> (#[trigger] final(holes)@[i]).wf(),
{
    let ghost s = holes@;
    let mut i: usize = 0;
    while i < holes.len()
        invariant
            holes@.len() == s.len(),
            forall|k: int| 0 <= k < s.len() ==> (#[trigger] s[k]).wf(),
            forall|k: int|
                0 <= k < i ==> #[trigger] holes@[k] == (BlackHole {
                    pos: add_sat(s[k].pos, s[k].vel, POS_LIMIT as int),
                    ..s[k]
                }),
            forall|k: int| i <= k < s.len() ==> #[trigger] holes@[k] == s[k],
        decreases s.len() - i,
    {
        let mut h = holes[i];
        h.pos = add_clamped(h.pos, h.vel, POS_LIMIT);
        holes.set(i, h);
        i += 1;
    }
}

/// A bullet after holes `0..j` have pulled it in turn.
pub open spec fn bullet_after_holes(h: Seq<BlackHole>, j: int, b: Bullet) -> Bullet
    decreases j,
{
    if j <= 0 { b } else { pulled_bullet(h[j - 1], bullet_after_holes(h, j - 1, b)) }
}

pub open spec fn rocket_after_holes(h: Seq<BlackHole>, j: int, r: Rocket) -> Rocket
    decreases j,
{
    if j <= 0 { r } else { pulled_rocket(h[j - 1], rocket_after_holes(h, j - 1, r)) }
}

pub open spec fn asteroid_after_holes(h: Seq<BlackHole>, j: int, a: Asteroid) -> Asteroid
    decreases j,
{
    if j <= 0 { a } else { pulled_asteroid(h[j - 1], asteroid_after_holes(h, j - 1, a)) }
}

/// The ship's velocity after holes `0..j` have pulled it in turn.
pub open spec fn ship_vel_after_holes(h: Seq<BlackHole>, j: int, ship: Ship) -> Vec2
    decreases j,
{
    if j <= 0 {
        ship.vel
    } else {
        add_sat(
            ship_vel_after_holes(h, j - 1, ship),
            pull(h[j - 1].pos, h[j - 1].size as int, ship.pos),
            VEL_LIMIT as int,
        )
    }
}

/// Every hole pulls every bullet, rocket and asteroid and the ship, in turn,
/// flagging the bodies it swallows. Returns whether it swallowed the ship.
pub fn pull_all(
    holes: &Vec<BlackHole>,
    bullets: &mut Vec<Bullet>,
    rockets: &mut Vec<Rocket>,
    asteroids: &mut Vec<Asteroid>,
    ship: &mut Ship,
    n_shapes: usize,
) -> (swallowed: bool)
    requires
        forall|i: int| 0 <= i < holes@.len() ==> (#[trigger] holes@[i]).wf(),
        forall|i: int| 0 <= i < old(bullets)@.len() ==> (#[trigger] old(bullets)@[i]).wf(),
        forall|i: int| 0 <= i < old(rockets)@.len() ==> (#[trigger] old(rockets)@[i]).wf(),
        forall|i: int|
            0 <= i < old(asteroids)@.len() ==> (#[trigger] old(asteroids)@[i]).wf(n_shapes as nat),
        old(ship).wf(),
    ensures
        final(bullets)@.len() == old(bullets)@.len(),
        final(rockets)@.len() == old(rockets)@.len(),
        final(asteroids)@.len() == old(asteroids)@.len(),
        forall|i: int| 0 <= i < final(bullets)@.len() ==> (#[trigger] final(bullets)@[i]).wf()
            && final(bullets)@[i].shot_at == old(bullets)@[i].shot_at,
        forall|i: int| 0 <= i < final(rockets)@.len() ==> (#[trigger] final(rockets)@[i]).wf()
            && final(rockets)@[i].shot_at == old(rockets)@[i].shot_at,
        forall|i: int|
            0 <= i < final(asteroids)@.len() ==> (#[trigger] final(asteroids)@[i]).wf(n_shapes as nat),
        final(ship).wf(),
        final(ship).pos == old(ship).pos,
        final(ship).rot == old(ship).rot,
        final(ship).vel == ship_vel_after_holes(holes@, holes@.len() as int, *old(ship)),
        forall|i: int|
            0 <= i < final(bullets)@.len() ==> #[trigger] final(bullets)@[i] == bullet_after_holes(
                holes@,
                holes@.len() as int,
                old(bullets)@[i],
            ),
        forall|i: int|
            0 <= i < final(rockets)@.len() ==> #[trigger] final(rockets)@[i] == rocket_after_holes(
                holes@,
                holes@.len() as int,
                old(rockets)@[i],
            ),
        forall|i: int|
            0 <= i < final(asteroids)@.len() ==> #[trigger] final(asteroids)@[i]
                == asteroid_after_holes(holes@, holes@.len() as int, old(asteroids)@[i]),
        holes@.len() == 0 ==> !swallowed && *final(ship) == *old(ship) && final(bullets)@
            == old(bullets)@ && final(rockets)@ == old(rockets)@ && final(asteroids)@
            == old(asteroids)@,
        swallowed <==> exists|j: int|
            0 <= j < holes@.len() && captured(holes@[j].pos, holes@[j].size as int, old(ship).pos, SHIP_RADIUS as int),
{
    let ghost b0 = bullets@;
    let ghost r0 = rockets@;
    let mut swallowed = false;
    let mut j: usize = 0;
    while j < holes.len()
        invariant
            forall|i: int| 0 <= i < holes@.len() ==> (#[trigger] holes@[i]).wf(),
            0 <= j <= holes@.len(),
            bullets@.len() == b0.len(),
            rockets@.len() == r0.len(),
            forall|i: int| 0 <= i < bullets@.len() ==> (#[trigger] bullets@[i]).wf()
                && bullets@[i].shot_at == b0[i].shot_at,
            forall|i: int| 0 <= i < rockets@.len() ==> (#[trigger] rockets@[i]).wf()
                && rockets@[i].shot_at == r0[i].shot_at,
            asteroids@.len() == old(asteroids)@.len(),
            forall|i: int| 0 <= i < asteroids@.len() ==> (#[trigger] asteroids@[i]).wf(n_shapes as nat),
            ship.wf(),
            ship.pos == old(ship).pos,
            ship.rot == old(ship).rot,
            ship.vel == ship_vel_after_holes(holes@, j as int, *old(ship)),
            forall|i: int|
                0 <= i < bullets@.len() ==> #[trigger] bullets@[i] == bullet_after_holes(
                    holes@,
                    j as int,
                    b0[i],
                ),
            forall|i: int|
                0 <= i < rockets@.len() ==> #[trigger] rockets@[i] == rocket_after_holes(
                    holes@,
                    j as int,
                    r0[i],
                ),
            forall|i: int|
                0 <= i < asteroids@.len() ==> #[trigger] asteroids@[i] == asteroid_after_holes(
                    holes@,
                    j as int,
                    old(asteroids)@[i],
                ),
            j == 0 ==> *ship == *old(ship) && bullets@ == b0 && rockets@ == r0 && asteroids@
                == old(asteroids)@,
            swallowed <==> exists|k: int|
                0 <= k < j && captured(holes@[k].pos, holes@[k].size as int, old(ship).pos, SHIP_RADIUS as int),
        decreases holes@.len() - j,
    {
        let hole = holes[j];
        let ghost bb = bullets@;
        let ghost rr = rockets@;
        let ghost aa = asteroids@;
        pull_bullets(&hole, bullets);
        assert(forall|i: int| 0 <= i < bullets@.len() ==> #[trigger] bullets@[i].shot_at == bb[i].shot_at);
        pull_rockets(&hole, rockets);
        assert(forall|i: int| 0 <= i < rockets@.len() ==> #[trigger] rockets@[i].shot_at == rr[i].shot_at);
        pull_asteroids(&hole, asteroids, n_shapes);
        let (v, hit) = gravitate(&hole, ship.pos, ship.vel, SHIP_RADIUS);
        ship.vel = v;
        if hit {
            swallowed = true;
        }
        proof {
            assert forall|i: int| 0 <= i < bullets@.len() implies #[trigger] bullets@[i]
                == bullet_after_holes(holes@, j + 1, b0[i]) by {
                assert(bullets@[i] == pulled_bullet(hole, bb[i]));
            }
            assert forall|i: int| 0 <= i < rockets@.len() implies #[trigger] rockets@[i]
                == rocket_after_holes(holes@, j + 1, r0[i]) by {
                assert(rockets@[i] == pulled_rocket(hole, rr[i]));
            }
            assert forall|i: int| 0 <= i < asteroids@.len() implies #[trigger] asteroids@[i]
                == asteroid_after_holes(holes@, j + 1, old(asteroids)@[i]) by {
                assert(asteroids@[i] == pulled_asteroid(hole, aa[i]));
            }
            if !hit && exists|k: int|
                0 <= k < j + 1 && captured(holes@[k].pos, holes@[k].size as int, old(ship).pos, SHIP_RADIUS as int) {
                let k = choose|k: int|
                    0 <= k < j + 1 && captured(holes@[k].pos, holes@[k].size as int, old(ship).pos, SHIP_RADIUS as int);
                assert(k < j);
            }
        }
        j += 1;
    }
    swallowed
}

/// Whether two holes overlap: their centres are closer than their radii's sum.
pub open spec fn touching(a: BlackHole, b: BlackHole) -> bool {
    dist_sq(a.pos, b.pos) < (a.size + b.size) * (a.size + b.size)
}

/// The hole that `a` and `b` merge into: at the point between their centres
/// weighted by radius, with the radius-weighted mean velocity, and the sum
/// of their radii up to `HOLE_SIZE_CAP`.
pub open spec fn merged(a: BlackHole, b: BlackHole) -> BlackHole {
    let c = a.size + b.size;
    BlackHole {
        pos: Vec2 {
            x: (a.pos.x + div_t(b.size * (b.pos.x - a.pos.x), c)) as i64,
            y: (a.pos.y + div_t(b.size * (b.pos.y - a.pos.y), c)) as i64,
        },
        vel: Vec2 {
            x: div_t(a.size * a.vel.x + b.size * b.vel.x, c) as i64,
            y: div_t(a.size * a.vel.y + b.size * b.vel.y, c) as i64,
        },
        size: if c > HOLE_SIZE_CAP { HOLE_SIZE_CAP } else { c as i64 },
        collided: false,
    }
}

/// The pull of hole `j` on hole `i`: toward `j`, with their radii summed.
pub open spec fn pair_pull(s: Seq<BlackHole>, i: int, j: int) -> Vec2 {
    pull(s[j].pos, s[i].size + s[j].size, s[i].pos)
}

/// The pulls of holes `0..j` (but `i` itself) on hole `i`, summed.
pub open spec fn pulls_upto(s: Seq<BlackHole>, i: int, j: int) -> Vec2
    decreases j,
{
    if j <= 0 {
        Vec2 { x: 0, y: 0 }
    } else if j - 1 == i {
        pulls_upto(s, i, j - 1)
    } else {
        add_sat(pulls_upto(s, i, j - 1), pair_pull(s, i, j - 1), VEL_LIMIT as int)
    }
}

/// Number of holes `0..j` that hole `i` overlaps, not counting itself.
pub open spec fn row_count(s: Seq<BlackHole>, i: int, j: int) -> nat
    decreases j,
{
    if j <= 0 {
        0
    } else {
        row_count(s, i, j - 1) + if j - 1 != i && touching(s[i], s[j - 1]) { 1nat } else { 0nat }
    }
}

/// Number of overlapping pairs `j < i` among the holes `0..n`.
pub open spec fn pair_count(s: Seq<BlackHole>, n: int) -> nat
    decreases n,
{
    if n <= 0 {
        0
    } else {
        pair_count(s, n - 1) + row_count(s, n - 1, n - 1)
    }
}

/// Each hole's velocity after the holes pull on one another.
pub open spec fn hole_attracted(s: Seq<BlackHole>, i: int) -> BlackHole {
    BlackHole {
        vel: add_sat(s[i].vel, pulls_upto(s, i, s.len() as int), VEL_LIMIT as int),
        ..s[i]
    }
}

fn merge(a: &BlackHole, b: &BlackHole) -> (r: BlackHole)
    requires
        a.wf(),
        b.wf(),
    ensures
        r == merged(*a, *b),
        r.wf(),
{
    let c = a.size + b.size;
    let dx = b.pos.x as i128 - a.pos.x as i128;
    let dy = b.pos.y as i128 - a.pos.y as i128;
    proof {
        lemma_toward(a.pos.x as int, b.pos.x as int, b.size as int, c as int);
        lemma_toward(a.pos.y as int, b.pos.y as int, b.size as int, c as int);
        lemma_weighted(a.vel.x as int, b.vel.x as int, a.size as int, b.size as int);
        lemma_weighted(a.vel.y as int, b.vel.y as int, a.size as int, b.size as int);
    }
    let ox = div_trunc(b.size as i128 * dx, c as i128);
    let oy = div_trunc(b.size as i128 * dy, c as i128);
    let vx = div_trunc(a.size as i128 * a.vel.x as i128 + b.size as i128 * b.vel.x as i128, c as i128);
    let vy = div_trunc(a.size as i128 * a.vel.y as i128 + b.size as i128 * b.vel.y as i128, c as i128);
    BlackHole {
        pos: Vec2 { x: (a.pos.x as i128 + ox) as i64, y: (a.pos.y as i128 + oy) as i64 },
        vel: Vec2 { x: vx as i64, y: vy as i64 },
        size: if c > HOLE_SIZE_CAP { HOLE_SIZE_CAP } else { c },
        collided: false,
    }
}

/// The holes pull on one another: each pair by the inverse-square law with
/// their radii summed. Every new velocity is worked out from the velocities
/// and places before the pass, then all are applied.
pub fn attract_holes(holes: &mut Vec<BlackHole>)
    requires
        forall|i: int| 0 <= i < old(holes)@.len() ==> (#[trigger] old(holes)@[i]).wf(),
    ensures
        final(holes)@.len() == old(holes)@.len(),
        forall|i: int|
            0 <= i < final(holes)@.len() ==> #[trigger] final(holes)@[i] == hole_attracted(
                old(holes)@,
                i,
            ),
        forall|i: int| 0 <= i < final(holes)@.len() ==> (#[trigger] final(holes)@[i]).wf(),
{
    let ghost s = holes@;
    let n = holes.len();
    let mut vels: Vec<Vec2> = Vec::new();
    let mut i: usize = 0;
    while i < n
        invariant
            n == s.len(),
            holes@ == s,
            0 <= i <= n,
            forall|k: int| 0 <= k < n ==> (#[trigger] s[k]).wf(),
            vels@.len() == i,
            forall|k: int| 0 <= k < i ==> #[trigger] vels@[k] == hole_attracted(s, k).vel,
        decreases n - i,
    {
        let mut acc = Vec2 { x: 0, y: 0 };
        let mut j: usize = 0;
        while j < n
            invariant
                n == s.len(),
                holes@ == s,
                0 <= i < n,
                0 <= j <= n,
                forall|k: int| 0 <= k < n ==> (#[trigger] s[k]).wf(),
                acc == pulls_upto(s, i as int, j as int),
            decreases n - j,
        {
            if j != i {
                let p = pull_of(holes[j].pos, holes[i].size + holes[j].size, holes[i].pos);
                acc = add_clamped(acc, p, VEL_LIMIT);
            }
            j += 1;
        }
        vels.push(add_clamped(holes[i].vel, acc, VEL_LIMIT));
        i += 1;
    }
    let mut i: usize = 0;
    while i < n
        invariant
            n == s.len(),
            holes@.len() == n,
            vels@.len() == n,
            0 <= i <= n,
            forall|k: int| 0 <= k < n ==> (#[trigger] s[k]).wf(),
            forall|k: int| 0 <= k < n ==> #[trigger] vels@[k] == hole_attracted(s, k).vel,
            forall|k: int| 0 <= k < i ==> #[trigger] holes@[k] == hole_attracted(s, k),
            forall|k: int| i <= k < n ==> #[trigger] holes@[k] == s[k],
        decreases n - i,
    {
        let mut h = holes[i];
        h.vel = vels[i];
        holes.set(i, h);
        i += 1;
    }
}

/// Every hole after the holes pull on one another.
pub open spec fn attracted_all(s: Seq<BlackHole>) -> Seq<BlackHole> {
    Seq::new(s.len(), |i: int| hole_attracted(s, i))
}

/// Hole `i` after the holes' own pass: pulled by the others, flagged when it
/// overlaps another, then moved by its new velocity.
pub open spec fn hole_after_pass(s: Seq<BlackHole>, i: int) -> BlackHole {
    let t = attracted_all(s);
    BlackHole {
        pos: add_sat(t[i].pos, t[i].vel, POS_LIMIT as int),
        collided: t[i].collided || overlaps_other(t, i),
        ..t[i]
    }
}

pub open spec fn holes_after_pass(s: Seq<BlackHole>) -> Seq<BlackHole> {
    Seq::new(s.len(), |i: int| hole_after_pass(s, i))
}

/// Whether hole `i` overlaps any other hole.
pub open spec fn overlaps_other(s: Seq<BlackHole>, i: int) -> bool {
    exists|j: int| 0 <= j < s.len() && j != i && #[trigger] touching(s[i], s[j])
}

/// The mergers of hole `i` with each of holes `0..j` that it overlaps, in order.
pub open spec fn merger_row(s: Seq<BlackHole>, i: int, j: int) -> Seq<BlackHole>
    decreases j,
{
    if j <= 0 {
        Seq::empty()
    } else if touching(s[i], s[j - 1]) {
        merger_row(s, i, j - 1).push(merged(s[i], s[j - 1]))
    } else {
        merger_row(s, i, j - 1)
    }
}

/// One merger for each overlapping pair `j < i` among holes `0..n`, ordered
/// by `i`, then by `j`.
pub open spec fn mergers(s: Seq<BlackHole>, n: int) -> Seq<BlackHole>
    decreases n,
{
    if n <= 0 {
        Seq::empty()
    } else {
        mergers(s, n - 1) + merger_row(s, n - 1, n - 1)
    }
}

/// Whether `h` is the merger of some overlapping pair `j < i` of the holes.
pub open spec fn is_merger_of(s: Seq<BlackHole>, h: BlackHole) -> bool {
    exists|i: int, j: int|
        0 <= j < i < s.len() && touching(s[i], s[j]) && h == #[trigger] merged(s[i], s[j])
}

fn touching_exec(a: &BlackHole, b: &BlackHole) -> (r: bool)
    requires
        a.wf(),
        b.wf(),
    ensures
        r == touching(*a, *b),
{
    within(a.pos, b.pos, a.size + b.size)
}

/// Flags every hole that overlaps another, and returns the holes they merge
/// into: one for each overlapping pair.
pub fn merge_holes(holes: &mut Vec<BlackHole>) -> (born: Vec<BlackHole>)
    requires
        forall|i: int| 0 <= i < old(holes)@.len() ==> (#[trigger] old(holes)@[i]).wf(),
    ensures
        final(holes)@.len() == old(holes)@.len(),
        forall|i: int|
            0 <= i < final(holes)@.len() ==> #[trigger] final(holes)@[i] == (BlackHole {
                collided: old(holes)@[i].collided || overlaps_other(old(holes)@, i),
                ..old(holes)@[i]
            }),
        forall|i: int| 0 <= i < final(holes)@.len() ==> (#[trigger] final(holes)@[i]).wf(),
        born@ == mergers(old(holes)@, old(holes)@.len() as int),
        born@.len() == pair_count(old(holes)@, old(holes)@.len() as int),
        forall|k: int| 0 <= k < born@.len() ==> is_merger_of(old(holes)@, #[trigger] born@[k]),
        forall|k: int| 0 <= k < born@.len() ==> (#[trigger] born@[k]).wf(),
{
    let ghost s = holes@;
    let n = holes.len();
    let mut born: Vec<BlackHole> = Vec::new();
    let mut i: usize = 0;
    while i < n
        invariant
            n == s.len(),
            holes@ == s,
            0 <= i <= n,
            forall|k: int| 0 <= k < n ==> (#[trigger] s[k]).wf(),
            born@.len() == pair_count(s, i as int),
            born@ == mergers(s, i as int),
            forall|k: int| 0 <= k < born@.len() ==> is_merger_of(s, #[trigger] born@[k]),
            forall|k: int| 0 <= k < born@.len() ==> (#[trigger] born@[k]).wf(),
        decreases n - i,
    {
        let mut j: usize = 0;
        while j < i
            invariant
                n == s.len(),
                holes@ == s,
                0 <= j <= i < n,
                forall|k: int| 0 <= k < n ==> (#[trigger] s[k]).wf(),
                born@.len() == pair_count(s, i as int) + row_count(s, i as int, j as int),
                born@ == mergers(s, i as int) + merger_row(s, i as int, j as int),
                forall|k: int| 0 <= k < born@.len() ==> is_merger_of(s, #[trigger] born@[k]),
                forall|k: int| 0 <= k < born@.len() ==> (#[trigger] born@[k]).wf(),
            decreases i - j,
        {
            if touching_exec(&holes[i], &holes[j]) {
                let m = merge(&holes[i], &holes[j]);
                proof {
                    assert(is_merger_of(s, m)) by {
                        assert(touching(s[i as int], s[j as int]));
                        assert(m == merged(s[i as int], s[j as int]));
                    }
                }
                let ghost before = born@;
                born.push(m);
                assert(born@ =~= mergers(s, i as int) + merger_row(s, i as int, j + 1));
            }
            j += 1;
        }
        assert(pair_count(s, i + 1) == pair_count(s, i as int) + row_count(s, i as int, i as int));
        i += 1;
    }
    let mut flags: Vec<bool> = Vec::new();
    let mut i: usize = 0;
    while i < n
        invariant
            n == s.len(),
            holes@ == s,
            0 <= i <= n,
            forall|k: int| 0 <= k < n ==> (#[trigger] s[k]).wf(),
            flags@.len() == i,
            forall|k: int| 0 <= k < i ==> #[trigger] flags@[k] == overlaps_other(s, k),
        decreases n - i,
    {
        let mut hit = false;
        let mut j: usize = 0;
        while j < n
            invariant
                n == s.len(),
                holes@ == s,
                0 <= i < n,
                0 <= j <= n,
                forall|k: int| 0 <= k < n ==> (#[trigger] s[k]).wf(),
                hit == exists|m: int| 0 <= m < j && m != i && #[trigger] touching(s[i as int], s[m]),
            decreases n - j,
        {
            if j != i && touching_exec(&holes[i], &holes[j]) {
                hit = true;
            }
            j += 1;
        }
        flags.push(hit);
        i += 1;
    }
    let mut i: usize = 0;
    while i < n
        invariant
            n == s.len(),
            holes@.len() == n,
            flags@.len() == n,
            0 <= i <= n,
            forall|k: int| 0 <= k < n ==> (#[trigger] s[k]).wf(),
            forall|k: int| 0 <= k < n ==> #[trigger] flags@[k] == overlaps_other(s, k),
            forall|k: int|
                0 <= k < i ==> #[trigger] holes@[k] == (BlackHole {
                    collided: s[k].collided || overlaps_other(s, k),
                    ..s[k]
                }),
            forall|k: int| i <= k < n ==> #[trigger] holes@[k] == s[k],
        decreases n - i,
    {
        let mut h = holes[i];
        h.collided = h.collided || flags[i];
        holes.set(i, h);
        i += 1;
    }
    born
}

/// Two overlapping holes make exactly one hole, whose radius is the sum of
/// theirs up to the cap, and both are flagged for removal.
pub proof fn lemma_two_holes_merge(s: Seq<BlackHole>, born: Seq<BlackHole>)
    requires
        s.len() == 2,
        s[0].wf(),
        s[1].wf(),
        touching(s[1], s[0]),
        born.len() == pair_count(s, 2),
        forall|k: int| 0 <= k < born.len() ==> is_merger_of(s, #[trigger] born[k]),
    ensures
        born.len() == 1,
        born[0].size == if s[0].size + s[1].size > HOLE_SIZE_CAP {
            HOLE_SIZE_CAP as int
        } else {
            s[0].size + s[1].size
        },
        overlaps_other(s, 0),
        overlaps_other(s, 1),
{
    assert(row_count(s, 0, 0) == 0);
    assert(row_count(s, 1, 0) == 0);
    assert(row_count(s, 1, 1) == 1);
    assert(pair_count(s, 0) == 0);
    assert(pair_count(s, 1) == 0);
    assert(is_merger_of(s, born[0]));
    let (i, j) = choose|i: int, j: int|
        0 <= j < i < s.len() && touching(s[i], s[j]) && born[0] == #[trigger] merged(s[i], s[j]);
    assert(i == 1 && j == 0);
    assert(touching(s[0], s[1])) by {
        lemma_dist_sq_symmetric(s[0].pos, s[1].pos);
    }
    assert(touching(s[1], s[0]));
}

proof fn lemma_dist_sq_symmetric(a: Vec2, b: Vec2)
    ensures
        dist_sq(a, b) == dist_sq(b, a),
{
    assert(dist_sq(a, b) == dist_sq(b, a)) by (nonlinear_arith);
}

/// A point `w / c` of the way from `a` to `b`, rounded toward `a`, lies
/// between them.
proof fn lemma_toward(a: int, b: int, w: int, c: int)
    requires
        0 < w < c,
        -POS_LIMIT <= a <= POS_LIMIT,
        -POS_LIMIT <= b <= POS_LIMIT,
        c <= 2 * HOLE_SIZE_CAP,
    ensures
        -POS_LIMIT <= a + div_t(w * (b - a), c) <= POS_LIMIT,
        abs(w * (b - a)) <= 4 * HOLE_SIZE_CAP * POS_LIMIT,
{
    let d = b - a;
    let m = abs(w * d) / c;
    assert(abs(w * d) == w * abs(d) && w * abs(d) <= c * abs(d)) by (nonlinear_arith)
        requires
            0 < w < c,
    ;
    assert(m <= abs(d) && m >= 0) by (nonlinear_arith)
        requires
            m == abs(w * d) / c,
            abs(w * d) <= c * abs(d),
            c > 0,
    ;
    assert(abs(w * d) <= 4 * HOLE_SIZE_CAP * POS_LIMIT) by (nonlinear_arith)
        requires
            abs(w * d) == w * abs(d),
            0 < w < c,
            c <= 2 * HOLE_SIZE_CAP,
            abs(d) <= 2 * POS_LIMIT,
    ;
    if d >= 0 {
        assert(w * d >= 0) by (nonlinear_arith)
            requires
                w > 0,
                d >= 0,
        ;
    } else {
        assert(w * d < 0) by (nonlinear_arith)
            requires
                w > 0,
                d < 0,
        ;
    }
}

/// A radius-weighted mean of two velocities stays within the velocity limit.
proof fn lemma_weighted(va: int, vb: int, wa: int, wb: int)
    requires
        0 < wa <= HOLE_SIZE_CAP,
        0 < wb <= HOLE_SIZE_CAP,
        -VEL_LIMIT <= va <= VEL_LIMIT,
        -VEL_LIMIT <= vb <= VEL_LIMIT,
    ensures
        -VEL_LIMIT <= div_t(wa * va + wb * vb, wa + wb) <= VEL_LIMIT,
        abs(wa * va + wb * vb) <= 2 * HOLE_SIZE_CAP * VEL_LIMIT,
        abs(wa * va) <= HOLE_SIZE_CAP * VEL_LIMIT,
        abs(wb * vb) <= HOLE_SIZE_CAP * VEL_LIMIT,
{
    assert(abs(wa * va) <= HOLE_SIZE_CAP * VEL_LIMIT && abs(wb * vb) <= HOLE_SIZE_CAP * VEL_LIMIT)
        by (nonlinear_arith)
        requires
            0 < wa <= HOLE_SIZE_CAP,
            0 < wb <= HOLE_SIZE_CAP,
            -VEL_LIMIT <= va <= VEL_LIMIT,
            -VEL_LIMIT <= vb <= VEL_LIMIT,
    ;
    let n = wa * va + wb * vb;
    let c = wa + wb;
    assert(abs(n) <= c * VEL_LIMIT) by (nonlinear_arith)
        requires
            n == wa * va + wb * vb,
            c == wa + wb,
            0 < wa,
            0 < wb,
            -VEL_LIMIT <= va <= VEL_LIMIT,
            -VEL_LIMIT <= vb <= VEL_LIMIT,
    ;
    assert(c * VEL_LIMIT <= 2 * HOLE_SIZE_CAP * VEL_LIMIT);
    let m = abs(n) / c;
    assert(0 <= m <= VEL_LIMIT) by (nonlinear_arith)
        requires
            m == abs(n) / c,
            abs(n) <= c * VEL_LIMIT,
            c > 0,
    ;
}

} // verus!
