//! Straight-line motion of bullets and asteroids, and rocket homing.
use vstd::prelude::*;
use crate::entity::{Asteroid, Bullet, Rocket, FULL_TURN_MILLI};
use crate::geom::{
    add_clamped, add_sat, bounded, clamp_length, clamped, dist_sq, dist_sq_exec, div_t, div_trunc,
    norm_sq, norm_sq_exec, sub_vec, Vec2, POS_LIMIT,
};
use crate::physics::ROCKET_SPEED_CAP;
use crate::trig::{bearing, bearing_of, heading, heading_of, turn, turn_between, turn_to, wrap_deg};

verus! {

/// Milliseconds after launch before a rocket's engine starts.
pub const ROCKET_ENGINE_DELAY_MS: u64 = 300;

/// Speed above which a rocket begins to home, in milli-pixels per tick.
pub const ROCKET_STEER_SPEED: i64 = 8000;

/// Largest turn a rocket makes in one tick, in degrees.
pub const ROCKET_TURN_CAP: i64 = 10;

/// Angles below this count as this much when a rocket picks its target.
pub const ROCKET_ANGLE_FLOOR: i64 = 20;

pub fn move_bullets(bullets: &mut Vec<Bullet>)
    requires
        forall|i: int| 0 <= i < old(bullets)@.len() ==> (#[trigger] old(bullets)@[i]).wf(),
    ensures
        final(bullets)@.len() == old(bullets)@.len(),
        forall|i: int|
            0 <= i < final(bullets)@.len() ==> #[trigger] final(bullets)@[i] == (Bullet {
                pos: add_sat(old(bullets)@[i].pos, old(bullets)@[i].vel, POS_LIMIT as int),
                ..old(bullets)@[i]
            }),
        forall|i: int| 0 <= i < final(bullets)@.len() ==> (#[trigger] final(bullets)@[i]).wf(),
{
    let ghost s = bullets@;
    let mut i: usize = 0;
    while i < bullets.len()
        invariant
            bullets@.len() == s.len(),
            forall|k: int| 0 <= k < s.len() ==> (#[trigger] s[k]).wf(),
            forall|k: int|
                0 <= k < i ==> #[trigger] bullets@[k] == (Bullet {
                    pos: add_sat(s[k].pos, s[k].vel, POS_LIMIT as int),
                    ..s[k]
                }),
            forall|k: int| i <= k < s.len() ==> #[trigger] bullets@[k] == s[k],
        decreases s.len() - i,
    {
        let mut b = bullets[i];
        b.pos = add_clamped(b.pos, b.vel, POS_LIMIT);
        bullets.set(i, b);
        i += 1;
    }
}

/// An asteroid after one tick: moved by its velocity, turned by its spin.
pub open spec fn drifted(a: Asteroid) -> Asteroid {
    Asteroid {
        pos: add_sat(a.pos, a.vel, POS_LIMIT as int),
        rot: ((a.rot + a.rot_speed) % (FULL_TURN_MILLI as int)) as i64,
        ..a
    }
}

pub fn move_asteroids(asteroids: &mut Vec<Asteroid>, n_shapes: usize)
    requires
        forall|i: int|
            0 <= i < old(asteroids)@.len() ==> (#[trigger] old(asteroids)@[i]).wf(n_shapes as nat),
    ensures
        final(asteroids)@.len() == old(asteroids)@.len(),
        forall|i: int|
            0 <= i < final(asteroids)@.len() ==> #[trigger] final(asteroids)@[i] == drifted(
                old(asteroids)@[i],
            ),
        forall|i: int|
            0 <= i < final(asteroids)@.len() ==> (#[trigger] final(asteroids)@[i]).wf(n_shapes as nat),
{
    let ghost s = asteroids@;
    let mut i: usize = 0;
    while i < asteroids.len()
        invariant
            asteroids@.len() == s.len(),
            forall|k: int| 0 <= k < s.len() ==> (#[trigger] s[k]).wf(n_shapes as nat),
            forall|k: int| 0 <= k < i ==> #[trigger] asteroids@[k] == drifted(s[k]),
            forall|k: int| i <= k < s.len() ==> #[trigger] asteroids@[k] == s[k],
        decreases s.len() - i,
    {
        let mut a = asteroids[i];
        a.pos = add_clamped(a.pos, a.vel, POS_LIMIT);
        let t = a.rot + a.rot_speed;
        assert((t + FULL_TURN_MILLI) as int % (FULL_TURN_MILLI as int) == t as int % (FULL_TURN_MILLI as int))
            by (nonlinear_arith);
        a.rot = (t + FULL_TURN_MILLI) % FULL_TURN_MILLI;
        asteroids.set(i, a);
        i += 1;
    }
}

/// The turn a rocket needs to face asteroid `a`.
pub open spec fn aim_angle(r: Rocket, a: Asteroid) -> int {
    turn_between(
        r.rot as int,
        bearing_of(Vec2 { x: (a.pos.x - r.pos.x) as i64, y: (a.pos.y - r.pos.y) as i64 }),
    )
}

/// The first part of a rocket's ranking of targets: the size of the turn,
/// counted as at least `ROCKET_ANGLE_FLOOR`.
pub open spec fn aim_key(r: Rocket, a: Asteroid) -> int {
    let t = if aim_angle(r, a) < 0 { -aim_angle(r, a) } else { aim_angle(r, a) };
    if t < ROCKET_ANGLE_FLOOR { ROCKET_ANGLE_FLOOR as int } else { t }
}

/// Whether `a` ranks strictly before `b` as a target: a smaller turn key,
/// then a shorter distance.
pub open spec fn ranks_before(r: Rocket, a: Asteroid, b: Asteroid) -> bool {
    aim_key(r, a) < aim_key(r, b) || (aim_key(r, a) == aim_key(r, b) && dist_sq(a.pos, r.pos)
        < dist_sq(b.pos, r.pos))
}

/// `t` is the rocket's target among asteroids `s`: none ranks before it, and
/// it ranks before every asteroid ahead of it in the pool.
pub open spec fn is_target(r: Rocket, s: Seq<Asteroid>, t: int) -> bool {
    &&& 0 <= t < s.len()
    &&& forall|k: int| 0 <= k < s.len() ==> !ranks_before(r, #[trigger] s[k], s[t])
    &&& forall|k: int| 0 <= k < t ==> ranks_before(r, s[t], #[trigger] s[k])
}

pub open spec fn target_of(r: Rocket, s: Seq<Asteroid>) -> int {
    choose|t: int| is_target(r, s, t)
}

proof fn lemma_target_unique(r: Rocket, s: Seq<Asteroid>, a: int, b: int)
    requires
        is_target(r, s, a),
        is_target(r, s, b),
    ensures
        a == b,
{
    if a < b {
        assert(ranks_before(r, s[b], s[a]));
    } else if b < a {
        assert(ranks_before(r, s[a], s[b]));
    }
}

fn rank_key(r: &Rocket, a: &Asteroid) -> (k: (i64, u128))
    requires
        r.wf(),
        bounded(a.pos, POS_LIMIT as int),
    ensures
        k.0 == aim_key(*r, *a),
        k.1 == dist_sq(a.pos, r.pos),
{
    let b = bearing(sub_vec(a.pos, r.pos));
    let t = turn_to(r.rot, b);
    let t = if t < 0 { -t } else { t };
    (if t < ROCKET_ANGLE_FLOOR { ROCKET_ANGLE_FLOOR } else { t }, dist_sq_exec(a.pos, r.pos))
}

/// The asteroid that rocket `r` homes in on, if there is any asteroid.
pub fn choose_target(r: &Rocket, asteroids: &Vec<Asteroid>, n_shapes: usize) -> (t: Option<usize>)
    requires
        r.wf(),
        forall|i: int| 0 <= i < asteroids@.len() ==> (#[trigger] asteroids@[i]).wf(n_shapes as nat),
    ensures
        t.is_none() <==> asteroids@.len() == 0,
        t.is_some() ==> is_target(*r, asteroids@, t.unwrap() as int) && t.unwrap() == target_of(
            *r,
            asteroids@,
        ),
{
    if asteroids.len() == 0 {
        return None;
    }
    let s = asteroids;
    let mut best: usize = 0;
    let mut best_key = rank_key(r, &s[0]);
    let mut i: usize = 1;
    while i < s.len()
        invariant
            r.wf(),
            forall|k: int| 0 <= k < s@.len() ==> (#[trigger] s@[k]).wf(n_shapes as nat),
            1 <= i <= s@.len(),
            best < i,
            best_key.0 == aim_key(*r, s@[best as int]),
            best_key.1 == dist_sq(s@[best as int].pos, r.pos),
            forall|k: int| 0 <= k < i ==> !ranks_before(*r, #[trigger] s@[k], s@[best as int]),
            forall|k: int| 0 <= k < best ==> ranks_before(*r, s@[best as int], #[trigger] s@[k]),
        decreases s@.len() - i,
    {
        let key = rank_key(r, &s[i]);
        if key.0 < best_key.0 || (key.0 == best_key.0 && key.1 < best_key.1) {
            best = i;
            best_key = key;
        }
        i += 1;
    }
    proof {
        assert(is_target(*r, s@, best as int));
        let c = choose|t: int| is_target(*r, s@, t);
        lemma_target_unique(*r, s@, c, best as int);
    }
    Some(best)
}

pub open spec fn clamp_turn(a: int) -> int {
    if a > ROCKET_TURN_CAP { ROCKET_TURN_CAP as int }
    else if a < -ROCKET_TURN_CAP { -ROCKET_TURN_CAP }
    else { a }
}

/// A rocket after one tick at game time `now`: once its engine has started
/// it homes (when fast enough, or once it has begun to), turning at most
/// `ROCKET_TURN_CAP` degrees toward its target, then thrusts 0.6 pixels
/// along its heading up to its speed cap; then it moves.
pub open spec fn flown(r: Rocket, s: Seq<Asteroid>, now: int) -> Rocket {
    if r.shot_at + ROCKET_ENGINE_DELAY_MS < now {
        let steer = r.steer || norm_sq(r.vel) > ROCKET_STEER_SPEED * ROCKET_STEER_SPEED;
        let rot = if steer && s.len() > 0 {
            wrap_deg(r.rot + clamp_turn(aim_angle(r, s[target_of(r, s)]))) as u32
        } else {
            r.rot
        };
        let h = heading(rot as int);
        let vel = clamped(
            Vec2 {
                x: (r.vel.x + div_t(h.x * 3, 5)) as i64,
                y: (r.vel.y + div_t(h.y * 3, 5)) as i64,
            },
            ROCKET_SPEED_CAP as int,
        );
        Rocket { pos: add_sat(r.pos, vel, POS_LIMIT as int), vel, rot, steer, ..r }
    } else {
        Rocket { pos: add_sat(r.pos, r.vel, POS_LIMIT as int), ..r }
    }
}

pub fn fly_rocket(r: &Rocket, asteroids: &Vec<Asteroid>, n_shapes: usize, now: u64) -> (out: Rocket)
    requires
        r.wf(),
        r.shot_at <= u64::MAX - ROCKET_ENGINE_DELAY_MS,
        forall|i: int| 0 <= i < asteroids@.len() ==> (#[trigger] asteroids@[i]).wf(n_shapes as nat),
    ensures
        out == flown(*r, asteroids@, now as int),
        out.wf(),
{
    let mut out = *r;
    if r.shot_at + ROCKET_ENGINE_DELAY_MS < now {
        let n = norm_sq_exec(r.vel);
        assert(ROCKET_STEER_SPEED * ROCKET_STEER_SPEED == 64_000_000);
        if n > 64_000_000u128 {
            out.steer = true;
        }
        if out.steer {
            if let Some(t) = choose_target(r, asteroids, n_shapes) {
                let a = turn_to(r.rot, bearing(sub_vec(asteroids[t].pos, r.pos)));
                let c = if a > ROCKET_TURN_CAP {
                    ROCKET_TURN_CAP
                } else if a < -ROCKET_TURN_CAP {
                    -ROCKET_TURN_CAP
                } else {
                    a
                };
                out.rot = turn(r.rot, c);
            }
        }
        let h = heading_of(out.rot);
        let v = Vec2 {
            x: r.vel.x + div_trunc(h.x as i128 * 3, 5) as i64,
            y: r.vel.y + div_trunc(h.y as i128 * 3, 5) as i64,
        };
        out.vel = clamp_length(v, ROCKET_SPEED_CAP);
    }
    out.pos = add_clamped(r.pos, out.vel, POS_LIMIT);
    out
}

/// Every rocket flies one tick, homing on the asteroids as they stand.
pub fn fly_rockets(rockets: &mut Vec<Rocket>, asteroids: &Vec<Asteroid>, n_shapes: usize, now: u64)
    requires
        forall|i: int|
            0 <= i < old(rockets)@.len() ==> (#[trigger] old(rockets)@[i]).wf() && old(rockets)@[i].shot_at <= now,
        now <= u64::MAX - ROCKET_ENGINE_DELAY_MS,
        forall|i: int| 0 <= i < asteroids@.len() ==> (#[trigger] asteroids@[i]).wf(n_shapes as nat),
    ensures
        final(rockets)@.len() == old(rockets)@.len(),
        forall|i: int|
            0 <= i < final(rockets)@.len() ==> #[trigger] final(rockets)@[i] == flown(
                old(rockets)@[i],
                asteroids@,
                now as int,
            ),
        forall|i: int|
            0 <= i < final(rockets)@.len() ==> (#[trigger] final(rockets)@[i]).wf()
                && final(rockets)@[i].shot_at <= now,
{
    let ghost r0 = rockets@;
    let mut i: usize = 0;
    while i < rockets.len()
        invariant
            rockets@.len() == r0.len(),
            now <= u64::MAX - ROCKET_ENGINE_DELAY_MS,
            forall|k: int| 0 <= k < asteroids@.len() ==> (#[trigger] asteroids@[k]).wf(n_shapes as nat),
            forall|k: int| 0 <= k < r0.len() ==> (#[trigger] r0[k]).wf() && r0[k].shot_at <= now,
            forall|k: int| 0 <= k < i ==> #[trigger] rockets@[k] == flown(r0[k], asteroids@, now as int),
            forall|k: int| i <= k < r0.len() ==> #[trigger] rockets@[k] == r0[k],
            forall|k: int| 0 <= k < i ==> (#[trigger] rockets@[k]).wf() && rockets@[k].shot_at <= now,
        decreases r0.len() - i,
    {
        let r = fly_rocket(&rockets[i], asteroids, n_shapes, now);
        rockets.set(i, r);
        i += 1;
    }
}

} // verus!
