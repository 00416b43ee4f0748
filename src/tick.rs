//! One tick of a playing session.
use vstd::prelude::*;
use crate::collide::{contact_result, fatal_contact, resolve_collisions};
use crate::entity::{Asteroid, BlackHole, Bullet, Rocket, Ship, SCREEN_LIMIT, SHIP_RADIUS};
use crate::motion::{drifted, flown, fly_rockets, move_asteroids, move_bullets};
use crate::physics::{
    asteroid_after_holes, attract_holes, attracted_all, bullet_after_holes, captured,
    drift_holes, holes_after_pass, integrate_ship, integrated, merge_holes, mergers, pull_all,
    rocket_after_holes, ship_vel_after_holes, Drive, SHIP_SPEED_CAP,
};
use crate::world::{
    diagonal, expected_new, generation_due, on_leading_edge, ring_place,
    around, asteroid_kept, bullet_kept, draw_new_count, expected_new_asteroids, hole_kept,
    is_generation_due, keep_asteroids, keep_bullets, keep_holes, keep_rockets,
    lemma_filter_idempotent, rocket_kept, screen_diagonal, spawn_offset,
};
use crate::geom::{
    add_clamped, add_sat, bounded, div_t, div_trunc, scaled, norm_sq, scale_to, sub_vec, Vec2, POS_LIMIT,
    UNIT, VEL_LIMIT,
};
use crate::progression::{
    applied, level_ups, sat_add, threshold_left, xp_left, LevelUp, Params, GROWTH_CAP, OFFER_COUNT,
};
use crate::rng::random_between;
use crate::state::{
    asteroids_ok, bullets_ok, holes_ok, rockets_ok, Input, MainState, Outcome, RocketSide,
    HOSTILE_SPEED_CAP, HOSTILE_UNIT, ROCKET_UNIT, SHIP_ROTATION_SPEED, TIME_CAP,
};
use crate::trig::{heading, heading_of, turn, wrap_deg};

verus! {

/// Half the ship's height, where shots leave its nose, in milli-pixels.
pub const SHIP_NOSE: i64 = 12_500;

/// Speed of a bullet, in milli-pixels per tick.
pub const BULLET_SPEED: i64 = 10;

/// The bullet a ship fires at time `now`: from its nose, along its heading,
/// at `BULLET_SPEED` pixels per tick.
pub open spec fn shot(ship: Ship, now: u64) -> Bullet {
    let dir = heading(ship.rot as int);
    Bullet {
        pos: add_sat(
            ship.pos,
            Vec2 {
                x: div_t(dir.x * SHIP_NOSE, UNIT as int) as i64,
                y: div_t(dir.y * SHIP_NOSE, UNIT as int) as i64,
            },
            POS_LIMIT as int,
        ),
        vel: Vec2 { x: (dir.x * BULLET_SPEED) as i64, y: (dir.y * BULLET_SPEED) as i64 },
        shot_at: now,
        collided: false,
    }
}

/// Whether the gun fires this tick: its trigger is held and it has reloaded.
pub open spec fn shoots(s: MainState, input: Input) -> bool {
    input.fire && s.game_t - s.last_bullet_shot > s.params.bullet_reload_ms
}

/// Whether a rocket leaves this tick: its trigger is held, the launcher has
/// reloaded and the stockpile is not empty.
pub open spec fn launches(s: MainState, input: Input) -> bool {
    input.fire_rocket && s.game_t - s.last_rocket_shot > s.params.rocket_reload_ms
        && s.params.rocket_stockpile > 0
}

/// What firing does: a shot when the gun fires, a rocket (alternating
/// sides, with the ship's rotation, not yet homing) when one leaves; nothing
/// else changes.
pub open spec fn fired(s0: MainState, s1: MainState, input: Input) -> bool {
    &&& s1 == MainState {
        bullets: s1.bullets,
        last_bullet_shot: s1.last_bullet_shot,
        rockets: s1.rockets,
        last_rocket_shot: s1.last_rocket_shot,
        rocket_side: s1.rocket_side,
        params: s1.params,
        ..s0
    }
    &&& s1.params == (Params { rocket_stockpile: s1.params.rocket_stockpile, ..s0.params })
    &&& if shoots(s0, input) {
        s1.bullets@ == s0.bullets@.push(shot(s0.ship, s0.game_t)) && s1.last_bullet_shot
            == s0.game_t
    } else {
        s1.bullets@ == s0.bullets@ && s1.last_bullet_shot == s0.last_bullet_shot
    }
    &&& if launches(s0, input) {
        &&& s1.rockets@.len() == s0.rockets@.len() + 1
        &&& s1.rockets@.drop_last() == s0.rockets@
        &&& s1.rockets@.last().shot_at == s0.game_t
        &&& s1.rockets@.last().rot == s0.ship.rot
        &&& !s1.rockets@.last().steer
        &&& !s1.rockets@.last().collided
        &&& s1.rocket_side != s0.rocket_side
        &&& s1.last_rocket_shot == s0.game_t
        &&& s1.params.rocket_stockpile == s0.params.rocket_stockpile - 1
    } else {
        &&& s1.rockets@ == s0.rockets@
        &&& s1.rocket_side == s0.rocket_side
        &&& s1.last_rocket_shot == s0.last_rocket_shot
        &&& s1.params.rocket_stockpile == s0.params.rocket_stockpile
    }
}

/// What passive production over `frame_ms` does: whole rockets join the
/// stockpile, the remainder stays as progress, the shields regenerate.
pub open spec fn produced(s0: MainState, s1: MainState, frame_ms: u64) -> bool {
    let p = s0.rocket_production_progress + s0.params.rocket_production * frame_ms;
    &&& s1 == MainState {
        params: s1.params,
        rocket_production_progress: s1.rocket_production_progress,
        ..s0
    }
    &&& s1.params == (Params {
        rocket_stockpile: s1.params.rocket_stockpile,
        shields: s1.params.shields,
        ..s0.params
    })
    &&& s1.params.rocket_stockpile == sat_u64(
        s0.params.rocket_stockpile + p / (ROCKET_UNIT as int),
    )
    &&& s1.rocket_production_progress == p % (ROCKET_UNIT as int)
    &&& s1.params.shields == sat_u64(s0.params.shields + s0.params.shield_regen * frame_ms)
}

/// What motion does: the ship integrates under `drive` and turns by
/// `turn_delta`; bullets and asteroids move; rockets fly, homing on the
/// asteroids as they stood.
pub open spec fn moved(s0: MainState, s1: MainState, drive: Drive, turn_delta: int) -> bool {
    &&& s1 == MainState {
        ship: s1.ship,
        bullets: s1.bullets,
        rockets: s1.rockets,
        asteroids: s1.asteroids,
        ..s0
    }
    &&& s1.ship == (Ship {
        rot: wrap_deg(s0.ship.rot + turn_delta) as u32,
        ..integrated(s0.ship, drive)
    })
    &&& s1.bullets@.len() == s0.bullets@.len()
    &&& forall|i: int|
        0 <= i < s1.bullets@.len() ==> #[trigger] s1.bullets@[i] == (Bullet {
            pos: add_sat(s0.bullets@[i].pos, s0.bullets@[i].vel, POS_LIMIT as int),
            ..s0.bullets@[i]
        })
    &&& s1.rockets@.len() == s0.rockets@.len()
    &&& forall|i: int|
        0 <= i < s1.rockets@.len() ==> #[trigger] s1.rockets@[i] == flown(
            s0.rockets@[i],
            s0.asteroids@,
            s0.game_t as int,
        )
    &&& s1.asteroids@.len() == s0.asteroids@.len()
    &&& forall|i: int|
        0 <= i < s1.asteroids@.len() ==> #[trigger] s1.asteroids@[i] == drifted(s0.asteroids@[i])
}

/// The velocity that sends a body at `from` toward `to` at `speed` (straight
/// up the screen when the two coincide).
pub open spec fn aimed_at(from: Vec2, to: Vec2, speed: int) -> Vec2 {
    let d = Vec2 { x: (to.x - from.x) as i64, y: (to.y - from.y) as i64 };
    if d == (Vec2 { x: 0, y: 0 }) {
        Vec2 { x: 0, y: (-speed) as i64 }
    } else {
        scaled(d, speed)
    }
}

/// What the black holes' pass does: the holes pull on one another, are
/// flagged where they overlap and move; then each pulls every body and the
/// ship in turn. `born` holds their mergers; `swallowed` says whether a hole
/// took the ship.
pub open spec fn holes_passed(s0: MainState, s1: MainState, born: Seq<BlackHole>, swallowed: bool) -> bool {
    let h = holes_after_pass(s0.black_holes@);
    let n = s0.black_holes@.len() as int;
    &&& s1 == MainState {
        black_holes: s1.black_holes,
        bullets: s1.bullets,
        rockets: s1.rockets,
        asteroids: s1.asteroids,
        ship: s1.ship,
        ..s0
    }
    &&& s1.black_holes@ == h
    &&& born == mergers(attracted_all(s0.black_holes@), n)
    &&& swallowed <==> exists|j: int|
        0 <= j < n && #[trigger] captured(h[j].pos, h[j].size as int, s0.ship.pos, SHIP_RADIUS as int)
    &&& s1.ship == (Ship { vel: ship_vel_after_holes(h, n, s0.ship), ..s0.ship })
    &&& s1.bullets@.len() == s0.bullets@.len()
    &&& s1.rockets@.len() == s0.rockets@.len()
    &&& s1.asteroids@.len() == s0.asteroids@.len()
    &&& forall|i: int|
        0 <= i < s1.bullets@.len() ==> #[trigger] s1.bullets@[i] == bullet_after_holes(h, n, s0.bullets@[i])
    &&& forall|i: int|
        0 <= i < s1.rockets@.len() ==> #[trigger] s1.rockets@[i] == rocket_after_holes(h, n, s0.rockets@[i])
    &&& forall|i: int|
        0 <= i < s1.asteroids@.len() ==> #[trigger] s1.asteroids@[i] == asteroid_after_holes(
            h,
            n,
            s0.asteroids@[i],
        )
}

/// An asteroid placed to fill new space after a move of `g` from `ship`.
pub open spec fn placed_ahead(g: Vec2, ship: Vec2, a: Asteroid, w: int, h: int) -> bool {
    &&& !a.collided
    &&& 3 <= a.sides < 8
    &&& exists|off: Vec2| on_leading_edge(g, off, w, h) && a.pos == #[trigger] add_sat(ship, off, POS_LIMIT as int)
}

/// `new1` is `new0` with more asteroids after it.
pub open spec fn extends<A>(new0: Seq<A>, new1: Seq<A>) -> bool {
    new1.len() >= new0.len() && new1.take(new0.len() as int) == new0
}

/// What filling new space does: once the ship is far enough from the
/// anchor, a drawn number of asteroids join `new`, placed just beyond the
/// edge ahead, and the anchor moves to the ship.
pub open spec fn generated(s0: MainState, s1: MainState, new0: Seq<Asteroid>, new1: Seq<Asteroid>, w: int, h: int) -> bool {
    let g = Vec2 {
        x: (s0.ship.pos.x - s0.last_asteroid_generate_pos.x) as i64,
        y: (s0.ship.pos.y - s0.last_asteroid_generate_pos.y) as i64,
    };
    &&& s1 == MainState {
        last_asteroid_generate_pos: s1.last_asteroid_generate_pos,
        generated_asteroids: s1.generated_asteroids,
        ..s0
    }
    &&& extends(new0, new1)
    &&& if generation_due(s0.last_asteroid_generate_pos, s0.ship.pos) {
        let e = expected_new(g, w, h);
        &&& s1.last_asteroid_generate_pos == s0.ship.pos
        &&& 8 * e / 10000 <= new1.len() - new0.len() < 2 + 12 * e / 10000
        &&& forall|k: int| new0.len() <= k < new1.len() ==> placed_ahead(g, s0.ship.pos, #[trigger] new1[k], w, h)
    } else {
        s1 == s0 && new1 == new0
    }
}

/// A hostile asteroid: between one and two screen diagonals from the ship,
/// flying straight at it at a speed from one pixel per tick up to `max_speed`.
pub open spec fn hostile(ship: Vec2, a: Asteroid, max_speed: int, w: int, h: int) -> bool {
    &&& !a.collided
    &&& ring_place(ship, a.pos, diagonal(w, h), 2 * diagonal(w, h))
    &&& exists|speed: int|
        (UNIT < max_speed ==> UNIT <= speed < max_speed) && (UNIT >= max_speed ==> speed == UNIT)
            && a.vel == #[trigger] aimed_at(a.pos, ship, speed)
}

/// What hostile spawning over `frame_ms` does: the charge grows by the rate,
/// and each whole unit of it becomes a hostile asteroid in `new`.
pub open spec fn spawned(s0: MainState, s1: MainState, new0: Seq<Asteroid>, new1: Seq<Asteroid>, frame_ms: int, w: int, h: int) -> bool {
    let c = sat_u64(s0.new_hostile_asteroids + s0.hostile_asteroids_rate * frame_ms) as int;
    &&& s1 == MainState { new_hostile_asteroids: s1.new_hostile_asteroids, ..s0 }
    &&& s1.new_hostile_asteroids == c % (HOSTILE_UNIT as int)
    &&& extends(new0, new1)
    &&& new1.len() == new0.len() + c / (HOSTILE_UNIT as int)
    &&& forall|k: int|
        new0.len() <= k < new1.len() ==> hostile(
            s0.ship.pos,
            #[trigger] new1[k],
            s0.max_hostile_asteroid_speed as int,
            w,
            h,
        )
}

/// What the end-of-tick cleanup does to the pools.
pub open spec fn cleaned(s0: MainState, s1: MainState, new_asteroids: Seq<Asteroid>, new_holes: Seq<BlackHole>, w: int, h: int) -> bool {
    &&& s1 == MainState {
        bullets: s1.bullets,
        rockets: s1.rockets,
        asteroids: s1.asteroids,
        black_holes: s1.black_holes,
        ..s0
    }
    &&& s1.bullets@ == s0.bullets@.filter(|b: Bullet| bullet_kept(b, s0.game_t as int))
    &&& s1.rockets@ == s0.rockets@.filter(|r: Rocket| rocket_kept(r, s0.game_t as int))
    &&& s1.asteroids@ == s0.asteroids@.filter(|a: Asteroid| asteroid_kept(a, s0.ship.pos, w, h))
        + new_asteroids
    &&& s1.black_holes@ == s0.black_holes@.filter(|b: BlackHole| hole_kept(b, s0.ship.pos, w, h))
        + new_holes
}

/// A black hole spawned around the ship: two fifths of a screen diagonal to
/// two diagonals away, 5 to 20 pixels in radius, flying at one to three
/// pixels per tick toward a point within half a screen of the ship.
pub open spec fn spawned_hole(ship: Vec2, b: BlackHole, w: int, h: int) -> bool {
    &&& !b.collided
    &&& 5000 <= b.size < 20_000
    &&& ring_place(ship, b.pos, diagonal(w, h) * 2 / 5, 2 * diagonal(w, h))
    &&& exists|jx: int, jy: int, speed: int|
        -(w / 2) <= jx <= w / 2 && -(h / 2) <= jy <= h / 2 && UNIT <= speed < 3 * UNIT && b.vel
            == #[trigger] aimed_at(
            b.pos,
            add_sat(ship, Vec2 { x: (jx * 1000) as i64, y: (jy * 1000) as i64 }, POS_LIMIT as int),
            speed,
        )
}

/// What topping up the holes does: new holes join until there is one for
/// every ten levels, rounded to the nearest.
pub open spec fn topped_up(s0: MainState, s1: MainState, w: int, h: int) -> bool {
    let target = (s0.progress.level + 5) / 10;
    &&& s1 == MainState { black_holes: s1.black_holes, ..s0 }
    &&& extends(s0.black_holes@, s1.black_holes@)
    &&& s1.black_holes@.len() == if s0.black_holes@.len() < target { target } else { s0.black_holes@.len() as int }
    &&& forall|k: int|
        s0.black_holes@.len() <= k < s1.black_holes@.len() ==> spawned_hole(
            s0.ship.pos,
            #[trigger] s1.black_holes@[k],
            w,
            h,
        )
}

/// What taking levels does after `kills` more experience.
pub open spec fn levelled(s0: MainState, s1: MainState, kills: u64) -> bool {
    let x = sat_u64(s0.progress.xp + kills) as int;
    let t = s0.progress.next_level_xp as int;
    let gained = level_ups(x, t);
    &&& s1 == MainState {
        progress: s1.progress,
        hostile_asteroids_rate: s1.hostile_asteroids_rate,
        max_hostile_asteroid_speed: s1.max_hostile_asteroid_speed,
        level_up: s1.level_up,
        ..s0
    }
    &&& s1.progress.level == sat_add(s0.progress.level as int, gained as int)
    &&& s1.progress.xp == xp_left(x, t)
    &&& s1.progress.next_level_xp == threshold_left(x, t)
    &&& s1.hostile_asteroids_rate == grown(s0.hostile_asteroids_rate as int, 6, 5, GROWTH_CAP as int, gained)
    &&& s1.max_hostile_asteroid_speed == grown(
        s0.max_hostile_asteroid_speed as int,
        27,
        25,
        HOSTILE_SPEED_CAP as int,
        gained,
    )
    &&& s1.level_up.is_some() <==> gained > 0 && s0.available_upgrades@.len() > 0
    &&& s1.level_up matches Some(l) ==> {
        &&& l.selected == 0
        &&& l.upgrade_choices@.len() == if OFFER_COUNT < s0.available_upgrades@.len() {
            OFFER_COUNT as int
        } else {
            s0.available_upgrades@.len() as int
        }
        &&& l.upgrade_choices@.no_duplicates()
        &&& forall|k: int|
            0 <= k < l.upgrade_choices@.len() ==> (#[trigger] l.upgrade_choices@[k])
                < s0.available_upgrades@.len()
    }
}

/// What handling a pending prompt does: confirming takes the selected
/// upgrade (dropping it from the pool when it reports itself spent) and
/// closes the prompt; otherwise only the cursor moves, wrapping around.
pub open spec fn prompt_handled(s0: MainState, s1: MainState, input: Input) -> bool {
    let lu = s0.level_up.unwrap();
    let n = lu.upgrade_choices@.len() as int;
    if input.confirm {
        let idx = lu.upgrade_choices@[lu.selected as int] as int;
        let (u, p, keep) = applied(s0.available_upgrades@[idx], s0.params);
        &&& s1 == MainState {
            level_up: None,
            params: p,
            available_upgrades: s1.available_upgrades,
            ..s0
        }
        &&& s1.available_upgrades@ == if keep {
            s0.available_upgrades@.update(idx, u)
        } else {
            s0.available_upgrades@.remove(idx)
        }
    } else {
        &&& s1 == MainState { level_up: s1.level_up, ..s0 }
        &&& s1.level_up.is_some()
        &&& s1.level_up.unwrap().upgrade_choices == lu.upgrade_choices
        &&& s1.level_up.unwrap().selected == if input.menu_down {
            (lu.selected + 1) % n
        } else if input.menu_up {
            (lu.selected + n - 1) % n
        } else {
            lu.selected as int
        }
    }
}

/// Whether a tick runs the simulation: no prompt is pending and the game is
/// not paused once this tick's pause key is taken into account.
pub open spec fn tick_goes_on(s: MainState, input: Input) -> bool {
    s.level_up.is_none() && s.paused == input.pause
}

/// The engine setting that the input asks for.
pub open spec fn drive_of(s: MainState, input: Input) -> Drive {
    if input.thrust {
        Drive::Thrust
    } else if input.brake && s.params.has_brakes {
        Drive::Brake
    } else {
        Drive::Coast
    }
}

/// The ship's turn that the input asks for, in degrees.
pub open spec fn turn_of(input: Input) -> int {
    if input.turn_right {
        SHIP_ROTATION_SPEED as int
    } else if input.turn_left {
        -SHIP_ROTATION_SPEED
    } else {
        0
    }
}

/// The clock after a frame of `frame_ms` milliseconds.
pub open spec fn clocked(s0: MainState, s1: MainState, frame_ms: u64) -> bool {
    s1 == MainState {
        paused: false,
        game_t: if s0.game_t + frame_ms > TIME_CAP { TIME_CAP } else { (s0.game_t + frame_ms) as u64 },
        ..s0
    }
}

/// What the collision pass does to the state when it does not end the
/// session.
pub open spec fn collided(s0: MainState, s1: MainState, kills: u64, frags: Seq<Asteroid>) -> bool {
    &&& s1 == MainState {
        asteroids: s1.asteroids,
        bullets: s1.bullets,
        rockets: s1.rockets,
        ship: s1.ship,
        params: s1.params,
        invulnerable_until: s1.invulnerable_until,
        colliding: s1.colliding,
        ..s0
    }
    &&& s1.params == (Params { shields: s1.params.shields, ..s0.params })
    &&& contact_result(
        s0.asteroids@,
        s0.bullets@,
        s0.rockets@,
        s0.ship,
        s0.params.shields,
        s0.invulnerable_until,
        s0.colliding,
        s0.game_t,
        s0.asteroid_shapes@.len(),
        s1.asteroids@,
        s1.bullets@,
        s1.rockets@,
        s1.ship,
        s1.params.shields,
        s1.invulnerable_until,
        s1.colliding,
        kills,
        frags,
    )
}

/// Whether the collision pass on `s` ends the session: the ship's first
/// contact of the tick, not continuing one from the tick before, finds no
/// shield unit and no invulnerability.
pub open spec fn fatal(s: MainState) -> bool {
    fatal_contact(s.asteroids@, s.ship, s.params.shields, s.invulnerable_until, s.colliding, s.game_t)
}

/// What the rest of a tick does once the bodies have moved (`s4`), up to
/// the final state `s9` and the outcome: the collision pass (which may end
/// the session), the black holes (which may swallow the ship), new space,
/// hostile asteroids, cleanup, new holes and levels.
pub open spec fn rest_of_tick(s4: MainState, s9: MainState, frame_ms: u64, w: int, h: int, out: Outcome) -> bool {
    if fatal(s4) {
        out == Outcome::Lost
    } else {
        exists|s5: MainState, kills: u64, frags: Seq<Asteroid>|
            #[trigger] collided(s4, s5, kills, frags) && exists|s6: MainState, born: Seq<BlackHole>, sw: bool|
                #[trigger] holes_passed(s5, s6, born, sw) && if sw {
                    out == Outcome::Lost
                } else {
                    &&& out == Outcome::Running
                    &&& exists|s7: MainState, n1: Seq<Asteroid>|
                        #[trigger] generated(s6, s7, frags, n1, w, h) && exists|s8: MainState, n2: Seq<Asteroid>|
                            #[trigger] spawned(s7, s8, n1, n2, frame_ms as int, w, h) && exists|s9a: MainState|
                                #[trigger] cleaned(s8, s9a, n2, born, w, h) && exists|s10: MainState|
                                    #[trigger] topped_up(s9a, s10, w, h) && levelled(s10, s9, kills)
                }
    }
}

/// A whole running tick from `s0` to `s9`: the clock advances, the ship
/// fires, production runs, every body moves, then the rest of the tick.
pub open spec fn ran_tick(s0: MainState, s9: MainState, input: Input, frame_ms: u64, w: int, h: int, out: Outcome) -> bool {
    exists|s1: MainState, s2: MainState, s3: MainState, s4: MainState|
        #[trigger] clocked(s0, s1, frame_ms) && #[trigger] fired(s1, s2, input) && #[trigger] produced(s2, s3, frame_ms)
            && #[trigger] moved(s3, s4, drive_of(s0, input), turn_of(input)) && rest_of_tick(s4, s9, frame_ms, w, h, out)
}

pub open spec fn sat_u64(a: int) -> u64 {
    if a > u64::MAX { u64::MAX } else { a as u64 }
}

/// Cleaning up a second time with nothing new to add, and no tick in
/// between (same clock, same ship position, same screen), removes nothing
/// more from any pool.
pub proof fn lemma_cleanup_twice(
    bullets: Seq<Bullet>,
    rockets: Seq<Rocket>,
    asteroids: Seq<Asteroid>,
    holes: Seq<BlackHole>,
    now: int,
    ship: Vec2,
    w: int,
    h: int,
)
    ensures
        bullets.filter(|b: Bullet| bullet_kept(b, now)).filter(|b: Bullet| bullet_kept(b, now))
            == bullets.filter(|b: Bullet| bullet_kept(b, now)),
        rockets.filter(|r: Rocket| rocket_kept(r, now)).filter(|r: Rocket| rocket_kept(r, now))
            == rockets.filter(|r: Rocket| rocket_kept(r, now)),
        asteroids.filter(|a: Asteroid| asteroid_kept(a, ship, w, h)).filter(
            |a: Asteroid| asteroid_kept(a, ship, w, h),
        ) == asteroids.filter(|a: Asteroid| asteroid_kept(a, ship, w, h)),
        holes.filter(|b: BlackHole| hole_kept(b, ship, w, h)).filter(
            |b: BlackHole| hole_kept(b, ship, w, h),
        ) == holes.filter(|b: BlackHole| hole_kept(b, ship, w, h)),
{
    lemma_filter_idempotent(bullets, |b: Bullet| bullet_kept(b, now));
    lemma_filter_idempotent(rockets, |r: Rocket| rocket_kept(r, now));
    lemma_filter_idempotent(asteroids, |a: Asteroid| asteroid_kept(a, ship, w, h));
    lemma_filter_idempotent(holes, |b: BlackHole| hole_kept(b, ship, w, h));
}

/// `x` after `levels` steps that each multiply it by `num / den`
/// (rounded down) and hold it at `cap`.
pub open spec fn grown(x: int, num: int, den: int, cap: int, levels: nat) -> int
    decreases levels,
{
    if levels == 0 {
        x
    } else {
        let y = grown(x, num, den, cap, (levels - 1) as nat);
        if y * num / den > cap { cap } else { y * num / den }
    }
}

/// Hostile asteroids come a fifth more often and up to 8% faster for each
/// of `levels` levels, each up to its cap.
pub fn grow_hostility(rate: &mut u64, speed: &mut i64, levels: u64)
    requires
        *old(rate) <= GROWTH_CAP,
        UNIT <= *old(speed) <= HOSTILE_SPEED_CAP,
    ensures
        *final(rate) == grown(*old(rate) as int, 6, 5, GROWTH_CAP as int, levels as nat),
        *final(speed) == grown(*old(speed) as int, 27, 25, HOSTILE_SPEED_CAP as int, levels as nat),
        *final(rate) <= GROWTH_CAP,
        UNIT <= *final(speed) <= HOSTILE_SPEED_CAP,
{
    let mut k: u64 = 0;
    while k < levels
        invariant
            k <= levels,
            *rate == grown(*old(rate) as int, 6, 5, GROWTH_CAP as int, k as nat),
            *speed == grown(*old(speed) as int, 27, 25, HOSTILE_SPEED_CAP as int, k as nat),
            *old(rate) <= *rate <= GROWTH_CAP,
            *old(speed) <= *speed <= HOSTILE_SPEED_CAP,
            UNIT <= *old(speed),
        decreases levels - k,
    {
        let x = *rate;
        let r = x / 5 * 6 + x % 5 * 6 / 5;
        assert(r == x * 6 / 5) by (nonlinear_arith)
            requires
                r == x / 5 * 6 + x % 5 * 6 / 5,
                x >= 0,
        ;
        *rate = if r > GROWTH_CAP { GROWTH_CAP } else { r };
        let v = *speed;
        let q = v / 25 * 27 + v % 25 * 27 / 25;
        assert(q == v * 27 / 25 && q >= v) by (nonlinear_arith)
            requires
                q == v / 25 * 27 + v % 25 * 27 / 25,
                v >= 0,
        ;
        *speed = if q > HOSTILE_SPEED_CAP { HOSTILE_SPEED_CAP } else { q };
        k += 1;
    }
}

impl MainState {
    /// Handles a pending level-up prompt. Confirming takes the selected
    /// upgrade (dropping it from the pool when it reports itself spent) and
    /// closes the prompt; otherwise the cursor moves. Returns whether no
    /// prompt is left pending.
    pub fn handle_prompt(&mut self, input: &Input) -> (go_on: bool)
        requires
            old(self).wf(),
        ensures
            old(self).level_up.is_some() ==> prompt_handled(*old(self), *final(self), *input),
            final(self).wf(),
            go_on ==> final(self).level_up.is_none(),
            final(self).asteroid_shapes == old(self).asteroid_shapes,
            final(self).colliding == old(self).colliding,
            final(self).level_up.is_none() ==> go_on,
            old(self).level_up.is_none() ==> go_on && final(self).available_upgrades
                == old(self).available_upgrades && final(self).params == old(self).params,
            old(self).level_up.is_some() ==> (go_on <==> input.confirm),
            old(self).level_up.is_some() && input.confirm ==> final(self).level_up.is_none() && {
                let lu = old(self).level_up.unwrap();
                let idx = lu.upgrade_choices@[lu.selected as int] as int;
                let (u, p, keep) = applied(old(self).available_upgrades@[idx], old(self).params);
                &&& final(self).params == p
                &&& final(self).available_upgrades@ == if keep {
                    old(self).available_upgrades@.update(idx, u)
                } else {
                    old(self).available_upgrades@.remove(idx)
                }
            },
            old(self).level_up.is_some() && !input.confirm ==> {
                let lu = old(self).level_up.unwrap();
                let n = lu.upgrade_choices@.len() as int;
                &&& final(self).level_up.unwrap().upgrade_choices == lu.upgrade_choices
                &&& final(self).level_up.unwrap().selected == if input.menu_down {
                    (lu.selected + 1) % n
                } else if input.menu_up {
                    (lu.selected + n - 1) % n
                } else {
                    lu.selected as int
                }
            },
            old(self).level_up.is_some() && !input.confirm ==> final(self).level_up.is_some()
                && final(self).params == old(self).params && final(self).available_upgrades
                == old(self).available_upgrades,
            final(self).ship == old(self).ship,
            final(self).game_t == old(self).game_t,
            final(self).bullets == old(self).bullets,
            final(self).rockets == old(self).rockets,
            final(self).asteroids == old(self).asteroids,
            final(self).black_holes == old(self).black_holes,
            final(self).progress == old(self).progress,
            final(self).paused == old(self).paused,
    {
        let pending = self.level_up.take();
        match pending {
            None => true,
            Some(mut lu) => {
                if input.confirm {
                    let idx = lu.upgrade_choices[lu.selected];
                    let mut u = self.available_upgrades[idx];
                    let keep = u.apply(&mut self.params);
                    if keep {
                        self.available_upgrades.set(idx, u);
                    } else {
                        self.available_upgrades.remove(idx);
                    }
                    true
                } else {
                    lu.navigate(input.menu_up, input.menu_down);
                    self.level_up = Some(lu);
                    false
                }
            },
        }
    }

    /// Fires a bullet when the trigger is held and the gun has reloaded, and
    /// a rocket, alternating sides, when its trigger is held, the launcher has
    /// reloaded and the stockpile is not empty.
    pub fn fire_weapons(&mut self, input: &Input)
        requires
            old(self).wf(),
        ensures
            final(self).wf(),
            fired(*old(self), *final(self), *input),
    {
        let now = self.game_t;
        let dir = heading_of(self.ship.rot);
        if input.fire && now - self.last_bullet_shot > self.params.bullet_reload_ms {
            let nose = Vec2 {
                x: div_trunc(dir.x as i128 * SHIP_NOSE as i128, UNIT as i128) as i64,
                y: div_trunc(dir.y as i128 * SHIP_NOSE as i128, UNIT as i128) as i64,
            };
            let b = Bullet {
                pos: add_clamped(self.ship.pos, nose, POS_LIMIT),
                vel: Vec2 { x: dir.x * BULLET_SPEED, y: dir.y * BULLET_SPEED },
                shot_at: now,
                collided: false,
            };
            self.bullets.push(b);
            self.last_bullet_shot = now;
            assert(bullets_ok(self.bullets@, self.game_t)) by {
                assert(forall|i: int| 0 <= i < self.bullets@.len() - 1 ==> #[trigger] self.bullets@[i] == old(self).bullets@[i]);
            }
        }
        if input.fire_rocket && now - self.last_rocket_shot > self.params.rocket_reload_ms
            && self.params.rocket_stockpile > 0 {
            self.params.rocket_stockpile = self.params.rocket_stockpile - 1;
            let off = random_between(90, 126);
            let delta = match self.rocket_side {
                RocketSide::Left => -off,
                RocketSide::Right => off,
            };
            let side = heading_of(turn(self.ship.rot, delta));
            self.rocket_side = self.rocket_side.switch();
            let kick = random_between(700, 1200);
            assert(-1200 * 1000 <= side.x * kick <= 1200 * 1000 && -1200 * 1000 <= side.y * kick
                <= 1200 * 1000) by (nonlinear_arith)
                requires
                    -1000 <= side.x <= 1000,
                    -1000 <= side.y <= 1000,
                    700 <= kick < 1200,
            ;
            let nose = Vec2 { x: side.x * SHIP_NOSE / UNIT, y: side.y * SHIP_NOSE / UNIT };
            let v = self.ship.vel;
            let r = Rocket {
                pos: add_clamped(self.ship.pos, nose, POS_LIMIT),
                vel: add_clamped(
                    Vec2 {
                        x: div_trunc(v.x as i128 * 9, 10) as i64,
                        y: div_trunc(v.y as i128 * 9, 10) as i64,
                    },
                    Vec2 { x: side.x * kick / UNIT, y: side.y * kick / UNIT },
                    VEL_LIMIT,
                ),
                rot: self.ship.rot,
                collided: false,
                shot_at: now,
                steer: false,
            };
            self.rockets.push(r);
            self.last_rocket_shot = now;
            assert(self.rockets@.drop_last() =~= old(self).rockets@);
            assert(rockets_ok(self.rockets@, self.game_t)) by {
                assert(forall|i: int| 0 <= i < self.rockets@.len() - 1 ==> #[trigger] self.rockets@[i] == old(self).rockets@[i]);
            }
        }
    }

    /// Passive production over `frame_ms` milliseconds: rocket production
    /// progresses and every whole rocket joins the stockpile; the shields
    /// regenerate.
    pub fn produce(&mut self, frame_ms: u64)
        requires
            old(self).wf(),
        ensures
            final(self).wf(),
            produced(*old(self), *final(self), frame_ms),
    {
        let (a, b) = (self.params.rocket_production as u128, frame_ms as u128);
        assert(a * b <= 0xffff_ffff_ffff_ffff * 0xffff_ffff_ffff_ffff) by (nonlinear_arith)
            requires
                a <= 0xffff_ffff_ffff_ffff,
                b <= 0xffff_ffff_ffff_ffff,
        ;
        let p = self.rocket_production_progress as u128 + a * b;
        let whole = p / ROCKET_UNIT as u128;
        let rest = p % ROCKET_UNIT as u128;
        assert(whole <= p);
        let stock = self.params.rocket_stockpile as u128 + whole;
        if stock > u64::MAX as u128 {
            self.params.rocket_stockpile = u64::MAX;
        } else {
            self.params.rocket_stockpile = stock as u64;
        }
        self.rocket_production_progress = rest as u64;
        let c = self.params.shield_regen as u128;
        assert(c * b <= 0xffff_ffff_ffff_ffff * 0xffff_ffff_ffff_ffff) by (nonlinear_arith)
            requires
                c <= 0xffff_ffff_ffff_ffff,
                b <= 0xffff_ffff_ffff_ffff,
        ;
        let s = self.params.shields as u128 + c * b;
        self.params.shields = if s > u64::MAX as u128 { u64::MAX } else { s as u64 };
    }

    /// Moves every body by one tick: the ship under `drive` (then turned by
    /// `turn_delta` degrees), bullets, rockets (homing on the asteroids as
    /// they stand), and asteroids.
    pub fn move_bodies(&mut self, drive: Drive, turn_delta: i64)
        requires
            old(self).wf(),
            -360 <= turn_delta <= 360,
        ensures
            final(self).wf(),
            moved(*old(self), *final(self), drive, turn_delta as int),
            norm_sq(final(self).ship.vel) <= SHIP_SPEED_CAP * SHIP_SPEED_CAP,
    {
        integrate_ship(&mut self.ship, drive);
        self.ship.rot = turn(self.ship.rot, turn_delta);
        move_bullets(&mut self.bullets);
        let n = self.asteroid_shapes.len();
        fly_rockets(&mut self.rockets, &self.asteroids, n, self.game_t);
        move_asteroids(&mut self.asteroids, n);
        proof {
            assert(bullets_ok(self.bullets@, self.game_t));
        }
    }

    /// The black holes' pass: they pull on one another and merge where they
    /// overlap, move, then pull every bullet, rocket, asteroid and the ship,
    /// swallowing what comes inside them. Returns the holes born of mergers,
    /// and whether the ship was swallowed.
    pub fn black_hole_pass(&mut self) -> (r: (Vec<BlackHole>, bool))
        requires
            old(self).wf(),
        ensures
            holes_passed(*old(self), *final(self), r.0@, r.1),
            final(self).wf(),
            final(self).paused == old(self).paused,
            final(self).asteroid_shapes == old(self).asteroid_shapes,
            final(self).colliding == old(self).colliding,
            holes_ok(r.0@),
            final(self).game_t == old(self).game_t,
            final(self).progress == old(self).progress,
            final(self).level_up == old(self).level_up,
            final(self).ship.pos == old(self).ship.pos,
            final(self).ship.rot == old(self).ship.rot,
            final(self).black_holes@ == holes_after_pass(old(self).black_holes@),
            r.0@ == mergers(
                attracted_all(old(self).black_holes@),
                old(self).black_holes@.len() as int,
            ),
            r.1 <==> exists|j: int|
                0 <= j < old(self).black_holes@.len() && #[trigger] captured(
                    holes_after_pass(old(self).black_holes@)[j].pos,
                    holes_after_pass(old(self).black_holes@)[j].size as int,
                    old(self).ship.pos,
                    SHIP_RADIUS as int,
                ),
            final(self).ship.vel == ship_vel_after_holes(
                holes_after_pass(old(self).black_holes@),
                old(self).black_holes@.len() as int,
                old(self).ship,
            ),
            final(self).bullets@.len() == old(self).bullets@.len(),
            final(self).rockets@.len() == old(self).rockets@.len(),
            final(self).asteroids@.len() == old(self).asteroids@.len(),
            forall|i: int|
                0 <= i < final(self).bullets@.len() ==> #[trigger] final(self).bullets@[i]
                    == bullet_after_holes(
                    holes_after_pass(old(self).black_holes@),
                    old(self).black_holes@.len() as int,
                    old(self).bullets@[i],
                ),
            forall|i: int|
                0 <= i < final(self).rockets@.len() ==> #[trigger] final(self).rockets@[i]
                    == rocket_after_holes(
                    holes_after_pass(old(self).black_holes@),
                    old(self).black_holes@.len() as int,
                    old(self).rockets@[i],
                ),
            forall|i: int|
                0 <= i < final(self).asteroids@.len() ==> #[trigger] final(self).asteroids@[i]
                    == asteroid_after_holes(
                    holes_after_pass(old(self).black_holes@),
                    old(self).black_holes@.len() as int,
                    old(self).asteroids@[i],
                ),
            old(self).black_holes@.len() == 0 ==> r.0@.len() == 0 && !r.1 && final(self).ship
                == old(self).ship && final(self).bullets@ == old(self).bullets@
                && final(self).rockets@ == old(self).rockets@ && final(self).asteroids@
                == old(self).asteroids@,
    {
        let ghost h0 = self.black_holes@;
        attract_holes(&mut self.black_holes);
        assert(self.black_holes@ =~= attracted_all(h0));
        let born = merge_holes(&mut self.black_holes);
        drift_holes(&mut self.black_holes);
        assert(self.black_holes@ =~= holes_after_pass(h0));
        let n = self.asteroid_shapes.len();
        let swallowed = pull_all(
            &self.black_holes,
            &mut self.bullets,
            &mut self.rockets,
            &mut self.asteroids,
            &mut self.ship,
            n,
        );
        (born, swallowed)
    }

    /// Fills newly uncovered space with asteroids once the ship has moved
    /// far enough from the last anchor, and moves the anchor to the ship.
    pub fn generate_asteroids(&mut self, new: &mut Vec<Asteroid>, w: u32, h: u32)
        requires
            old(self).wf(),
            asteroids_ok(old(new)@, old(self).asteroid_shapes@.len()),
            0 < w <= SCREEN_LIMIT,
            0 < h <= SCREEN_LIMIT,
        ensures
            final(self).wf(),
            asteroids_ok(final(new)@, final(self).asteroid_shapes@.len()),
            generated(*old(self), *final(self), old(new)@, final(new)@, w as int, h as int),
    {
        assert(old(new)@.take(old(new)@.len() as int) =~= old(new)@);
        if is_generation_due(self.last_asteroid_generate_pos, self.ship.pos) {
            let g = sub_vec(self.ship.pos, self.last_asteroid_generate_pos);
            let e = expected_new_asteroids(g, w, h);
            let count = draw_new_count(e);
            let n = self.asteroid_shapes.len();
            let mut k: i64 = 0;
            assert(old(new)@.take(old(new)@.len() as int) =~= old(new)@);
            while k < count
                invariant
                    *self == (MainState { generated_asteroids: self.generated_asteroids, ..*old(self) }),
                    extends(old(new)@, new@),
                    g == (Vec2 {
                        x: (old(self).ship.pos.x - old(self).last_asteroid_generate_pos.x) as i64,
                        y: (old(self).ship.pos.y - old(self).last_asteroid_generate_pos.y) as i64,
                    }),
                    forall|j: int|
                        old(new)@.len() <= j < new@.len() ==> placed_ahead(
                            g,
                            old(self).ship.pos,
                            #[trigger] new@[j],
                            w as int,
                            h as int,
                        ),
                    0 < w <= SCREEN_LIMIT,
                    0 < h <= SCREEN_LIMIT,
                    bounded(g, 2 * POS_LIMIT),
                    self.ship.wf(),
                    n == self.asteroid_shapes@.len(),
                    0 < n,
                    asteroids_ok(new@, n as nat),
                    new@.len() >= old(new)@.len(),
                    self.ship == old(self).ship,
                    self.game_t == old(self).game_t,
                    self.bullets == old(self).bullets,
                    self.rockets == old(self).rockets,
                    self.asteroids == old(self).asteroids,
                    self.black_holes == old(self).black_holes,
                    self.progress == old(self).progress,
                    self.level_up == old(self).level_up,
                    self.paused == old(self).paused,
                    self.last_asteroid_generate_pos == old(self).last_asteroid_generate_pos,
                    self.last_bullet_shot == old(self).last_bullet_shot,
                    self.last_rocket_shot == old(self).last_rocket_shot,
                    self.max_hostile_asteroid_speed == old(self).max_hostile_asteroid_speed,
                    self.hostile_asteroids_rate == old(self).hostile_asteroids_rate,
                    self.available_upgrades == old(self).available_upgrades,
                    self.asteroid_shapes == old(self).asteroid_shapes,
                    0 <= k,
                    count >= 0 ==> k <= count,
                    count < 0 ==> k == 0,
                    new@.len() == old(new)@.len() + k,
                decreases count - k,
            {
                let off = spawn_offset(g, w, h);
                let pos = add_clamped(self.ship.pos, off, POS_LIMIT);
                let fresh = Asteroid::new(pos, n, w, h);
                let ghost before = new@;
                new.push(fresh);
                proof {
                    assert(new@.take(old(new)@.len() as int) =~= before.take(old(new)@.len() as int));
                    assert(new@[new@.len() - 1] == fresh);
                    assert(placed_ahead(g, old(self).ship.pos, fresh, w as int, h as int));
                }
                self.generated_asteroids = if self.generated_asteroids < u64::MAX {
                    self.generated_asteroids + 1
                } else {
                    u64::MAX
                };
                k += 1;
            }
            self.last_asteroid_generate_pos = self.ship.pos;
        }
    }

    /// Accumulates hostile-spawn charge over `frame_ms` milliseconds and, for
    /// each whole unit of it, launches an asteroid from beyond the screen
    /// straight at the ship, at a random speed up to the current cap.
    pub fn spawn_hostiles(&mut self, new: &mut Vec<Asteroid>, frame_ms: u64, w: u32, h: u32)
        requires
            old(self).wf(),
            asteroids_ok(old(new)@, old(self).asteroid_shapes@.len()),
            0 < w <= SCREEN_LIMIT,
            0 < h <= SCREEN_LIMIT,
        ensures
            final(self).wf(),
            asteroids_ok(final(new)@, final(self).asteroid_shapes@.len()),
            spawned(*old(self), *final(self), old(new)@, final(new)@, frame_ms as int, w as int, h as int),
    {
        let (a, b) = (self.hostile_asteroids_rate as u128, frame_ms as u128);
        assert(a * b <= 0x10_0000_0000_0000 * 0xffff_ffff_ffff_ffff) by (nonlinear_arith)
            requires
                a <= 0x10_0000_0000_0000,
                b <= 0xffff_ffff_ffff_ffff,
        ;
        let c = self.new_hostile_asteroids as u128 + a * b;
        self.new_hostile_asteroids = if c > u64::MAX as u128 { u64::MAX } else { c as u64 };
        let diag = screen_diagonal(w, h);
        let n = self.asteroid_shapes.len();
        let ghost c0 = self.new_hostile_asteroids as int;
        let ghost made: int = 0;
        assert(old(new)@.take(old(new)@.len() as int) =~= old(new)@);
        while self.new_hostile_asteroids >= HOSTILE_UNIT
            invariant
                c0 == self.new_hostile_asteroids + made * HOSTILE_UNIT,
                new@.len() == old(new)@.len() + made,
                made >= 0,
                *self == (MainState { new_hostile_asteroids: self.new_hostile_asteroids, ..*old(self) }),
                extends(old(new)@, new@),
                diag == diagonal(w as int, h as int),
                forall|k: int|
                    old(new)@.len() <= k < new@.len() ==> hostile(
                        old(self).ship.pos,
                        #[trigger] new@[k],
                        old(self).max_hostile_asteroid_speed as int,
                        w as int,
                        h as int,
                    ),
                0 < w <= SCREEN_LIMIT,
                0 < h <= SCREEN_LIMIT,
                0 < diag <= 2 * SCREEN_LIMIT,
                self.ship.wf(),
                n == self.asteroid_shapes@.len(),
                0 < n,
                asteroids_ok(new@, n as nat),
                new@.len() >= old(new)@.len(),
                UNIT <= self.max_hostile_asteroid_speed <= HOSTILE_SPEED_CAP,
                self.ship == old(self).ship,
                self.game_t == old(self).game_t,
                self.bullets == old(self).bullets,
                self.rockets == old(self).rockets,
                self.asteroids == old(self).asteroids,
                self.black_holes == old(self).black_holes,
                self.progress == old(self).progress,
                self.level_up == old(self).level_up,
                self.paused == old(self).paused,
                self.last_asteroid_generate_pos == old(self).last_asteroid_generate_pos,
                self.last_bullet_shot == old(self).last_bullet_shot,
                self.last_rocket_shot == old(self).last_rocket_shot,
                self.max_hostile_asteroid_speed == old(self).max_hostile_asteroid_speed,
                self.hostile_asteroids_rate == old(self).hostile_asteroids_rate,
                self.available_upgrades == old(self).available_upgrades,
                self.asteroid_shapes == old(self).asteroid_shapes,
            decreases self.new_hostile_asteroids,
        {
            self.new_hostile_asteroids = self.new_hostile_asteroids - HOSTILE_UNIT;
            let pos = around(self.ship.pos, diag, 2 * diag);
            let mut a = Asteroid::new(pos, n, w, h);
            let speed = random_between(UNIT, self.max_hostile_asteroid_speed);
            a.vel = scale_to(sub_vec(self.ship.pos, pos), speed);
            assert(a.vel == aimed_at(pos, self.ship.pos, speed as int));
            let ghost before = new@;
            new.push(a);
            proof {
                made = made + 1;
                assert(new@.take(old(new)@.len() as int) =~= before.take(old(new)@.len() as int));
                assert(new@[new@.len() - 1] == a);
                assert(a.pos == pos);
                assert(ring_place(old(self).ship.pos, a.pos, diag as int, 2 * diag as int));
                assert(UNIT < old(self).max_hostile_asteroid_speed ==> UNIT <= speed < old(self).max_hostile_asteroid_speed);
                assert(a.vel == aimed_at(a.pos, old(self).ship.pos, speed as int));
                assert(hostile(old(self).ship.pos, a, old(self).max_hostile_asteroid_speed as int, w as int, h as int));
            }
        }
        proof {
            let ch = self.new_hostile_asteroids as int;
            assert(c0 / (HOSTILE_UNIT as int) == made && c0 % (HOSTILE_UNIT as int) == ch)
                by (nonlinear_arith)
                requires
                    c0 == ch + made * 60_000_000,
                    0 <= ch < 60_000_000,
                    made >= 0,
                    HOSTILE_UNIT == 60_000_000,
            ;
        }
    }

    /// End-of-tick cleanup: expired or flagged bullets and rockets go,
    /// flagged asteroids and holes go and so do those beyond the world's
    /// reach; the new asteroids and holes join their pools.
    pub fn cleanup(&mut self, new_asteroids: Vec<Asteroid>, new_holes: Vec<BlackHole>, w: u32, h: u32)
        requires
            old(self).wf(),
            asteroids_ok(new_asteroids@, old(self).asteroid_shapes@.len()),
            holes_ok(new_holes@),
            0 < w <= SCREEN_LIMIT,
            0 < h <= SCREEN_LIMIT,
        ensures
            cleaned(*old(self), *final(self), new_asteroids@, new_holes@, w as int, h as int),
            final(self).wf(),
            final(self).bullets@ == old(self).bullets@.filter(
                |b: Bullet| bullet_kept(b, old(self).game_t as int),
            ),
            final(self).rockets@ == old(self).rockets@.filter(
                |r: Rocket| rocket_kept(r, old(self).game_t as int),
            ),
            final(self).asteroids@ == old(self).asteroids@.filter(
                |a: Asteroid| asteroid_kept(a, old(self).ship.pos, w as int, h as int),
            ) + new_asteroids@,
            final(self).black_holes@ == old(self).black_holes@.filter(
                |b: BlackHole| hole_kept(b, old(self).ship.pos, w as int, h as int),
            ) + new_holes@,
            final(self).ship == old(self).ship,
            final(self).game_t == old(self).game_t,
            final(self).progress == old(self).progress,
            final(self).level_up == old(self).level_up,
            final(self).paused == old(self).paused,
            final(self).asteroid_shapes@.len() == old(self).asteroid_shapes@.len(),
    {
        let now = self.game_t;
        let ghost b0 = self.bullets@;
        let ghost r0 = self.rockets@;
        let ghost a0 = self.asteroids@;
        let ghost h0 = self.black_holes@;
        let n = self.asteroid_shapes.len();
        keep_bullets(&mut self.bullets, now);
        keep_rockets(&mut self.rockets, now);
        keep_asteroids(&mut self.asteroids, self.ship.pos, w, h, n);
        keep_holes(&mut self.black_holes, self.ship.pos, w, h);
        let mut na = new_asteroids;
        let mut nh = new_holes;
        self.asteroids.append(&mut na);
        self.black_holes.append(&mut nh);
        proof {
            let pb = |b: Bullet| bullet_kept(b, now as int);
            let pr = |r: Rocket| rocket_kept(r, now as int);
            let pa = |a: Asteroid| asteroid_kept(a, self.ship.pos, w as int, h as int);
            let ph = |b: BlackHole| hole_kept(b, self.ship.pos, w as int, h as int);
            assert forall|i: int| 0 <= i < self.bullets@.len() implies (#[trigger] self.bullets@[i]).wf()
                && self.bullets@[i].shot_at <= now by {
                b0.lemma_filter_pred(pb, i);
                b0.lemma_filter_contains_rev(pb, self.bullets@[i]);
            }
            assert forall|i: int| 0 <= i < self.rockets@.len() implies (#[trigger] self.rockets@[i]).wf()
                && self.rockets@[i].shot_at <= now by {
                r0.lemma_filter_contains_rev(pr, self.rockets@[i]);
            }
            let fa = a0.filter(pa);
            assert forall|i: int| 0 <= i < self.asteroids@.len() implies (#[trigger] self.asteroids@[i]).wf(
                n as nat,
            ) by {
                if i < fa.len() {
                    a0.lemma_filter_contains_rev(pa, self.asteroids@[i]);
                }
            }
            let fh = h0.filter(ph);
            assert forall|i: int| 0 <= i < self.black_holes@.len() implies (#[trigger] self.black_holes@[i]).wf() by {
                if i < fh.len() {
                    h0.lemma_filter_contains_rev(ph, self.black_holes@[i]);
                }
            }
        }
    }

    /// Spawns black holes until there is one for every ten levels (rounded
    /// to the nearest), each at a random bearing from the ship and aimed near it.
    pub fn top_up_holes(&mut self, w: u32, h: u32)
        requires
            old(self).wf(),
            0 < w <= SCREEN_LIMIT,
            0 < h <= SCREEN_LIMIT,
        ensures
            final(self).wf(),
            topped_up(*old(self), *final(self), w as int, h as int),
    {
        let target: u64 = self.progress.level / 10 + if self.progress.level % 10 >= 5 { 1 } else { 0 };
        assert(target == (self.progress.level + 5) / 10);
        let diag = screen_diagonal(w, h);
        let (hw, hh) = (w as i64 / 2, h as i64 / 2);
        assert(self.black_holes@.take(self.black_holes@.len() as int) =~= self.black_holes@);
        while (self.black_holes.len() as u64) < target
            invariant
                *self == (MainState { black_holes: self.black_holes, ..*old(self) }),
                extends(old(self).black_holes@, self.black_holes@),
                diag == diagonal(w as int, h as int),
                forall|k: int|
                    old(self).black_holes@.len() <= k < self.black_holes@.len() ==> spawned_hole(
                        old(self).ship.pos,
                        #[trigger] self.black_holes@[k],
                        w as int,
                        h as int,
                    ),
                0 < w <= SCREEN_LIMIT,
                0 < h <= SCREEN_LIMIT,
                0 < diag <= 2 * SCREEN_LIMIT,
                hw == w / 2,
                hh == h / 2,
                holes_ok(self.black_holes@),
                target == (old(self).progress.level + 5) / 10,
                self.black_holes@.len() >= old(self).black_holes@.len(),
                self.black_holes@.len() == old(self).black_holes@.len() || self.black_holes@.len()
                    <= target,
                self.ship == old(self).ship,
                self.ship.wf(),
                self.game_t == old(self).game_t,
                self.bullets == old(self).bullets,
                self.rockets == old(self).rockets,
                self.asteroids == old(self).asteroids,
                self.progress == old(self).progress,
                self.level_up == old(self).level_up,
                self.paused == old(self).paused,
                self.last_asteroid_generate_pos == old(self).last_asteroid_generate_pos,
                self.last_bullet_shot == old(self).last_bullet_shot,
                self.last_rocket_shot == old(self).last_rocket_shot,
                self.max_hostile_asteroid_speed == old(self).max_hostile_asteroid_speed,
                self.hostile_asteroids_rate == old(self).hostile_asteroids_rate,
                self.available_upgrades == old(self).available_upgrades,
                self.asteroid_shapes == old(self).asteroid_shapes,
            decreases target - self.black_holes@.len(),
        {
            let pos = around(self.ship.pos, diag * 2 / 5, 2 * diag);
            let ax = random_between(-hw, hw);
            let ay = random_between(-hh, hh);
            let aim = Vec2 { x: ax * 1000, y: ay * 1000 };
            let toward = add_clamped(self.ship.pos, aim, POS_LIMIT);
            let speed = random_between(UNIT, 3 * UNIT);
            let size = random_between(5000, 20_000);
            let hole = BlackHole {
                pos,
                vel: scale_to(sub_vec(toward, pos), speed),
                size,
                collided: false,
            };
            let ghost before = self.black_holes@;
            self.black_holes.push(hole);
            proof {
                assert(self.black_holes@.take(old(self).black_holes@.len() as int) =~= before.take(
                    old(self).black_holes@.len() as int,
                ));
                assert(self.black_holes@[self.black_holes@.len() - 1] == hole);
                assert(hole.vel == aimed_at(
                    pos,
                    add_sat(old(self).ship.pos, Vec2 { x: (ax * 1000) as i64, y: (ay * 1000) as i64 }, POS_LIMIT as int),
                    speed as int,
                ));
                assert(5000 <= hole.size < 20_000);
                assert(ring_place(old(self).ship.pos, hole.pos, diagonal(w as int, h as int) * 2 / 5, 2 * diagonal(w as int, h as int)));
                assert(-(w / 2) <= ax <= w / 2 && -(h / 2) <= ay <= h / 2);
                assert(UNIT <= speed < 3 * UNIT);
                assert(spawned_hole(old(self).ship.pos, hole, w as int, h as int));
            }
        }
    }

    /// Adds `kills` experience and takes every level it reaches. Each level makes hostile
    /// asteroids come a fifth more often and up to 8% faster; a prompt
    /// offering up to three upgrades appears when any level was taken and
    /// the pool is not empty (several levels in one tick leave one prompt).
    pub fn gain_levels(&mut self, kills: u64)
        requires
            old(self).wf(),
            old(self).level_up.is_none(),
        ensures
            levelled(*old(self), *final(self), kills),
            final(self).wf(),
            final(self).progress.xp < final(self).progress.next_level_xp,
            final(self).level_up.is_some() <==> (crate::progression::level_ups(
                sat_u64(old(self).progress.xp + kills) as int,
                old(self).progress.next_level_xp as int,
            ) > 0 && old(self).available_upgrades@.len() > 0),
            final(self).level_up matches Some(l) ==> l.upgrade_choices@.len() == if OFFER_COUNT
                < old(self).available_upgrades@.len() {
                OFFER_COUNT as int
            } else {
                old(self).available_upgrades@.len() as int
            },
            final(self).progress.xp == crate::progression::xp_left(
                sat_u64(old(self).progress.xp + kills) as int,
                old(self).progress.next_level_xp as int,
            ),
            final(self).progress.level == crate::progression::sat_add(
                old(self).progress.level as int,
                crate::progression::level_ups(
                    sat_u64(old(self).progress.xp + kills) as int,
                    old(self).progress.next_level_xp as int,
                ) as int,
            ),
            final(self).ship == old(self).ship,
            final(self).game_t == old(self).game_t,
            final(self).bullets == old(self).bullets,
            final(self).rockets == old(self).rockets,
            final(self).asteroids == old(self).asteroids,
            final(self).black_holes == old(self).black_holes,
            final(self).paused == old(self).paused,
    {
        self.progress.xp = if kills > u64::MAX - self.progress.xp {
            u64::MAX
        } else {
            self.progress.xp + kills
        };
        let gained = self.progress.take_levels();
        grow_hostility(&mut self.hostile_asteroids_rate, &mut self.max_hostile_asteroid_speed, gained);
        if gained > 0 && self.available_upgrades.len() > 0 {
            self.level_up = Some(LevelUp::new(OFFER_COUNT, self.available_upgrades.len()));
        }
    }

    /// Advances the session by one tick of `frame_ms` milliseconds on a
    /// `w` by `h` screen, under `input`. A pending level-up prompt takes the
    /// tick's input alone (the cursor moves, or confirming takes the selected
    /// upgrade) and the tick ends there; a paused game stands still; otherwise
    /// the clock advances, the ship fires, produces, moves and turns, every
    /// body moves, collisions and black holes act (either may end the
    /// session), space is filled in, the pools are cleaned, holes topped up
    /// and levels taken.
    pub fn update(&mut self, input: Input, frame_ms: u64, w: u32, h: u32) -> (out: Outcome)
        requires
            old(self).wf(),
            0 < w <= SCREEN_LIMIT,
            0 < h <= SCREEN_LIMIT,
        ensures
            out == Outcome::Running ==> final(self).wf(),
            old(self).level_up.is_some() ==> out == Outcome::Running && prompt_handled(
                *old(self),
                *final(self),
                input,
            ),
            old(self).level_up.is_none() && old(self).paused != input.pause ==> out
                == Outcome::Running && *final(self) == (MainState { paused: true, ..*old(self) }),
            tick_goes_on(*old(self), input) ==> ran_tick(
                *old(self),
                *final(self),
                input,
                frame_ms,
                w as int,
                h as int,
                out,
            ),
            tick_goes_on(*old(self), input) && out == Outcome::Running ==> final(self).ship.pos
                == integrated(old(self).ship, drive_of(*old(self), input)).pos
                && final(self).ship.rot == wrap_deg(old(self).ship.rot + turn_of(input)),
            out == Outcome::Running ==> final(self).progress.xp < final(self).progress.next_level_xp,
            out == Outcome::Lost ==> tick_goes_on(*old(self), input),
    {
        let ghost s0 = *self;
        if self.level_up.is_some() {
            self.handle_prompt(&input);
            return Outcome::Running;
        }
        if input.pause {
            self.paused = !self.paused;
        }
        if self.paused {
            return Outcome::Running;
        }
        self.game_t = if frame_ms > TIME_CAP - self.game_t { TIME_CAP } else { self.game_t + frame_ms };
        let ghost s1 = *self;
        assert(clocked(s0, s1, frame_ms));
        let drive = if input.thrust {
            Drive::Thrust
        } else if input.brake && self.params.has_brakes {
            Drive::Brake
        } else {
            Drive::Coast
        };
        self.fire_weapons(&input);
        let ghost s2 = *self;
        self.produce(frame_ms);
        let ghost s3 = *self;
        let turn_delta: i64 = if input.turn_right {
            SHIP_ROTATION_SPEED
        } else if input.turn_left {
            -SHIP_ROTATION_SPEED
        } else {
            0
        };
        assert(drive == drive_of(s0, input) && turn_delta == turn_of(input));
        self.move_bodies(drive, turn_delta);
        let ghost s4 = *self;
        assert(clocked(s0, s1, frame_ms) && fired(s1, s2, input) && produced(s2, s3, frame_ms)
            && moved(s3, s4, drive_of(s0, input), turn_of(input)));
        let n = self.asteroid_shapes.len();
        let contact = resolve_collisions(
            &mut self.asteroids,
            &mut self.bullets,
            &mut self.rockets,
            &mut self.ship,
            &mut self.params.shields,
            &mut self.invulnerable_until,
            self.colliding,
            self.game_t,
            n,
        );
        if contact.lost {
            assert(fatal(s4));
            assert(rest_of_tick(s4, *self, frame_ms, w as int, h as int, Outcome::Lost));
            return Outcome::Lost;
        }
        proof {
            assert(bullets_ok(self.bullets@, self.game_t));
            assert(rockets_ok(self.rockets@, self.game_t));
        }
        self.colliding = contact.colliding;
        let ghost s5 = *self;
        let ghost frags = contact.fragments@;
        assert(!fatal(s4));
        assert(collided(s4, s5, contact.kills, frags));
        let mut new_asteroids = contact.fragments;
        let (born, swallowed) = self.black_hole_pass();
        let ghost s6 = *self;
        assert(holes_passed(s5, s6, born@, swallowed));
        if swallowed {
            assert(rest_of_tick(s4, *self, frame_ms, w as int, h as int, Outcome::Lost));
            return Outcome::Lost;
        }
        self.generate_asteroids(&mut new_asteroids, w, h);
        let ghost s7 = *self;
        let ghost n1 = new_asteroids@;
        assert(generated(s6, s7, frags, n1, w as int, h as int));
        self.spawn_hostiles(&mut new_asteroids, frame_ms, w, h);
        let ghost s8 = *self;
        let ghost n2 = new_asteroids@;
        assert(spawned(s7, s8, n1, n2, frame_ms as int, w as int, h as int));
        let ghost born_seq = born@;
        self.cleanup(new_asteroids, born, w, h);
        let ghost s9a = *self;
        assert(cleaned(s8, s9a, n2, born_seq, w as int, h as int));
        self.top_up_holes(w, h);
        let ghost s10 = *self;
        assert(topped_up(s9a, s10, w as int, h as int));
        self.gain_levels(contact.kills);
        assert(levelled(s10, *self, contact.kills));
        assert(rest_of_tick(s4, *self, frame_ms, w as int, h as int, Outcome::Running));
        Outcome::Running
    }
}

} // verus!
