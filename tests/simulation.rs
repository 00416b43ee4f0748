use asteroids::entity::{fragment, Asteroid, BlackHole, Bullet, Ship};
use asteroids::geom::{clamp_length, sqrt_up, Vec2};
use asteroids::physics::{integrate_ship, merge_holes, Drive, HOLE_SIZE_CAP, SHIP_SPEED_CAP};
use asteroids::progression::{LevelUp, Progress};
use asteroids::state::{Input, MainState, Outcome};
use asteroids::world::keep_holes;

fn idle() -> Input {
    Input {
        thrust: false,
        brake: false,
        turn_left: false,
        turn_right: false,
        fire: false,
        fire_rocket: false,
        pause: false,
        confirm: false,
        menu_up: false,
        menu_down: false,
    }
}

fn norm_sq(v: Vec2) -> i128 {
    (v.x as i128) * (v.x as i128) + (v.y as i128) * (v.y as i128)
}

fn empty_field() -> MainState {
    let mut st = MainState::new(800, 600);
    st.asteroids.clear();
    st
}

fn asteroid_at(pos: Vec2, sides: u8) -> Asteroid {
    Asteroid {
        pos,
        vel: Vec2 { x: 0, y: 0 },
        rot: 0,
        rot_speed: 0,
        size: 60_000,
        sides,
        collided: false,
        shape_idx: 0,
    }
}

#[test]
fn ship_speed_never_exceeds_cap() {
    let mut ship = Ship { pos: Vec2 { x: 0, y: 0 }, rot: 45, vel: Vec2 { x: 4_900, y: 0 } };
    for _ in 0..200 {
        integrate_ship(&mut ship, Drive::Thrust);
        assert!(norm_sq(ship.vel) <= (SHIP_SPEED_CAP as i128) * (SHIP_SPEED_CAP as i128));
    }
    let once = clamp_length(Vec2 { x: 30_000, y: -40_000 }, SHIP_SPEED_CAP);
    assert_eq!(once, Vec2 { x: 3_000, y: -4_000 });
    assert_eq!(clamp_length(once, SHIP_SPEED_CAP), once);
}

#[test]
fn fragments_of_larger_asteroid() {
    let a = asteroid_at(Vec2 { x: 1_000, y: 2_000 }, 5);
    let hit = Vec2 { x: 3_000, y: 4_000 };
    let parts = fragment(&a, hit, 5);
    assert_eq!(parts.len(), 2);
    for p in parts.iter() {
        assert_eq!(p.sides, 4);
        assert_eq!(p.size, 48_000);
        assert_eq!(p.pos, a.pos);
        assert!(!p.collided);
        let dot = p.vel.x as i64 * hit.x + p.vel.y as i64 * hit.y;
        assert!(dot.abs() < hit.x.abs() + hit.y.abs());
        let speed_sq = norm_sq(p.vel);
        assert!(speed_sq >= 990 * 990 && speed_sq < 3_000 * 3_000);
    }
    assert!(parts[0].vel != parts[1].vel);
}

#[test]
fn three_sided_asteroid_leaves_nothing() {
    let a = asteroid_at(Vec2 { x: 0, y: 0 }, 3);
    assert!(fragment(&a, Vec2 { x: 10_000, y: 0 }, 5).is_empty());
}

#[test]
fn cleanup_twice_removes_nothing_more() {
    let mut st = empty_field();
    st.game_t = 2_000;
    st.last_bullet_shot = 2_000;
    let b = |shot_at: u64, collided: bool| Bullet {
        pos: st.ship.pos,
        vel: Vec2 { x: 0, y: 0 },
        shot_at,
        collided,
    };
    let bullets = vec![b(100, false), b(1_000, false), b(1_900, true), b(1_950, false)];
    st.bullets = bullets;
    st.asteroids.push(asteroid_at(Vec2 { x: 400_000, y: 300_000 }, 4));
    let mut far = asteroid_at(Vec2 { x: 400_000_000, y: 300_000 }, 4);
    far.collided = false;
    st.asteroids.push(far);
    st.cleanup(Vec::new(), Vec::new(), 800, 600);
    assert_eq!(st.bullets.len(), 2);
    assert_eq!(st.asteroids.len(), 1);
    st.cleanup(Vec::new(), Vec::new(), 800, 600);
    assert_eq!(st.bullets.len(), 2);
    assert_eq!(st.asteroids.len(), 1);
}

#[test]
fn large_xp_jump_ends_below_threshold() {
    let mut p = Progress { level: 1, xp: 1_000_000, next_level_xp: 3 };
    let gained = p.take_levels();
    assert!(gained > 1);
    assert!(p.xp < p.next_level_xp);
    assert_eq!(p.level, 1 + gained);
}

#[test]
fn touching_black_holes_merge_into_one() {
    let h = |x: i64, size: i64| BlackHole {
        pos: Vec2 { x, y: 0 },
        vel: Vec2 { x: 0, y: 0 },
        size,
        collided: false,
    };
    let mut holes = vec![h(0, 300_000), h(100_000, 200_000)];
    let born = merge_holes(&mut holes);
    assert_eq!(born.len(), 1);
    assert_eq!(born[0].size, HOLE_SIZE_CAP);
    assert!(holes[0].collided && holes[1].collided);
    let mut small = vec![h(0, 10_000), h(5_000, 20_000)];
    let born_small = merge_holes(&mut small);
    assert_eq!(born_small.len(), 1);
    assert_eq!(born_small[0].size, 30_000);
    assert_eq!(born_small[0].pos, Vec2 { x: 3_334, y: 0 });
    keep_holes(&mut small, Vec2 { x: 0, y: 0 }, 800, 600);
    assert!(small.is_empty());
    let mut apart = vec![h(0, 10_000), h(1_000_000, 10_000)];
    assert!(merge_holes(&mut apart).is_empty());
    assert!(!apart[0].collided && !apart[1].collided);
}

#[test]
fn resting_ship_stays_put() {
    let mut st = empty_field();
    let start = st.ship.pos;
    for _ in 0..120 {
        assert_eq!(st.update(idle(), 16, 800, 600), Outcome::Running);
    }
    assert_eq!(st.ship.pos, start);
    assert_eq!(st.ship.vel, Vec2 { x: 0, y: 0 });
    assert!(!st.paused);
    assert!(st.level_up.is_none());
}

#[test]
fn held_thrust_reaches_but_never_exceeds_cap() {
    let mut st = empty_field();
    let mut input = idle();
    input.thrust = true;
    let cap_sq = (SHIP_SPEED_CAP as i128) * (SHIP_SPEED_CAP as i128);
    let mut reached = false;
    for _ in 0..180 {
        assert_eq!(st.update(input, 16, 800, 600), Outcome::Running);
        let s = norm_sq(st.ship.vel);
        assert!(s <= cap_sq);
        if s >= (SHIP_SPEED_CAP as i128 - 5) * (SHIP_SPEED_CAP as i128 - 5) {
            reached = true;
        }
    }
    assert!(reached);
}

#[test]
fn bullet_lives_for_its_lifetime() {
    let mut st = empty_field();
    st.bullets.push(Bullet {
        pos: st.ship.pos,
        vel: Vec2 { x: 10_000, y: 0 },
        shot_at: 0,
        collided: false,
    });
    for _ in 0..14 {
        st.update(idle(), 100, 800, 600);
    }
    assert_eq!(st.game_t, 1_400);
    assert_eq!(st.bullets.len(), 1);
    for _ in 0..2 {
        st.update(idle(), 100, 800, 600);
    }
    assert_eq!(st.game_t, 1_600);
    assert!(st.bullets.is_empty());
}

#[test]
fn unshielded_ship_hit_by_asteroid_is_lost() {
    let mut st = empty_field();
    st.asteroids.push(asteroid_at(st.ship.pos, 4));
    assert_eq!(st.params.shields, 0);
    assert_eq!(st.invulnerable_until, 0);
    assert_eq!(st.update(idle(), 16, 800, 600), Outcome::Lost);
}

#[test]
fn shielded_ship_survives_a_hit() {
    let mut st = empty_field();
    st.params.shields = asteroids::progression::SHIELD_UNIT;
    let mut a = asteroid_at(st.ship.pos, 4);
    a.pos.x += 10_000;
    st.asteroids.push(a);
    assert_eq!(st.update(idle(), 16, 800, 600), Outcome::Running);
    assert_eq!(st.params.shields, 0);
    assert_eq!(st.invulnerable_until, 16 + 300);
}

#[test]
fn exact_threshold_gives_one_prompt() {
    let mut st = empty_field();
    st.progress = Progress { level: 1, xp: 2, next_level_xp: 3 };
    st.gain_levels(1);
    assert_eq!(st.progress.level, 2);
    assert_eq!(st.progress.xp, 0);
    assert_eq!(st.progress.next_level_xp, 4);
    let prompt = st.level_up.as_ref().unwrap();
    assert_eq!(prompt.upgrade_choices.len(), 3);
    assert_eq!(prompt.selected, 0);

    let mut few = empty_field();
    few.available_upgrades.truncate(2);
    few.progress = Progress { level: 1, xp: 2, next_level_xp: 3 };
    few.gain_levels(1);
    assert_eq!(few.level_up.as_ref().unwrap().upgrade_choices.len(), 2);
}

#[test]
fn prompt_offers_distinct_upgrades_and_wraps() {
    let mut lu = LevelUp::new(3, 6);
    assert_eq!(lu.upgrade_choices.len(), 3);
    let c = &lu.upgrade_choices;
    assert!(c[0] != c[1] && c[1] != c[2] && c[0] != c[2]);
    assert!(c.iter().all(|&i| i < 6));
    lu.navigate(true, false);
    assert_eq!(lu.selected, 2);
    lu.navigate(false, true);
    assert_eq!(lu.selected, 0);
    assert_eq!(LevelUp::new(3, 1).upgrade_choices, vec![0]);
    assert!(LevelUp::new(3, 0).upgrade_choices.is_empty());
}

#[test]
fn square_roots_round_up() {
    assert_eq!(sqrt_up(0), 0);
    assert_eq!(sqrt_up(1), 1);
    assert_eq!(sqrt_up(2), 2);
    assert_eq!(sqrt_up(25), 5);
    assert_eq!(sqrt_up(26), 6);
    assert_eq!(sqrt_up(1_000_000_000_000), 1_000_000);
}
