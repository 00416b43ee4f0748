use asteroids::collide::{bounce, resolve_collisions};
use asteroids::entity::{Asteroid, AsteroidShape, BlackHole, Bullet, Rocket, Ship};
use asteroids::geom::{add_clamped, scale_to, within, Vec2, POS_LIMIT};
use asteroids::motion::{choose_target, fly_rocket};
use asteroids::physics::{gravitate, pull_of, GRAVITY_CAP};
use asteroids::progression::{make_upgrades, Params, Upgrade, SHIELD_UNIT};
use asteroids::rng::random_between;
use asteroids::state::{Input, MainState, Outcome};
use asteroids::trig::{bearing, cos_deg, heading_of, polar_of, sin_deg, turn, turn_to};
use asteroids::world::{
    draw_new_count, expected_new_asteroids, is_in_world, screen_diagonal, spawn_offset,
};

fn idle() -> Input {
    Input {
        thrust: false,
        brake: false,
        turn_left: false,
        turn_right: false,
        fire: false,
        fire_rocket: false,
        pause: false,
        confirm: false,
        menu_up: false,
        menu_down: false,
    }
}

fn rock(pos: Vec2, size: i64, sides: u8) -> Asteroid {
    Asteroid {
        pos,
        vel: Vec2 { x: 0, y: 0 },
        rot: 0,
        rot_speed: 0,
        size,
        sides,
        collided: false,
        shape_idx: 0,
    }
}

fn params() -> Params {
    Params {
        has_brakes: false,
        rocket_stockpile: 2,
        rocket_reload_ms: 1000,
        bullet_reload_ms: 500,
        rocket_production: 0,
        shields: 0,
        shield_regen: 0,
    }
}

#[test]
fn sine_of_whole_degrees() {
    assert_eq!(sin_deg(0), 0);
    assert_eq!(sin_deg(30), 500);
    assert_eq!(sin_deg(90), 1000);
    assert_eq!(sin_deg(180), 0);
    assert_eq!(sin_deg(270), -1000);
    assert_eq!(cos_deg(0), 1000);
    assert_eq!(cos_deg(60), 500);
    assert_eq!(cos_deg(180), -1000);
}

#[test]
fn headings_and_turns() {
    assert_eq!(heading_of(0), Vec2 { x: 0, y: -1000 });
    assert_eq!(heading_of(90), Vec2 { x: 1000, y: 0 });
    assert_eq!(polar_of(90), Vec2 { x: 0, y: 1000 });
    assert_eq!(turn(358, 4), 2);
    assert_eq!(turn(2, -4), 358);
    assert_eq!(turn_to(350, 10), 20);
    assert_eq!(turn_to(10, 350), -20);
    assert_eq!(turn_to(0, 180), 180);
    assert_eq!(bearing(Vec2 { x: 0, y: -5_000 }), 0);
    assert_eq!(bearing(Vec2 { x: 5_000, y: 0 }), 90);
    assert_eq!(bearing(Vec2 { x: 0, y: 5_000 }), 180);
}

#[test]
fn random_draws_stay_in_range_and_vary() {
    let draws: Vec<i64> = (0..200).map(|_| random_between(10, 20)).collect();
    assert!(draws.iter().all(|&d| (10..20).contains(&d)));
    assert!(draws.iter().any(|&d| d != draws[0]));
    assert_eq!(random_between(7, 7), 7);
    assert_eq!(random_between(9, 3), 9);
}

#[test]
fn rescaling_and_zero_fallback() {
    assert_eq!(scale_to(Vec2 { x: 3, y: 4 }, 1000), Vec2 { x: 600, y: 800 });
    assert_eq!(scale_to(Vec2 { x: 0, y: 0 }, 1000), Vec2 { x: 0, y: -1000 });
    assert_eq!(
        add_clamped(Vec2 { x: POS_LIMIT, y: 0 }, Vec2 { x: 5, y: -5 }, POS_LIMIT),
        Vec2 { x: POS_LIMIT, y: -5 }
    );
    assert!(within(Vec2 { x: 0, y: 0 }, Vec2 { x: 3, y: 4 }, 6));
    assert!(!within(Vec2 { x: 0, y: 0 }, Vec2 { x: 3, y: 4 }, 5));
}

#[test]
fn shield_bounce_reverses_approach() {
    assert_eq!(bounce(Vec2 { x: 1000, y: 500 }, Vec2 { x: 10, y: 0 }), Vec2 { x: -5000, y: 500 });
    assert_eq!(bounce(Vec2 { x: 1000, y: 500 }, Vec2 { x: 0, y: 0 }), Vec2 { x: 1000, y: 500 });
}

#[test]
fn gravity_pull_and_capture() {
    let hole = BlackHole {
        pos: Vec2 { x: 0, y: 0 },
        vel: Vec2 { x: 0, y: 0 },
        size: 10_000,
        collided: false,
    };
    // 70e6 * 10_000 / 1e10 = 70 milli-pixels toward the hole
    assert_eq!(pull_of(hole.pos, hole.size, Vec2 { x: 100_000, y: 0 }), Vec2 { x: -70, y: 0 });
    assert_eq!(pull_of(hole.pos, hole.size, hole.pos), Vec2 { x: 0, y: -GRAVITY_CAP });
    let (v, hit) = gravitate(&hole, Vec2 { x: 100_000, y: 0 }, Vec2 { x: 0, y: 100 }, 2_000);
    assert_eq!(v, Vec2 { x: -70, y: 100 });
    assert!(!hit);
    let (_, hit) = gravitate(&hole, Vec2 { x: 11_000, y: 0 }, Vec2 { x: 0, y: 0 }, 2_000);
    assert!(hit);
}

#[test]
fn rocket_homes_on_the_nearest_ahead() {
    let r = Rocket {
        pos: Vec2 { x: 0, y: 0 },
        vel: Vec2 { x: 0, y: -9_000 },
        rot: 0,
        collided: false,
        shot_at: 0,
        steer: false,
    };
    let asteroids = vec![
        rock(Vec2 { x: 0, y: 500_000 }, 10_000, 4),
        rock(Vec2 { x: 50_000, y: -400_000 }, 10_000, 4),
        rock(Vec2 { x: 0, y: -300_000 }, 10_000, 4),
    ];
    assert_eq!(choose_target(&r, &asteroids, 5), Some(2));
    assert_eq!(choose_target(&r, &Vec::new(), 5), None);
    let flown = fly_rocket(&r, &asteroids, 5, 1_000);
    assert!(flown.steer);
    assert_eq!(flown.rot, 0);
    assert_eq!(flown.vel, Vec2 { x: 0, y: -9_600 });
    assert_eq!(flown.pos, Vec2 { x: 0, y: -9_600 });
    let early = fly_rocket(&r, &asteroids, 5, 200);
    assert!(!early.steer);
    assert_eq!(early.vel, r.vel);
    let mut off = r;
    off.rot = 90;
    assert_eq!(fly_rocket(&off, &asteroids, 5, 1_000).rot, 80);
}

#[test]
fn upgrades_change_parameters() {
    let pool = make_upgrades();
    assert_eq!(pool.len(), 6);
    let mut p = params();
    let mut brakes = Upgrade::Brakes;
    assert!(!brakes.apply(&mut p));
    assert!(p.has_brakes);
    let mut missiles = Upgrade::Missiles { next: 5 };
    assert!(missiles.apply(&mut p));
    assert_eq!(p.rocket_stockpile, 7);
    assert_eq!(missiles, Upgrade::Missiles { next: 10 });
    let mut reload = Upgrade::BulletReload;
    assert!(reload.apply(&mut p));
    assert_eq!(p.bullet_reload_ms, 400);
    p.bullet_reload_ms = 60;
    assert!(!reload.apply(&mut p));
    assert_eq!(p.bullet_reload_ms, 48);
    let mut rr = Upgrade::MissileReload;
    assert!(rr.apply(&mut p));
    assert_eq!(p.rocket_reload_ms, 800);
    let mut prod = Upgrade::MissileProduction;
    assert!(prod.apply(&mut p));
    assert_eq!(p.rocket_production, 300);
    let mut shields = Upgrade::Shields;
    assert!(shields.apply(&mut p));
    assert_eq!(p.shields, SHIELD_UNIT);
    assert_eq!(p.shield_regen, 100);
    assert!(shields.apply(&mut p));
    assert_eq!(p.shield_regen, 600);
}

#[test]
fn new_space_expectations() {
    // a 100 px move along x on an 800 x 600 screen: 4 * 5 * 100 * 600 / (800 * 600) = 2.5
    assert_eq!(expected_new_asteroids(Vec2 { x: 100_000, y: 0 }, 800, 600), 2_500);
    assert_eq!(expected_new_asteroids(Vec2 { x: 0, y: 0 }, 800, 600), 0);
    for _ in 0..50 {
        let n = draw_new_count(2_500);
        assert!((2..5).contains(&n));
    }
    for _ in 0..50 {
        let off = spawn_offset(Vec2 { x: 100_000, y: 0 }, 800, 600);
        assert!(off.x > 1_900_000 && off.x <= 2_000_000);
        assert!(off.y >= -1_500_000 && off.y < 1_500_000);
    }
    assert_eq!(screen_diagonal(800, 600), 1000);
    assert!(is_in_world(Vec2 { x: 0, y: 0 }, Vec2 { x: 2_499_000, y: 0 }, 800, 600));
    assert!(!is_in_world(Vec2 { x: 0, y: 0 }, Vec2 { x: 2_500_000, y: 0 }, 800, 600));
}

#[test]
fn fresh_bodies_and_session() {
    let shape = AsteroidShape::new();
    assert!((6..12).contains(&shape.corners.len()));
    assert!(shape.corners.iter().all(|&(a, r)| (-300..300).contains(&a) && (900..1100).contains(&r)));
    let a = Asteroid::new(Vec2 { x: 5, y: 6 }, 5, 800, 600);
    assert_eq!(a.size, 60_000);
    assert!((3..8).contains(&a.sides));
    assert!(a.shape_idx < 5);
    let st = MainState::new(800, 600);
    assert_eq!(st.ship.pos, Vec2 { x: 400_000, y: 300_000 });
    assert_eq!(st.asteroids.len(), 100);
    assert_eq!(st.asteroid_shapes.len(), 5);
    assert_eq!(st.progress.next_level_xp, 3);
}

#[test]
fn collisions_destroy_and_split() {
    let mut asteroids = vec![rock(Vec2 { x: 0, y: 0 }, 50_000, 5), rock(Vec2 { x: 900_000, y: 0 }, 50_000, 3)];
    let mut bullets = vec![
        Bullet { pos: Vec2 { x: 10_000, y: 0 }, vel: Vec2 { x: 0, y: 10_000 }, shot_at: 0, collided: false },
        Bullet { pos: Vec2 { x: 900_000, y: 1_000 }, vel: Vec2 { x: 0, y: 10_000 }, shot_at: 0, collided: false },
    ];
    let mut rockets: Vec<Rocket> = Vec::new();
    let mut ship = Ship { pos: Vec2 { x: 400_000, y: 400_000 }, rot: 0, vel: Vec2 { x: 0, y: 0 } };
    let (mut shields, mut inv) = (0u64, 0u64);
    let c = resolve_collisions(
        &mut asteroids, &mut bullets, &mut rockets, &mut ship, &mut shields, &mut inv, false, 100, 5,
    );
    assert!(!c.lost && !c.colliding);
    assert_eq!(c.kills, 2);
    assert_eq!(c.fragments.len(), 2);
    assert!(asteroids.iter().all(|a| a.collided));
    assert!(bullets.iter().all(|b| b.collided));
}

#[test]
fn pause_freezes_the_clock() {
    let mut st = MainState::new(800, 600);
    st.asteroids.clear();
    let mut p = idle();
    p.pause = true;
    assert_eq!(st.update(p, 16, 800, 600), Outcome::Running);
    assert!(st.paused);
    assert_eq!(st.update(idle(), 16, 800, 600), Outcome::Running);
    assert_eq!(st.game_t, 0);
    assert_eq!(st.update(p, 16, 800, 600), Outcome::Running);
    assert!(!st.paused);
    assert_eq!(st.game_t, 16);
}

#[test]
fn confirming_a_prompt_applies_the_upgrade() {
    let mut st = MainState::new(800, 600);
    st.asteroids.clear();
    st.level_up = Some(asteroids::progression::LevelUp { selected: 0, upgrade_choices: vec![0, 1] });
    let mut down = idle();
    down.menu_down = true;
    assert_eq!(st.update(down, 16, 800, 600), Outcome::Running);
    assert_eq!(st.level_up.as_ref().unwrap().selected, 1);
    assert_eq!(st.game_t, 0);
    st.update(down, 16, 800, 600);
    assert_eq!(st.level_up.as_ref().unwrap().selected, 0);
    let mut ok = idle();
    ok.confirm = true;
    st.update(ok, 16, 800, 600);
    assert!(st.level_up.is_none());
    assert!(st.params.has_brakes);
    assert_eq!(st.available_upgrades.len(), 5);
    assert_eq!(st.game_t, 0);
    st.update(idle(), 16, 800, 600);
    assert_eq!(st.game_t, 16);
}

#[test]
fn ship_swallowed_by_a_hole_is_lost() {
    let mut st = MainState::new(800, 600);
    st.asteroids.clear();
    st.black_holes.push(BlackHole { pos: st.ship.pos, vel: Vec2 { x: 0, y: 0 }, size: 10_000, collided: false });
    assert_eq!(st.update(idle(), 16, 800, 600), Outcome::Lost);
}

#[test]
fn bullet_radius_counts_toward_a_hit() {
    let mut asteroids = vec![rock(Vec2 { x: 0, y: 0 }, 50_000, 3)];
    let mut bullets = vec![Bullet {
        pos: Vec2 { x: 51_000, y: 0 },
        vel: Vec2 { x: -10_000, y: 0 },
        shot_at: 0,
        collided: false,
    }];
    let mut rockets: Vec<Rocket> = Vec::new();
    let mut ship = Ship { pos: Vec2 { x: 400_000, y: 400_000 }, rot: 0, vel: Vec2 { x: 0, y: 0 } };
    let (mut shields, mut inv) = (0u64, 0u64);
    let c = resolve_collisions(
        &mut asteroids, &mut bullets, &mut rockets, &mut ship, &mut shields, &mut inv, false, 100, 5,
    );
    assert_eq!(c.kills, 1);
    assert!(c.fragments.is_empty());
    assert!(bullets[0].collided);
}

#[test]
fn firing_spends_reload_and_rockets() {
    let mut st = MainState::new(800, 600);
    st.asteroids.clear();
    let mut fire = idle();
    fire.fire = true;
    fire.fire_rocket = true;
    st.update(fire, 1_100, 800, 600);
    assert_eq!(st.bullets.len(), 1);
    assert_eq!(st.rockets.len(), 1);
    assert_eq!(st.params.rocket_stockpile, 1);
    st.update(fire, 100, 800, 600);
    assert_eq!(st.bullets.len(), 1);
    assert_eq!(st.rockets.len(), 1);
}

#[test]
fn production_and_hostile_spawns() {
    let mut st = MainState::new(800, 600);
    st.asteroids.clear();
    st.params.rocket_production = 1_000;
    st.params.shield_regen = 100;
    st.update(idle(), 15_000, 800, 600);
    assert_eq!(st.params.rocket_stockpile, 17);
    assert_eq!(st.params.shields, 1_500_000);
    assert_eq!(st.asteroids.len(), 1);
    assert_eq!(st.new_hostile_asteroids, 0);
}

#[test]
fn holes_follow_the_level() {
    let mut st = MainState::new(800, 600);
    st.asteroids.clear();
    st.progress.level = 15;
    st.top_up_holes(800, 600);
    assert_eq!(st.black_holes.len(), 2);
    assert!(st.black_holes.iter().all(|h| (5_000..20_000).contains(&h.size)));
}
