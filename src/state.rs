//! The simulation state of one session.
use vstd::prelude::*;
use crate::entity::{Asteroid, AsteroidShape, BlackHole, Bullet, Rocket, Ship, SCREEN_LIMIT};
use crate::geom::{add_clamped, bounded, Vec2, POS_LIMIT, UNIT};
use crate::progression::{make_upgrades, LevelUp, Params, Progress, Upgrade, GROWTH_CAP};
use crate::rng::random_between;

verus! {

/// Latest game time, in milliseconds; the clock stops there.
pub const TIME_CAP: u64 = 0x4000_0000_0000_0000;

/// One hostile asteroid's worth of spawn charge: the rate is in thousandths
/// per minute and the charge grows by it each millisecond.
pub const HOSTILE_UNIT: u64 = 60_000_000;

/// One rocket's worth of production progress: the rate is in thousandths
/// per second and the progress grows by it each millisecond.
pub const ROCKET_UNIT: u64 = 1_000_000;

/// Fastest a hostile asteroid may be launched, in milli-pixels per tick.
pub const HOSTILE_SPEED_CAP: i64 = 1_000_000;

/// Degrees the ship turns per tick.
pub const SHIP_ROTATION_SPEED: i64 = 4;

/// Number of outlines in the asteroid palette.
pub const SHAPE_COUNT: usize = 5;

/// Which side the next rocket leaves the ship from.
#[derive(Clone, Copy, Debug, PartialEq, Eq, Structural)]
pub enum RocketSide {
    Right,
    Left,
}

impl RocketSide {
    pub fn switch(self) -> (r: RocketSide)
        ensures
            r != self,
    {
        match self {
            RocketSide::Left => RocketSide::Right,
            RocketSide::Right => RocketSide::Left,
        }
    }
}

/// The logical actions held or pressed this tick.
#[derive(Clone, Copy, Debug, PartialEq, Eq, Structural)]
pub struct Input {
    /// Forward thrust is held.
    pub thrust: bool,
    /// Brake (or reverse) is held.
    pub brake: bool,
    pub turn_left: bool,
    pub turn_right: bool,
    /// The gun's trigger is held.
    pub fire: bool,
    /// The rocket launcher's trigger is held.
    pub fire_rocket: bool,
    /// Pause was pressed this tick.
    pub pause: bool,
    /// Confirm was pressed this tick.
    pub confirm: bool,
    /// Menu-up was pressed this tick.
    pub menu_up: bool,
    /// Menu-down was pressed this tick.
    pub menu_down: bool,
}

/// How a tick ended.
#[derive(Clone, Copy, Debug, PartialEq, Eq, Structural)]
pub enum Outcome {
    Running,
    Lost,
}

/// A playing session: the ship, every pool of bodies, and the progression.
pub struct MainState {
    pub paused: bool,
    /// Game clock in milliseconds.
    pub game_t: u64,
    pub ship: Ship,
    pub invulnerable_until: u64,
    /// The ship touched an asteroid in the last tick.
    pub colliding: bool,
    /// Where the ship was when new space was last filled.
    pub last_asteroid_generate_pos: Vec2,
    pub generated_asteroids: u64,
    pub bullets: Vec<Bullet>,
    pub last_bullet_shot: u64,
    pub last_rocket_shot: u64,
    pub asteroids: Vec<Asteroid>,
    pub rockets: Vec<Rocket>,
    pub rocket_side: RocketSide,
    pub asteroid_shapes: Vec<AsteroidShape>,
    pub black_holes: Vec<BlackHole>,
    /// The pending prompt: a later one replaces it.
    pub level_up: Option<LevelUp>,
    pub progress: Progress,
    /// Hostile asteroids per minute, in thousandths.
    pub hostile_asteroids_rate: u64,
    /// Charge toward the next hostile asteroid (see `HOSTILE_UNIT`).
    pub new_hostile_asteroids: u64,
    /// Fastest launch of a hostile asteroid, in milli-pixels per tick.
    pub max_hostile_asteroid_speed: i64,
    pub available_upgrades: Vec<Upgrade>,
    pub params: Params,
    /// Progress toward the next produced rocket (see `ROCKET_UNIT`).
    pub rocket_production_progress: u64,
}

pub open spec fn bullets_ok(s: Seq<Bullet>, now: u64) -> bool {
    forall|i: int| 0 <= i < s.len() ==> (#[trigger] s[i]).wf() && s[i].shot_at <= now
}

pub open spec fn rockets_ok(s: Seq<Rocket>, now: u64) -> bool {
    forall|i: int| 0 <= i < s.len() ==> (#[trigger] s[i]).wf() && s[i].shot_at <= now
}

pub open spec fn asteroids_ok(s: Seq<Asteroid>, n_shapes: nat) -> bool {
    forall|i: int| 0 <= i < s.len() ==> (#[trigger] s[i]).wf(n_shapes)
}

pub open spec fn holes_ok(s: Seq<BlackHole>) -> bool {
    forall|i: int| 0 <= i < s.len() ==> (#[trigger] s[i]).wf()
}

/// Where a session's first asteroids lie around the screen centre `c`: 250
/// pixels up to two and a half screens away along each axis, on either
/// side (exactly 250 pixels where the screen is too small for more).
pub open spec fn scattered(c: Vec2, p: Vec2, w: int, h: int) -> bool {
    let (w5, h5) = (5 * w / 2, 5 * h / 2);
    let dx = if p.x >= c.x { p.x - c.x } else { c.x - p.x };
    let dy = if p.y >= c.y { p.y - c.y } else { c.y - p.y };
    &&& (w5 > 250 ==> 250_000 <= dx < w5 * 1000) && (w5 <= 250 ==> dx == 250_000)
    &&& (h5 > 250 ==> 250_000 <= dy < h5 * 1000) && (h5 <= 250 ==> dy == 250_000)
}

impl MainState {
    pub open spec fn wf(&self) -> bool {
        &&& 0 < self.asteroid_shapes@.len() < 0x10_0000
        &&& self.ship.wf()
        &&& bounded(self.last_asteroid_generate_pos, POS_LIMIT as int)
        &&& self.game_t <= TIME_CAP
        &&& self.last_bullet_shot <= self.game_t
        &&& self.last_rocket_shot <= self.game_t
        &&& bullets_ok(self.bullets@, self.game_t)
        &&& rockets_ok(self.rockets@, self.game_t)
        &&& asteroids_ok(self.asteroids@, self.asteroid_shapes@.len())
        &&& holes_ok(self.black_holes@)
        &&& self.progress.wf()
        &&& self.progress.xp < self.progress.next_level_xp
        &&& (self.level_up matches Some(l) ==> l.wf(self.available_upgrades@.len()))
        &&& UNIT <= self.max_hostile_asteroid_speed <= HOSTILE_SPEED_CAP
        &&& self.hostile_asteroids_rate <= GROWTH_CAP
    }

    /// A fresh session on a `screen_w` by `screen_h` screen: the ship at
    /// rest in the middle, five outlines, and a hundred asteroids scattered
    /// away from the ship, out to two and a half screens in each direction.
    pub fn new(screen_w: u32, screen_h: u32) -> (r: MainState)
        requires
            0 < screen_w <= SCREEN_LIMIT,
            0 < screen_h <= SCREEN_LIMIT,
        ensures
            r.wf(),
            r.ship.vel == (Vec2 { x: 0, y: 0 }),
            r.ship.rot == 0,
            r.ship.pos == (Vec2 { x: (screen_w * 500) as i64, y: (screen_h * 500) as i64 }),
            r.asteroids@.len() == 100,
            forall|i: int|
                0 <= i < 100 ==> scattered(r.ship.pos, (#[trigger] r.asteroids@[i]).pos, screen_w as int, screen_h as int)
                    && !r.asteroids@[i].collided,
            r.game_t == 0,
            r.invulnerable_until == 0,
            !r.colliding,
            r.last_asteroid_generate_pos == r.ship.pos,
            r.generated_asteroids == 100,
            r.last_bullet_shot == 0,
            r.last_rocket_shot == 0,
            r.rocket_side == RocketSide::Right,
            r.asteroid_shapes@.len() == SHAPE_COUNT,
            r.available_upgrades@ == seq![
                Upgrade::Brakes,
                Upgrade::Missiles { next: 5 },
                Upgrade::MissileReload,
                Upgrade::BulletReload,
                Upgrade::MissileProduction,
                Upgrade::Shields,
            ],
            r.hostile_asteroids_rate == 4000,
            r.new_hostile_asteroids == 0,
            r.max_hostile_asteroid_speed == UNIT,
            r.rocket_production_progress == 0,
            r.params == (Params {
                has_brakes: false,
                rocket_stockpile: 2,
                rocket_reload_ms: 1000,
                bullet_reload_ms: 500,
                rocket_production: 0,
                shields: 0,
                shield_regen: 0,
            }),
            r.bullets@.len() == 0,
            r.rockets@.len() == 0,
            r.black_holes@.len() == 0,
            r.level_up.is_none(),
            r.progress == (Progress { level: 1, xp: 0, next_level_xp: 3 }),
            r.params.rocket_stockpile == 2,
            r.params.shields == 0,
            !r.params.has_brakes,
            !r.paused,
    {
        let center = Vec2 { x: screen_w as i64 * 500, y: screen_h as i64 * 500 };
        let ship = Ship { pos: center, rot: 0, vel: Vec2 { x: 0, y: 0 } };
        let mut shapes: Vec<AsteroidShape> = Vec::new();
        let mut k: usize = 0;
        while k < SHAPE_COUNT
            invariant
                shapes@.len() == k,
                k <= SHAPE_COUNT,
            decreases SHAPE_COUNT - k,
        {
            shapes.push(AsteroidShape::new());
            k += 1;
        }
        let mut asteroids: Vec<Asteroid> = Vec::new();
        let (w5, h5) = (5 * screen_w as i64 / 2, 5 * screen_h as i64 / 2);
        let mut k: usize = 0;
        while k < 100
            invariant
                0 < screen_w <= SCREEN_LIMIT,
                0 < screen_h <= SCREEN_LIMIT,
                w5 == 5 * screen_w as i64 / 2,
                h5 == 5 * screen_h as i64 / 2,
                center == (Vec2 { x: (screen_w * 500) as i64, y: (screen_h * 500) as i64 }),
                shapes@.len() == SHAPE_COUNT,
                asteroids@.len() == k,
                k <= 100,
                asteroids_ok(asteroids@, SHAPE_COUNT as nat),
                forall|i: int|
                    0 <= i < k ==> scattered(center, (#[trigger] asteroids@[i]).pos, screen_w as int, screen_h as int)
                        && !asteroids@[i].collided,
            decreases 100 - k,
        {
            let x = random_between(250, w5);
            let y = random_between(250, h5);
            let sx = random_between(0, 2);
            let sy = random_between(0, 2);
            let off = Vec2 {
                x: if sx == 0 { -x * 1000 } else { x * 1000 },
                y: if sy == 0 { -y * 1000 } else { y * 1000 },
            };
            let pos = add_clamped(center, off, POS_LIMIT);
            assert(pos.x == center.x + off.x && pos.y == center.y + off.y);
            assert(scattered(center, pos, screen_w as int, screen_h as int));
            asteroids.push(Asteroid::new(pos, shapes.len(), screen_w, screen_h));
            k += 1;
        }
        MainState {
            paused: false,
            game_t: 0,
            ship,
            invulnerable_until: 0,
            colliding: false,
            last_asteroid_generate_pos: center,
            generated_asteroids: 100,
            bullets: Vec::new(),
            last_bullet_shot: 0,
            last_rocket_shot: 0,
            asteroids,
            rockets: Vec::new(),
            rocket_side: RocketSide::Right,
            asteroid_shapes: shapes,
            black_holes: Vec::new(),
            level_up: None,
            progress: Progress { level: 1, xp: 0, next_level_xp: 3 },
            hostile_asteroids_rate: 4000,
            new_hostile_asteroids: 0,
            max_hostile_asteroid_speed: UNIT,
            available_upgrades: make_upgrades(),
            params: Params {
                has_brakes: false,
                rocket_stockpile: 2,
                rocket_reload_ms: 1000,
                bullet_reload_ms: 500,
                rocket_production: 0,
                shields: 0,
                shield_regen: 0,
            },
            rocket_production_progress: 0,
        }
    }
}

} // verus!
