//! Experience, levels, and the upgrades offered at each new level.
use vstd::prelude::*;
use crate::rng::random_between;

verus! {

/// Upgrades offered at each level-up.
pub const OFFER_COUNT: usize = 3;

/// Largest value a growing rate or threshold reaches.
pub const GROWTH_CAP: u64 = 0x10_0000_0000_0000;

/// One kind of upgrade, with the state it carries between offers.
#[derive(Clone, Copy, Debug, PartialEq, Eq, Structural)]
pub enum Upgrade {
    /// Lets the ship brake: a one-shot unlock.
    Brakes,
    /// Adds `next` rockets to the stockpile; each time taken, five more.
    Missiles { next: u64 },
    /// Cuts the rocket reload time by a fifth.
    MissileReload,
    /// Cuts the bullet reload time by a fifth.
    BulletReload,
    /// Adds 0.3 rockets per second of passive production.
    MissileProduction,
    /// Installs shields, then adds 0.5 shield units per minute of regeneration.
    Shields,
}

/// The simulation parameters that upgrades change.
#[derive(Clone, Copy, Debug, PartialEq, Eq, Structural)]
pub struct Params {
    pub has_brakes: bool,
    pub rocket_stockpile: u64,
    /// Milliseconds between two rocket launches.
    pub rocket_reload_ms: u64,
    /// Milliseconds between two shots.
    pub bullet_reload_ms: u64,
    /// Rockets produced per second, in thousandths.
    pub rocket_production: u64,
    /// Shield charge; `SHIELD_UNIT` of it is one whole unit.
    pub shields: u64,
    /// Shield regeneration, in thousandths of a unit per minute.
    pub shield_regen: u64,
}

/// One shield unit of charge: charge grows by `shield_regen` for each
/// millisecond, so a unit is a thousand (thousandths) times sixty thousand
/// (milliseconds in a minute).
pub const SHIELD_UNIT: u64 = 60_000_000;

pub open spec fn sat_add(a: int, b: int) -> int {
    if a + b > u64::MAX { u64::MAX as int } else { a + b }
}

/// What taking upgrade `u` does to the parameters, and whether the upgrade
/// stays on offer afterwards.
pub open spec fn applied(u: Upgrade, p: Params) -> (Upgrade, Params, bool) {
    match u {
        Upgrade::Brakes => (u, Params { has_brakes: true, ..p }, false),
        Upgrade::Missiles { next } => (
            Upgrade::Missiles { next: sat_add(next as int, 5) as u64 },
            Params { rocket_stockpile: sat_add(p.rocket_stockpile as int, next as int) as u64, ..p },
            true,
        ),
        Upgrade::MissileReload => (
            u,
            Params { rocket_reload_ms: (p.rocket_reload_ms * 4 / 5) as u64, ..p },
            p.rocket_reload_ms * 4 / 5 > 50,
        ),
        Upgrade::BulletReload => (
            u,
            Params { bullet_reload_ms: (p.bullet_reload_ms * 4 / 5) as u64, ..p },
            p.bullet_reload_ms * 4 / 5 > 50,
        ),
        Upgrade::MissileProduction => (
            u,
            Params { rocket_production: sat_add(p.rocket_production as int, 300) as u64, ..p },
            true,
        ),
        Upgrade::Shields => if p.shield_regen == 0 {
            (u, Params { shields: SHIELD_UNIT, shield_regen: 100, ..p }, true)
        } else {
            (u, Params { shield_regen: sat_add(p.shield_regen as int, 500) as u64, ..p }, true)
        },
    }
}

fn add_sat_u64(a: u64, b: u64) -> (r: u64)
    ensures
        r == sat_add(a as int, b as int),
{
    if a > u64::MAX - b {
        u64::MAX
    } else {
        a + b
    }
}

impl Upgrade {
    /// Takes the upgrade: changes `p`, moves the upgrade's own counter on,
    /// and says whether the upgrade is still worth offering.
    pub fn apply(&mut self, p: &mut Params) -> (keep: bool)
        ensures
            (*final(self), *final(p), keep) == applied(*old(self), *old(p)),
    {
        match *self {
            Upgrade::Brakes => {
                p.has_brakes = true;
                false
            },
            Upgrade::Missiles { next } => {
                p.rocket_stockpile = add_sat_u64(p.rocket_stockpile, next);
                *self = Upgrade::Missiles { next: add_sat_u64(next, 5) };
                true
            },
            Upgrade::MissileReload => {
                p.rocket_reload_ms = p.rocket_reload_ms / 5 * 4 + p.rocket_reload_ms % 5 * 4 / 5;
                p.rocket_reload_ms > 50
            },
            Upgrade::BulletReload => {
                p.bullet_reload_ms = p.bullet_reload_ms / 5 * 4 + p.bullet_reload_ms % 5 * 4 / 5;
                p.bullet_reload_ms > 50
            },
            Upgrade::MissileProduction => {
                p.rocket_production = add_sat_u64(p.rocket_production, 300);
                true
            },
            Upgrade::Shields => {
                if p.shield_regen == 0 {
                    p.shields = SHIELD_UNIT;
                    p.shield_regen = 100;
                } else {
                    p.shield_regen = add_sat_u64(p.shield_regen, 500);
                }
                true
            },
        }
    }
}

impl Params {
    /// Whether shields are installed: taking the shield upgrade again then
    /// speeds up their regeneration instead of installing them.
    pub fn has_shields(&self) -> (r: bool)
        ensures
            r == (self.shield_regen != 0),
    {
        self.shield_regen != 0
    }
}

/// The upgrades a session starts with.
pub fn make_upgrades() -> (r: Vec<Upgrade>)
    ensures
        r@ == seq![
            Upgrade::Brakes,
            Upgrade::Missiles { next: 5 },
            Upgrade::MissileReload,
            Upgrade::BulletReload,
            Upgrade::MissileProduction,
            Upgrade::Shields,
        ],
{
    let mut r: Vec<Upgrade> = Vec::new();
    r.push(Upgrade::Brakes);
    r.push(Upgrade::Missiles { next: 5 });
    r.push(Upgrade::MissileReload);
    r.push(Upgrade::BulletReload);
    r.push(Upgrade::MissileProduction);
    r.push(Upgrade::Shields);
    assert(r@ =~= seq![
        Upgrade::Brakes,
        Upgrade::Missiles { next: 5 },
        Upgrade::MissileReload,
        Upgrade::BulletReload,
        Upgrade::MissileProduction,
        Upgrade::Shields,
    ]);
    r
}

/// A pending level-up prompt: a cursor and the offered upgrades, given as
/// distinct positions in the pool of available upgrades.
#[derive(Debug)]
pub struct LevelUp {
    pub selected: usize,
    pub upgrade_choices: Vec<usize>,
}

impl LevelUp {
    pub open spec fn wf(&self, pool_len: nat) -> bool {
        &&& 0 < self.upgrade_choices@.len()
        &&& self.selected < self.upgrade_choices@.len()
        &&& self.upgrade_choices@.no_duplicates()
        &&& forall|k: int|
            0 <= k < self.upgrade_choices@.len() ==> (#[trigger] self.upgrade_choices@[k])
                < pool_len
    }

    /// A prompt offering `choices` upgrades drawn without replacement from a
    /// pool of `pool_len`, or all of them when the pool is smaller.
    pub fn new(choices: usize, pool_len: usize) -> (r: LevelUp)
        ensures
            r.selected == 0,
            r.upgrade_choices@.len() == if choices < pool_len { choices } else { pool_len },
            r.upgrade_choices@.no_duplicates(),
            forall|k: int|
                0 <= k < r.upgrade_choices@.len() ==> (#[trigger] r.upgrade_choices@[k])
                    < pool_len,
    {
        let mut left: Vec<usize> = Vec::new();
        let mut i: usize = 0;
        while i < pool_len
            invariant
                0 <= i <= pool_len,
                left@ == Seq::new(i as nat, |k: int| k as usize),
            decreases pool_len - i,
        {
            left.push(i);
            i += 1;
            assert(left@ =~= Seq::new(i as nat, |k: int| k as usize));
        }
        let mut picked: Vec<usize> = Vec::new();
        let mut n: usize = 0;
        while n < choices && left.len() > 0
            invariant
                left@.len() + picked@.len() == pool_len,
                picked@.len() == n,
                n <= choices,
                left@.no_duplicates(),
                picked@.no_duplicates(),
                forall|a: int, b: int|
                    0 <= a < left@.len() && 0 <= b < picked@.len() ==> left@[a] != picked@[b],
                forall|k: int| 0 <= k < left@.len() ==> (#[trigger] left@[k]) < pool_len,
                forall|k: int| 0 <= k < picked@.len() ==> (#[trigger] picked@[k]) < pool_len,
            decreases choices - n,
        {
            let len = left.len();
            let i = random_between(0, (len % 0x10_0000) as i64);
            let i: usize = if i >= 0 && (i as usize) < len { i as usize } else { 0 };
            let ghost before = left@;
            let x = left.remove(i);
            proof {
                before.remove_ensures(i as int);
            }
            picked.push(x);
            n += 1;
        }
        LevelUp { selected: 0, upgrade_choices: picked }
    }

    /// Moves the cursor down (`down`) or up (`up`), wrapping around the
    /// offered upgrades.
    pub fn navigate(&mut self, up: bool, down: bool)
        requires
            old(self).upgrade_choices@.len() > 0,
            old(self).selected < old(self).upgrade_choices@.len(),
        ensures
            final(self).upgrade_choices == old(self).upgrade_choices,
            final(self).selected == if down {
                (old(self).selected + 1) % (old(self).upgrade_choices@.len() as int)
            } else if up {
                (old(self).selected + old(self).upgrade_choices@.len() - 1) % (
                old(self).upgrade_choices@.len() as int)
            } else {
                old(self).selected as int
            },
    {
        let len = self.upgrade_choices.len();
        if down {
            self.selected = (self.selected + 1) % len;
        } else if up {
            let s = self.selected;
            if s == 0 {
                assert((len + s - 1) % (len as int) == len - 1) by (nonlinear_arith)
                    requires
                        s == 0,
                        len > 0,
                ;
                self.selected = len - 1;
            } else {
                assert((len + s - 1) % (len as int) == s - 1) by (nonlinear_arith)
                    requires
                        0 < s < len,
                ;
                self.selected = s - 1;
            }
        }
    }
}

/// The threshold after `t`: ten percent more, rounded down, but at least
/// one more, and no more than `GROWTH_CAP`.
pub open spec fn next_threshold(t: int) -> int {
    let g = if t * 11 / 10 > t + 1 { t * 11 / 10 } else { t + 1 };
    if g > GROWTH_CAP { GROWTH_CAP as int } else { g }
}

/// How many levels `xp` experience buys from threshold `next` on.
pub open spec fn level_ups(xp: int, next: int) -> nat
    decreases xp,
{
    if next <= 0 || xp < next {
        0
    } else {
        1 + level_ups(xp - next, next_threshold(next))
    }
}

/// Experience left once `level_ups(xp, next)` levels are taken.
pub open spec fn xp_left(xp: int, next: int) -> int
    decreases xp,
{
    if next <= 0 || xp < next {
        xp
    } else {
        xp_left(xp - next, next_threshold(next))
    }
}

/// The threshold once `level_ups(xp, next)` levels are taken.
pub open spec fn threshold_left(xp: int, next: int) -> int
    decreases xp,
{
    if next <= 0 || xp < next {
        next
    } else {
        threshold_left(xp - next, next_threshold(next))
    }
}

/// Experience and level of the player.
#[derive(Clone, Copy, Debug, PartialEq, Eq, Structural)]
pub struct Progress {
    pub level: u64,
    pub xp: u64,
    pub next_level_xp: u64,
}

impl Progress {
    pub open spec fn wf(&self) -> bool {
        0 < self.next_level_xp <= GROWTH_CAP
    }

    /// Takes every level that the experience reaches: each subtracts the
    /// threshold from the experience and raises the threshold. Returns how
    /// many levels were taken. Afterwards the experience is below the
    /// threshold.
    pub fn take_levels(&mut self) -> (gained: u64)
        requires
            old(self).wf(),
        ensures
            final(self).wf(),
            gained == level_ups(old(self).xp as int, old(self).next_level_xp as int),
            final(self).xp == xp_left(old(self).xp as int, old(self).next_level_xp as int),
            final(self).next_level_xp == threshold_left(
                old(self).xp as int,
                old(self).next_level_xp as int,
            ),
            final(self).level == sat_add(old(self).level as int, gained as int),
            final(self).xp < final(self).next_level_xp,
    {
        let ghost xp0 = self.xp as int;
        let ghost next0 = self.next_level_xp as int;
        let ghost level0 = self.level as int;
        let mut gained: u64 = 0;
        while self.xp >= self.next_level_xp
            invariant
                self.wf(),
                gained <= xp0 <= u64::MAX,
                gained + level_ups(self.xp as int, self.next_level_xp as int) == level_ups(xp0, next0),
                xp_left(self.xp as int, self.next_level_xp as int) == xp_left(xp0, next0),
                threshold_left(self.xp as int, self.next_level_xp as int) == threshold_left(xp0, next0),
                self.level == sat_add(level0, gained as int),
                self.xp + gained <= xp0,
            decreases self.xp,
        {
            assert(gained < xp0);
            self.xp = self.xp - self.next_level_xp;
            let t = self.next_level_xp;
            let g = if t / 10 * 11 + t % 10 * 11 / 10 > t + 1 { t / 10 * 11 + t % 10 * 11 / 10 } else { t + 1 };
            assert(t / 10 * 11 + t % 10 * 11 / 10 == t * 11 / 10) by (nonlinear_arith)
                requires
                    t >= 0,
            ;
            self.next_level_xp = if g > GROWTH_CAP { GROWTH_CAP } else { g };
            self.level = add_sat_u64(self.level, 1);
            gained = gained + 1;
        }
        gained
    }
}

/// However much experience comes in, taking levels leaves it below the
/// threshold.
pub proof fn lemma_xp_below_threshold(xp: int, next: int)
    requires
        0 < next,
        0 <= xp,
    ensures
        xp_left(xp, next) < threshold_left(xp, next),
        0 < threshold_left(xp, next),
    decreases xp,
{
    if xp >= next {
        lemma_xp_below_threshold(xp - next, next_threshold(next));
    }
}

/// Experience exactly at the threshold gives exactly one level.
pub proof fn lemma_exact_threshold_one_level(next: int)
    requires
        0 < next,
    ensures
        level_ups(next, next) == 1,
        xp_left(next, next) == 0,
{
    assert(next_threshold(next) > 0);
    assert(level_ups(0, next_threshold(next)) == 0);
    assert(xp_left(0, next_threshold(next)) == 0);
}

} // verus!
