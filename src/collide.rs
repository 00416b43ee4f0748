//! Collisions of asteroids with the ship, bullets and rockets.
use vstd::prelude::*;
use crate::entity::{
    fragment, is_fragment, Asteroid, Bullet, Rocket, Ship, BULLET_RADIUS, ROCKET_SIZE, SHIP_RADIUS,
};
use crate::geom::{
    add_clamped, add_sat, bounded, clamp, clamp_i128, dist_sq, div_t, div_trunc, dot, dot_exec,
    norm_sq, norm_sq_exec, sub_vec, within, Vec2, POS_LIMIT, VEL_LIMIT,
};
use crate::progression::SHIELD_UNIT;

verus! {

/// Milliseconds of invulnerability that a spent shield unit buys.
pub const INVULNERABLE_MS: u64 = 300;

/// How many times its projection on the contact axis the ship loses when
/// a shield bounces it off an asteroid.
pub const BOUNCE: i64 = 6;

pub open spec fn bullet_strikes(b: Bullet, a: Asteroid) -> bool {
    !b.collided && dist_sq(a.pos, b.pos) < (a.size + BULLET_RADIUS) * (a.size + BULLET_RADIUS)
}

pub open spec fn rocket_strikes(r: Rocket, a: Asteroid) -> bool {
    !r.collided && dist_sq(a.pos, r.pos) < (a.size + ROCKET_SIZE) * (a.size + ROCKET_SIZE)
}

pub open spec fn touches_ship(a: Asteroid, ship: Ship) -> bool {
    dist_sq(a.pos, ship.pos) < (a.size + SHIP_RADIUS) * (a.size + SHIP_RADIUS)
}

/// `k` is the first bullet that strikes `a`.
pub open spec fn first_bullet(s: Seq<Bullet>, a: Asteroid, k: int) -> bool {
    0 <= k < s.len() && bullet_strikes(s[k], a) && forall|j: int|
        0 <= j < k ==> !bullet_strikes(#[trigger] s[j], a)
}

pub open spec fn first_rocket(s: Seq<Rocket>, a: Asteroid, k: int) -> bool {
    0 <= k < s.len() && rocket_strikes(s[k], a) && forall|j: int|
        0 <= j < k ==> !rocket_strikes(#[trigger] s[j], a)
}

/// Flags the first bullet that strikes `a` and returns its velocity.
pub fn strike_by_bullet(a: &Asteroid, bullets: &mut Vec<Bullet>) -> (hit: Option<Vec2>)
    requires
        bounded(a.pos, POS_LIMIT as int),
        0 <= a.size <= POS_LIMIT - BULLET_RADIUS,
        forall|i: int| 0 <= i < old(bullets)@.len() ==> (#[trigger] old(bullets)@[i]).wf(),
    ensures
        forall|i: int| 0 <= i < final(bullets)@.len() ==> (#[trigger] final(bullets)@[i]).wf(),
        hit.is_none() ==> final(bullets)@ == old(bullets)@ && forall|k: int|
            0 <= k < old(bullets)@.len() ==> !bullet_strikes(#[trigger] old(bullets)@[k], *a),
        hit.is_some() ==> exists|k: int|
            first_bullet(old(bullets)@, *a, k) && hit.unwrap() == old(bullets)@[k].vel
                && final(bullets)@ == old(bullets)@.update(
                k,
                Bullet { collided: true, ..old(bullets)@[k] },
            ),
{
    let mut i: usize = 0;
    while i < bullets.len()
        invariant
            bounded(a.pos, POS_LIMIT as int),
            0 <= a.size <= POS_LIMIT - BULLET_RADIUS,
            bullets@ == old(bullets)@,
            forall|k: int| 0 <= k < bullets@.len() ==> (#[trigger] bullets@[k]).wf(),
            forall|k: int| 0 <= k < i ==> !bullet_strikes(#[trigger] bullets@[k], *a),
        decreases bullets@.len() - i,
    {
        let b = bullets[i];
        if !b.collided && within(a.pos, b.pos, a.size + BULLET_RADIUS) {
            let ghost k = i as int;
            bullets.set(i, Bullet { collided: true, ..b });
            assert(first_bullet(old(bullets)@, *a, k));
            return Some(b.vel);
        }
        i += 1;
    }
    None
}

/// Flags the first rocket that strikes `a` and returns its velocity.
pub fn strike_by_rocket(a: &Asteroid, rockets: &mut Vec<Rocket>) -> (hit: Option<Vec2>)
    requires
        bounded(a.pos, POS_LIMIT as int),
        0 <= a.size <= POS_LIMIT - ROCKET_SIZE,
        forall|i: int| 0 <= i < old(rockets)@.len() ==> (#[trigger] old(rockets)@[i]).wf(),
    ensures
        forall|i: int| 0 <= i < final(rockets)@.len() ==> (#[trigger] final(rockets)@[i]).wf(),
        hit.is_none() ==> final(rockets)@ == old(rockets)@ && forall|k: int|
            0 <= k < old(rockets)@.len() ==> !rocket_strikes(#[trigger] old(rockets)@[k], *a),
        hit.is_some() ==> exists|k: int|
            first_rocket(old(rockets)@, *a, k) && hit.unwrap() == old(rockets)@[k].vel
                && final(rockets)@ == old(rockets)@.update(
                k,
                Rocket { collided: true, ..old(rockets)@[k] },
            ),
{
    let mut i: usize = 0;
    while i < rockets.len()
        invariant
            bounded(a.pos, POS_LIMIT as int),
            0 <= a.size <= POS_LIMIT - ROCKET_SIZE,
            rockets@ == old(rockets)@,
            forall|k: int| 0 <= k < rockets@.len() ==> (#[trigger] rockets@[k]).wf(),
            forall|k: int| 0 <= k < i ==> !rocket_strikes(#[trigger] rockets@[k], *a),
        decreases rockets@.len() - i,
    {
        let r = rockets[i];
        if !r.collided && within(a.pos, r.pos, a.size + ROCKET_SIZE) {
            let ghost k = i as int;
            rockets.set(i, Rocket { collided: true, ..r });
            assert(first_rocket(old(rockets)@, *a, k));
            return Some(r.vel);
        }
        i += 1;
    }
    None
}

/// The ship's velocity after a shield bounce off an asteroid in direction
/// `c`: it loses six times its projection on `c` (nothing when `c` is zero;
/// the projection is limited to the velocity bound first).
pub open spec fn bounced(v: Vec2, c: Vec2) -> Vec2 {
    if norm_sq(c) == 0 {
        v
    } else {
        let px = clamp(div_t(dot(v, c) * c.x, norm_sq(c)), VEL_LIMIT as int);
        let py = clamp(div_t(dot(v, c) * c.y, norm_sq(c)), VEL_LIMIT as int);
        add_sat(v, Vec2 { x: (-BOUNCE * px) as i64, y: (-BOUNCE * py) as i64 }, VEL_LIMIT as int)
    }
}

proof fn lemma_product_bound(a: int, b: int, la: int, lb: int)
    requires
        -la <= a <= la,
        -lb <= b <= lb,
    ensures
        -la * lb <= a * b <= la * lb,
{
    assert(-la * lb <= a * b <= la * lb) by (nonlinear_arith)
        requires
            -la <= a <= la,
            -lb <= b <= lb,
    ;
}

pub fn bounce(v: Vec2, c: Vec2) -> (r: Vec2)
    requires
        bounded(v, VEL_LIMIT as int),
        bounded(c, 2 * POS_LIMIT),
    ensures
        r == bounced(v, c),
        bounded(r, VEL_LIMIT as int),
{
    let n = norm_sq_exec(c);
    if n == 0 {
        return v;
    }
    let d = dot_exec(v, c);
    let (cx, cy) = (c.x as i128, c.y as i128);
    assert(-0x400_0000_0000_0000_0000 <= d <= 0x400_0000_0000_0000_0000) by (nonlinear_arith)
        requires
            d == v.x * c.x + v.y * c.y,
            -0x4000_0000 <= v.x <= 0x4000_0000,
            -0x4000_0000 <= v.y <= 0x4000_0000,
            -0x200_0000_0000 <= c.x <= 0x200_0000_0000,
            -0x200_0000_0000 <= c.y <= 0x200_0000_0000,
    ;
    proof {
        lemma_product_bound(d as int, cx as int, 0x400_0000_0000_0000_0000, 0x200_0000_0000);
        lemma_product_bound(d as int, cy as int, 0x400_0000_0000_0000_0000, 0x200_0000_0000);
        assert(0x400_0000_0000_0000_0000 * 0x200_0000_0000 <= i128::MAX);
    }
    let px = clamp_i128(div_trunc(d * cx, n as i128), VEL_LIMIT);
    let py = clamp_i128(div_trunc(d * cy, n as i128), VEL_LIMIT);
    assert(-VEL_LIMIT <= px <= VEL_LIMIT && -VEL_LIMIT <= py <= VEL_LIMIT);
    assert(BOUNCE == 6);
    let bx = -(BOUNCE * px);
    let by = -(BOUNCE * py);
    add_clamped(v, Vec2 { x: bx, y: by }, VEL_LIMIT)
}

/// `k` is the first asteroid of `s` in contact with the ship.
pub open spec fn first_touch(s: Seq<Asteroid>, ship: Ship, k: int) -> bool {
    0 <= k < s.len() && touches_ship(s[k], ship) && forall|j: int|
        0 <= j < k ==> !touches_ship(#[trigger] s[j], ship)
}

pub open spec fn any_touch(s: Seq<Asteroid>, ship: Ship) -> bool {
    exists|k: int| 0 <= k < s.len() && #[trigger] touches_ship(s[k], ship)
}

/// Asteroid `i` was destroyed in this pass.
pub open spec fn destroyed(old: Seq<Asteroid>, new: Seq<Asteroid>, i: int) -> bool {
    new[i].collided && !old[i].collided
}

/// Number of asteroids among the first `n` destroyed in this pass.
pub open spec fn destroyed_count(old: Seq<Asteroid>, new: Seq<Asteroid>, n: int) -> nat
    decreases n,
{
    if n <= 0 {
        0
    } else {
        destroyed_count(old, new, n - 1) + if destroyed(old, new, n - 1) { 1nat } else { 0nat }
    }
}

/// Number of fragments that the asteroids among the first `n` destroyed in
/// this pass leave: two for each with more than 3 sides.
pub open spec fn fragment_count(old: Seq<Asteroid>, new: Seq<Asteroid>, n: int) -> nat
    decreases n,
{
    if n <= 0 {
        0
    } else {
        fragment_count(old, new, n - 1) + if destroyed(old, new, n - 1) && old[n - 1].sides > 3 {
            2nat
        } else {
            0nat
        }
    }
}

/// Some projectile of the pools before the pass reaches asteroid `a`.
pub open spec fn struck(bs: Seq<Bullet>, rs: Seq<Rocket>, a: Asteroid) -> bool {
    (exists|k: int| 0 <= k < bs.len() && #[trigger] bullet_strikes(bs[k], a)) || (exists|k: int|
        0 <= k < rs.len() && #[trigger] rocket_strikes(rs[k], a))
}

/// Setting collided flags can only take projectiles out of reach.
proof fn lemma_struck_monotone(
    b0: Seq<Bullet>,
    b1: Seq<Bullet>,
    r0: Seq<Rocket>,
    r1: Seq<Rocket>,
    a: Asteroid,
)
    requires
        only_bullets_flagged(b0, b1),
        only_rockets_flagged(r0, r1),
    ensures
        struck(b1, r1, a) ==> struck(b0, r0, a),
{
    if exists|k: int| 0 <= k < b1.len() && #[trigger] bullet_strikes(b1[k], a) {
        let k = choose|k: int| 0 <= k < b1.len() && #[trigger] bullet_strikes(b1[k], a);
        assert(b1[k] == (Bullet { collided: b1[k].collided, ..b0[k] }));
        assert(bullet_strikes(b0[k], a));
    }
    if exists|k: int| 0 <= k < r1.len() && #[trigger] rocket_strikes(r1[k], a) {
        let k = choose|k: int| 0 <= k < r1.len() && #[trigger] rocket_strikes(r1[k], a);
        assert(r1[k] == (Rocket { collided: r1[k].collided, ..r0[k] }));
        assert(rocket_strikes(r0[k], a));
    }
}

/// `f` is a fragment of an asteroid destroyed in this pass.
pub open spec fn fragment_of_destroyed(old: Seq<Asteroid>, new: Seq<Asteroid>, f: Asteroid, n_shapes: nat) -> bool {
    exists|i: int, hit: Vec2, second: bool|
        0 <= i < old.len() && destroyed(old, new, i) && bounded(hit, VEL_LIMIT as int)
            && #[trigger] is_fragment(f, old[i], hit, second, n_shapes)
}

/// Whether the first contact of this pass spends a shield unit.
pub open spec fn spends_shield(was_colliding: bool, touched: bool, shields: u64) -> bool {
    !was_colliding && touched && shields >= SHIELD_UNIT
}

/// Only the collided flags of a pool of bullets changed, and only to set.
pub open spec fn only_bullets_flagged(old: Seq<Bullet>, new: Seq<Bullet>) -> bool {
    &&& new.len() == old.len()
    &&& forall|k: int|
        0 <= k < old.len() ==> #[trigger] new[k] == (Bullet { collided: new[k].collided, ..old[k] })
    &&& forall|k: int| 0 <= k < old.len() && old[k].collided ==> #[trigger] new[k].collided
}

pub open spec fn only_rockets_flagged(old: Seq<Rocket>, new: Seq<Rocket>) -> bool {
    &&& new.len() == old.len()
    &&& forall|k: int|
        0 <= k < old.len() ==> #[trigger] new[k] == (Rocket { collided: new[k].collided, ..old[k] })
    &&& forall|k: int| 0 <= k < old.len() && old[k].collided ==> #[trigger] new[k].collided
}

proof fn lemma_counts_prefix(a0: Seq<Asteroid>, s1: Seq<Asteroid>, s2: Seq<Asteroid>, n: int)
    requires
        0 <= n <= s1.len(),
        n <= s2.len(),
        forall|k: int| 0 <= k < n ==> s1[k] == s2[k],
    ensures
        destroyed_count(a0, s1, n) == destroyed_count(a0, s2, n),
        fragment_count(a0, s1, n) == fragment_count(a0, s2, n),
    decreases n,
{
    if n > 0 {
        lemma_counts_prefix(a0, s1, s2, n - 1);
    }
}

/// The result of a collision pass that did not end the session: which
/// asteroids and projectiles were destroyed, what the ship's shields and
/// velocity became, and the fragments the destroyed asteroids left.
pub open spec fn contact_result(
    a0: Seq<Asteroid>,
    b0: Seq<Bullet>,
    r0: Seq<Rocket>,
    ship0: Ship,
    sh0: u64,
    inv0: u64,
    was_colliding: bool,
    now: u64,
    n: nat,
    a1: Seq<Asteroid>,
    b1: Seq<Bullet>,
    r1: Seq<Rocket>,
    ship1: Ship,
    sh1: u64,
    inv1: u64,
    colliding: bool,
    kills: u64,
    frags: Seq<Asteroid>,
) -> bool {
    let spent = spends_shield(
        was_colliding,
        any_touch(a0, ship0),
        sh0,
    );
    &&& colliding == any_touch(a0, ship0)
    &&& sh1 == if spent { sh0 - SHIELD_UNIT } else { sh0 as int }
    &&& inv1 == if spent {
        now + INVULNERABLE_MS
    } else {
        inv0 as int
    }
    &&& ship1.pos == ship0.pos
    &&& ship1.rot == ship0.rot
    &&& (!was_colliding && colliding) ==> exists|k: int|
        first_touch(a0, ship0, k) && ship1.vel == bounced(
            ship0.vel,
            Vec2 {
                x: (a0[k].pos.x - ship0.pos.x) as i64,
                y: (a0[k].pos.y - ship0.pos.y) as i64,
            },
        )
    &&& !(!was_colliding && colliding) ==> ship1.vel == ship0.vel
    &&& a1.len() == a0.len()
    &&& forall|i: int|
        0 <= i < a0.len() ==> #[trigger] a1[i] == (Asteroid {
            collided: a1[i].collided,
            ..a0[i]
        })
    &&& forall|i: int|
        0 <= i < a0.len() && a0[i].collided
            ==> #[trigger] a1[i].collided
    &&& forall|i: int|
        0 <= i < a0.len() && #[trigger] destroyed(
            a0,
            a1,
            i,
        ) ==> struck(b0, r0, a0[i])
    &&& forall|i: int|
        0 <= i < a0.len() && !a0[i].collided && #[trigger] struck(
            b1,
            r1,
            a0[i],
        ) ==> a1[i].collided
    &&& forall|k: int|
        0 <= k < b0.len() && !b0[k].collided && #[trigger] b1[k].collided ==> exists|i: int|
            0 <= i < a0.len() && destroyed(a0, a1, i) && #[trigger] bullet_strikes(b0[k], a0[i])
    &&& forall|k: int|
        0 <= k < r0.len() && !r0[k].collided && #[trigger] r1[k].collided ==> exists|i: int|
            0 <= i < a0.len() && destroyed(a0, a1, i) && #[trigger] rocket_strikes(r0[k], a0[i])
    &&& kills == destroyed_count(
        a0,
        a1,
        a0.len() as int,
    )
    &&& frags.len() == fragment_count(
        a0,
        a1,
        a0.len() as int,
    )
    &&& forall|k: int|
        0 <= k < frags.len() ==> fragment_of_destroyed(
            a0,
            a1,
            #[trigger] frags[k],
            n,
        )
    &&& forall|k: int|
        0 <= k < frags.len() ==> (#[trigger] frags[k]).wf(n)
    &&& only_bullets_flagged(b0, b1)
    &&& only_rockets_flagged(r0, r1)
    &&& forall|i: int| 0 <= i < b1.len() ==> (#[trigger] b1[i]).wf()
    &&& forall|i: int| 0 <= i < r1.len() ==> (#[trigger] r1[i]).wf()
    &&& forall|i: int|
        0 <= i < a1.len() ==> (#[trigger] a1[i]).wf(
            n,
        )
    &&& ship1.wf()
}

/// Whether the first contact of a pass ends the session.
pub open spec fn fatal_contact(
    a0: Seq<Asteroid>,
    ship0: Ship,
    sh0: u64,
    inv0: u64,
    was_colliding: bool,
    now: u64,
) -> bool {
    !was_colliding && any_touch(a0, ship0) && sh0 < SHIELD_UNIT && now >= inv0
}

/// What one collision pass found.
#[derive(Debug)]
pub struct Contact {
    /// The ship met an asteroid with neither shield nor invulnerability.
    pub lost: bool,
    /// The ship touches an asteroid.
    pub colliding: bool,
    /// Asteroids destroyed.
    pub kills: u64,
    /// Fragments of the destroyed asteroids.
    pub fragments: Vec<Asteroid>,
}

/// One collision pass over the asteroids, in pool order. Each asteroid is
/// first checked against the ship: the first contact of a pass (unless the
/// ship was already touching one the tick before) spends a shield unit if
/// there is one, buying a moment of invulnerability; an invulnerable ship
/// bounces off, and a ship that is not is lost. Then the first bullet that
/// reaches the asteroid, or failing that the first rocket, destroys it:
/// both are flagged, and the asteroid splits along the projectile's path.
pub fn resolve_collisions(
    asteroids: &mut Vec<Asteroid>,
    bullets: &mut Vec<Bullet>,
    rockets: &mut Vec<Rocket>,
    ship: &mut Ship,
    shields: &mut u64,
    invulnerable_until: &mut u64,
    was_colliding: bool,
    now: u64,
    n_shapes: usize,
) -> (c: Contact)
    requires
        n_shapes > 0,
        now <= u64::MAX - INVULNERABLE_MS,
        old(ship).wf(),
        forall|i: int|
            0 <= i < old(asteroids)@.len() ==> (#[trigger] old(asteroids)@[i]).wf(n_shapes as nat),
        forall|i: int| 0 <= i < old(bullets)@.len() ==> (#[trigger] old(bullets)@[i]).wf(),
        forall|i: int| 0 <= i < old(rockets)@.len() ==> (#[trigger] old(rockets)@[i]).wf(),
    ensures
        c.lost <==> fatal_contact(
            old(asteroids)@,
            *old(ship),
            *old(shields),
            *old(invulnerable_until),
            was_colliding,
            now,
        ),
        !c.lost ==> contact_result(
            old(asteroids)@,
            old(bullets)@,
            old(rockets)@,
            *old(ship),
            *old(shields),
            *old(invulnerable_until),
            was_colliding,
            now,
            n_shapes as nat,
            final(asteroids)@,
            final(bullets)@,
            final(rockets)@,
            *final(ship),
            *final(shields),
            *final(invulnerable_until),
            c.colliding,
            c.kills,
            c.fragments@,
        ),
{
    let ghost a0 = asteroids@;
    let ghost b0 = bullets@;
    let ghost r0 = rockets@;
    let ghost ship0 = *ship;
    let ghost shields0 = *shields;
    let ghost inv0 = *invulnerable_until;
    let mut colliding = false;
    let mut kills: u64 = 0;
    let mut fragments: Vec<Asteroid> = Vec::new();
    let mut i: usize = 0;
    while i < asteroids.len()
        invariant
            n_shapes > 0,
            now <= u64::MAX - INVULNERABLE_MS,
            a0 == old(asteroids)@,
            b0 == old(bullets)@,
            r0 == old(rockets)@,
            ship0 == *old(ship),
            shields0 == *old(shields),
            inv0 == *old(invulnerable_until),
            0 <= i <= a0.len(),
            asteroids@.len() == a0.len(),
            forall|k: int| 0 <= k < a0.len() ==> (#[trigger] a0[k]).wf(n_shapes as nat),
            forall|k: int| 0 <= k < a0.len() ==> (#[trigger] asteroids@[k]).wf(n_shapes as nat),
            forall|k: int|
                0 <= k < a0.len() ==> #[trigger] asteroids@[k] == (Asteroid {
                    collided: asteroids@[k].collided,
                    ..a0[k]
                }),
            forall|k: int| 0 <= k < a0.len() && a0[k].collided ==> #[trigger] asteroids@[k].collided,
            forall|k: int| i <= k < a0.len() ==> #[trigger] asteroids@[k] == a0[k],
            forall|k: int|
                0 <= k < a0.len() && #[trigger] destroyed(a0, asteroids@, k) ==> struck(
                    b0,
                    r0,
                    a0[k],
                ),
            kills == destroyed_count(a0, asteroids@, i as int),
            kills <= i,
            forall|k: int|
                0 <= k < i && !a0[k].collided && #[trigger] struck(bullets@, rockets@, a0[k])
                    ==> asteroids@[k].collided,
            fragments@.len() == fragment_count(a0, asteroids@, i as int),
            forall|k: int|
                0 <= k < fragments@.len() ==> fragment_of_destroyed(
                    a0,
                    asteroids@,
                    #[trigger] fragments@[k],
                    n_shapes as nat,
                ),
            forall|k: int| 0 <= k < fragments@.len() ==> (#[trigger] fragments@[k]).wf(n_shapes as nat),
            only_bullets_flagged(b0, bullets@),
            only_rockets_flagged(r0, rockets@),
            forall|k: int|
                0 <= k < b0.len() && !b0[k].collided && #[trigger] bullets@[k].collided ==> exists|j: int|
                    0 <= j < a0.len() && destroyed(a0, asteroids@, j) && #[trigger] bullet_strikes(b0[k], a0[j]),
            forall|k: int|
                0 <= k < r0.len() && !r0[k].collided && #[trigger] rockets@[k].collided ==> exists|j: int|
                    0 <= j < a0.len() && destroyed(a0, asteroids@, j) && #[trigger] rocket_strikes(r0[k], a0[j]),
            forall|k: int| 0 <= k < b0.len() ==> (#[trigger] b0[k]).wf(),
            forall|k: int| 0 <= k < r0.len() ==> (#[trigger] r0[k]).wf(),
            forall|k: int| 0 <= k < bullets@.len() ==> (#[trigger] bullets@[k]).wf(),
            forall|k: int| 0 <= k < rockets@.len() ==> (#[trigger] rockets@[k]).wf(),
            ship0.wf(),
            ship.wf(),
            ship.pos == ship0.pos,
            ship.rot == ship0.rot,
            colliding == exists|k: int| 0 <= k < i && #[trigger] touches_ship(a0[k], ship0),
            !colliding ==> *ship == ship0 && *shields == shields0 && *invulnerable_until == inv0,
            colliding ==> {
                let spent = spends_shield(was_colliding, true, shields0);
                &&& *shields == if spent { shields0 - SHIELD_UNIT } else { shields0 as int }
                &&& *invulnerable_until == if spent {
                    now + INVULNERABLE_MS
                } else {
                    inv0 as int
                }
                &&& !was_colliding ==> !(shields0 < SHIELD_UNIT && now >= inv0)
                &&& !was_colliding ==> exists|k: int|
                    first_touch(a0, ship0, k) && ship.vel == bounced(
                        ship0.vel,
                        Vec2 {
                            x: (a0[k].pos.x - ship0.pos.x) as i64,
                            y: (a0[k].pos.y - ship0.pos.y) as i64,
                        },
                    )
                &&& was_colliding ==> ship.vel == ship0.vel
            },
        decreases a0.len() - i,
    {
        let mut a = asteroids[i];
        let ghost bb0 = bullets@;
        let ghost rr0 = rockets@;
        if within(a.pos, ship.pos, a.size + SHIP_RADIUS) {
            if !colliding && !was_colliding {
                if *shields >= SHIELD_UNIT {
                    *shields = *shields - SHIELD_UNIT;
                    *invulnerable_until = now + INVULNERABLE_MS;
                }
                if now < *invulnerable_until {
                    ship.vel = bounce(ship.vel, sub_vec(a.pos, ship.pos));
                    assert(first_touch(a0, ship0, i as int));
                } else {
                    assert(touches_ship(a0[i as int], ship0));
                    assert(any_touch(a0, ship0));
                    assert(shields0 < SHIELD_UNIT);
                    assert(now >= inv0);
                    return Contact { lost: true, colliding: true, kills, fragments };
                }
            }
            colliding = true;
        }
        if !a.collided {
            let ghost bb = bullets@;
            let ghost rr = rockets@;
            let mut hit = strike_by_bullet(&a, bullets);
            proof {
                if hit.is_some() {
                    let k = choose|k: int|
                        first_bullet(bb, a, k) && hit.unwrap() == bb[k].vel && bullets@ == bb.update(
                            k,
                            Bullet { collided: true, ..bb[k] },
                        );
                    assert(bullet_strikes(b0[k], a0[i as int]));
                    assert(bullets@[k].collided && !bb[k].collided);
                }
            }
            if hit.is_none() {
                hit = strike_by_rocket(&a, rockets);
                proof {
                    if hit.is_some() {
                        let k = choose|k: int|
                            first_rocket(rr, a, k) && hit.unwrap() == rr[k].vel && rockets@ == rr.update(
                                k,
                                Rocket { collided: true, ..rr[k] },
                            );
                        assert(rocket_strikes(r0[k], a0[i as int]));
                    }
                }
            }
            if let Some(h) = hit {
                a.collided = true;
                let ghost before = asteroids@;
                asteroids.set(i, a);
                kills = kills + 1;
                let mut parts = fragment(&a, h, n_shapes);
                let ghost fb = fragments@;
                fragments.append(&mut parts);
                proof {
                    lemma_counts_prefix(a0, before, asteroids@, i as int);
                    assert(destroyed(a0, asteroids@, i as int));
                    assert forall|k: int|
                        0 <= k < b0.len() && !b0[k].collided && #[trigger] bullets@[k].collided implies exists|j: int|
                            0 <= j < a0.len() && destroyed(a0, asteroids@, j) && #[trigger] bullet_strikes(b0[k], a0[j]) by {
                        if bb0[k].collided {
                            let j = choose|j: int|
                                0 <= j < a0.len() && destroyed(a0, before, j) && #[trigger] bullet_strikes(b0[k], a0[j]);
                            assert(destroyed(a0, asteroids@, j));
                        } else {
                            assert(bullet_strikes(b0[k], a0[i as int]));
                        }
                    }
                    assert forall|k: int|
                        0 <= k < r0.len() && !r0[k].collided && #[trigger] rockets@[k].collided implies exists|j: int|
                            0 <= j < a0.len() && destroyed(a0, asteroids@, j) && #[trigger] rocket_strikes(r0[k], a0[j]) by {
                        if rr0[k].collided {
                            let j = choose|j: int|
                                0 <= j < a0.len() && destroyed(a0, before, j) && #[trigger] rocket_strikes(r0[k], a0[j]);
                            assert(destroyed(a0, asteroids@, j));
                        } else {
                            assert(rocket_strikes(r0[k], a0[i as int]));
                        }
                    }
                    assert forall|k: int|
                        0 <= k < a0.len() && #[trigger] destroyed(a0, asteroids@, k) implies struck(
                            b0,
                            r0,
                            a0[k],
                        ) by {
                        if k != i {
                            assert(destroyed(a0, before, k));
                        }
                    }
                    assert forall|k: int| 0 <= k < fragments@.len() implies fragment_of_destroyed(
                        a0,
                        asteroids@,
                        #[trigger] fragments@[k],
                        n_shapes as nat,
                    ) by {
                        if k < fb.len() {
                            assert(fragments@[k] == fb[k]);
                            let (j, hh, sec) = choose|j: int, hh: Vec2, sec: bool|
                                0 <= j < a0.len() && destroyed(a0, before, j) && bounded(
                                    hh,
                                    VEL_LIMIT as int,
                                ) && #[trigger] is_fragment(fb[k], a0[j], hh, sec, n_shapes as nat);
                            assert(destroyed(a0, asteroids@, j));
                        } else {
                            assert(is_fragment(fragments@[k], a0[i as int], h, k - fb.len() == 1, n_shapes as nat));
                        }
                    }
                    assert(struck(b0, r0, a0[i as int]));
                }
            }
        }
        proof {
            assert(only_bullets_flagged(bb0, bullets@));
            assert(only_rockets_flagged(rr0, rockets@));
            assert forall|k: int|
                0 <= k < i + 1 && !a0[k].collided && #[trigger] struck(bullets@, rockets@, a0[k])
                    implies asteroids@[k].collided by {
                lemma_struck_monotone(bb0, bullets@, rr0, rockets@, a0[k]);
            }
            let ii = i as int;
            if !touches_ship(a0[ii], ship0) {
                if exists|k: int| 0 <= k < ii + 1 && #[trigger] touches_ship(a0[k], ship0) {
                    let k = choose|k: int| 0 <= k < ii + 1 && #[trigger] touches_ship(a0[k], ship0);
                    assert(k < ii);
                }
            }
        }
        i += 1;
    }
    proof {
        if colliding {
            let k = choose|k: int| 0 <= k < i && #[trigger] touches_ship(a0[k], ship0);
            assert(touches_ship(a0[k], ship0));
            assert(any_touch(a0, ship0));
        }
        if any_touch(a0, ship0) {
            let k = choose|k: int| 0 <= k < a0.len() && #[trigger] touches_ship(a0[k], ship0);
            assert(colliding);
        }
    }
    Contact { lost: false, colliding, kills, fragments }
}

} // verus!
