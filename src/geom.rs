//! Fixed-point plane geometry: vectors in milli-pixels, square roots,
//! length clamping, rescaling and a sine for whole degrees.
use vstd::prelude::*;

verus! {

/// Milli-units in one unit (one pixel, or a unit direction vector).
pub const UNIT: i64 = 1000;

/// Largest coordinate a position may take, in milli-pixels.
pub const POS_LIMIT: i64 = 0x100_0000_0000;

/// Largest component a velocity may take, in milli-pixels per tick.
pub const VEL_LIMIT: i64 = 0x4000_0000;

/// A 2D vector in milli-pixels.
#[derive(Clone, Copy, Debug, PartialEq, Eq, Structural)]
pub struct Vec2 {
    pub x: i64,
    pub y: i64,
}

pub open spec fn abs(a: int) -> int {
    if a < 0 { -a } else { a }
}

/// Division that rounds toward zero, as Rust's `/` does on signed integers.
pub open spec fn div_t(a: int, b: int) -> int {
    if a >= 0 { a / b } else { -((-a) / b) }
}

pub open spec fn clamp(a: int, lim: int) -> int {
    if a > lim { lim } else if a < -lim { -lim } else { a }
}

pub open spec fn bounded(v: Vec2, lim: int) -> bool {
    -lim <= v.x <= lim && -lim <= v.y <= lim
}

pub open spec fn norm_sq(v: Vec2) -> int {
    v.x * v.x + v.y * v.y
}

pub open spec fn dot(a: Vec2, b: Vec2) -> int {
    a.x * b.x + a.y * b.y
}

pub open spec fn dist_sq(a: Vec2, b: Vec2) -> int {
    (a.x - b.x) * (a.x - b.x) + (a.y - b.y) * (a.y - b.y)
}

/// `l` is the smallest non-negative integer whose square reaches `n`.
pub open spec fn is_root_up(n: int, l: int) -> bool {
    l >= 0 && l * l >= n && (l == 0 || (l - 1) * (l - 1) < n)
}

/// The square root of `n`, rounded up.
pub open spec fn root_up(n: int) -> int {
    choose|l: int| is_root_up(n, l)
}

/// `v` scaled to length `k`, each component rounded toward zero.
pub open spec fn scaled(v: Vec2, k: int) -> Vec2 {
    Vec2 {
        x: div_t(v.x * k, root_up(norm_sq(v))) as i64,
        y: div_t(v.y * k, root_up(norm_sq(v))) as i64,
    }
}

/// `v` with its length limited to `cap`.
pub open spec fn clamped(v: Vec2, cap: int) -> Vec2 {
    if norm_sq(v) <= cap * cap { v } else { scaled(v, cap) }
}

/// `v` turned by a quarter turn, clockwise on screen (y points down).
pub open spec fn perp_cw(v: Vec2) -> Vec2 {
    Vec2 { x: v.y, y: (-v.x) as i64 }
}

/// `v` turned by a quarter turn, counter-clockwise on screen.
pub open spec fn perp_ccw(v: Vec2) -> Vec2 {
    Vec2 { x: (-v.y) as i64, y: v.x }
}

pub open spec fn add_sat(a: Vec2, b: Vec2, lim: int) -> Vec2 {
    Vec2 { x: clamp(a.x + b.x, lim) as i64, y: clamp(a.y + b.y, lim) as i64 }
}

proof fn lemma_square_monotone(a: int, b: int)
    requires
        0 <= a <= b,
    ensures
        a * a <= b * b,
{
    assert(a * a <= b * b) by (nonlinear_arith)
        requires
            0 <= a <= b,
    ;
}

pub proof fn lemma_root_up_unique(n: int, a: int, b: int)
    requires
        is_root_up(n, a),
        is_root_up(n, b),
    ensures
        a == b,
{
    if a < b {
        lemma_square_monotone(a, b - 1);
    } else if b < a {
        lemma_square_monotone(b, a - 1);
    }
}

/// What `root_up` names is the root that a computation found.
pub proof fn lemma_root_up(n: int, l: int)
    requires
        is_root_up(n, l),
    ensures
        root_up(n) == l,
{
    let c = choose|c: int| is_root_up(n, c);
    lemma_root_up_unique(n, c, l);
}

pub fn clamp_i128(a: i128, lim: i64) -> (r: i64)
    requires
        lim >= 0,
    ensures
        r == clamp(a as int, lim as int),
{
    if a > lim as i128 {
        lim
    } else if a < -(lim as i128) {
        -lim
    } else {
        a as i64
    }
}

/// Signed division rounding toward zero, by a positive divisor.
pub fn div_trunc(a: i128, b: i128) -> (r: i128)
    requires
        b > 0,
        a > i128::MIN,
    ensures
        r == div_t(a as int, b as int),
        abs(r as int) <= abs(a as int),
{
    if a >= 0 {
        a / b
    } else {
        let q = (-a) / b;
        assert(q <= -a) by (nonlinear_arith)
            requires
                q == (-a) as int / b as int,
                b > 0,
                -a > 0,
        ;
        -q
    }
}

/// Component-wise sum, each coordinate held within `[-lim, lim]`.
pub fn add_clamped(a: Vec2, b: Vec2, lim: i64) -> (r: Vec2)
    requires
        lim >= 0,
    ensures
        r == add_sat(a, b, lim as int),
        bounded(r, lim as int),
{
    Vec2 {
        x: clamp_i128(a.x as i128 + b.x as i128, lim),
        y: clamp_i128(a.y as i128 + b.y as i128, lim),
    }
}

pub fn sub_vec(a: Vec2, b: Vec2) -> (r: Vec2)
    requires
        bounded(a, POS_LIMIT as int),
        bounded(b, POS_LIMIT as int),
    ensures
        r == (Vec2 { x: (a.x - b.x) as i64, y: (a.y - b.y) as i64 }),
        bounded(r, 2 * POS_LIMIT),
{
    Vec2 { x: a.x - b.x, y: a.y - b.y }
}

pub fn norm_sq_exec(v: Vec2) -> (r: u128)
    requires
        bounded(v, 2 * POS_LIMIT),
    ensures
        r == norm_sq(v),
        r <= 8 * POS_LIMIT * POS_LIMIT * 2,
{
    let x = v.x as i128;
    let y = v.y as i128;
    assert(x * x <= 4 * POS_LIMIT * POS_LIMIT && y * y <= 4 * POS_LIMIT * POS_LIMIT)
        by (nonlinear_arith)
        requires
            -2 * POS_LIMIT <= x <= 2 * POS_LIMIT,
            -2 * POS_LIMIT <= y <= 2 * POS_LIMIT,
    ;
    assert(x * x >= 0 && y * y >= 0) by (nonlinear_arith);
    (x * x + y * y) as u128
}

pub fn dot_exec(a: Vec2, b: Vec2) -> (r: i128)
    requires
        bounded(a, 2 * POS_LIMIT),
        bounded(b, 2 * POS_LIMIT),
    ensures
        r == dot(a, b),
{
    let (ax, ay, bx, by) = (a.x as i128, a.y as i128, b.x as i128, b.y as i128);
    assert(abs(ax * bx) <= 4 * POS_LIMIT * POS_LIMIT && abs(ay * by) <= 4 * POS_LIMIT * POS_LIMIT)
        by (nonlinear_arith)
        requires
            -2 * POS_LIMIT <= ax <= 2 * POS_LIMIT,
            -2 * POS_LIMIT <= ay <= 2 * POS_LIMIT,
            -2 * POS_LIMIT <= bx <= 2 * POS_LIMIT,
            -2 * POS_LIMIT <= by <= 2 * POS_LIMIT,
    ;
    ax * bx + ay * by
}

/// Square of the distance between two positions.
pub fn dist_sq_exec(a: Vec2, b: Vec2) -> (r: u128)
    requires
        bounded(a, POS_LIMIT as int),
        bounded(b, POS_LIMIT as int),
    ensures
        r == dist_sq(a, b),
{
    norm_sq_exec(sub_vec(a, b))
}

/// Whether two circles around `a` and `b` whose radii sum to `r` overlap.
pub fn within(a: Vec2, b: Vec2, r: i64) -> (res: bool)
    requires
        bounded(a, POS_LIMIT as int),
        bounded(b, POS_LIMIT as int),
        0 <= r <= POS_LIMIT,
    ensures
        res == (dist_sq(a, b) < r * r),
{
    assert(r * r <= POS_LIMIT * POS_LIMIT) by (nonlinear_arith)
        requires
            0 <= r <= POS_LIMIT,
    ;
    let rr = (r as u128) * (r as u128);
    dist_sq_exec(a, b) < rr
}

/// The square root of `n`, rounded up.
pub fn sqrt_up(n: u128) -> (r: u128)
    requires
        n <= 0x1_0000_0000_0000_0000_0000_0000,
    ensures
        is_root_up(n as int, r as int),
        r <= 0x1_0000_0000_0000,
{
    // lo * lo < n <= hi * hi, or n == 0 and hi == 0
    if n == 0 {
        return 0;
    }
    let mut lo: u128 = 0;
    let mut hi: u128 = 0x1_0000_0000_0000;
    assert(hi * hi == 0x1_0000_0000_0000_0000_0000_0000);
    while lo + 1 < hi
        invariant
            lo < hi <= 0x1_0000_0000_0000,
            lo * lo < n <= hi * hi,
        decreases hi - lo,
    {
        let mid = lo + (hi - lo) / 2;
        assert(mid * mid <= 0x1_0000_0000_0000_0000_0000_0000) by (nonlinear_arith)
            requires
                mid < 0x1_0000_0000_0000,
        ;
        if mid * mid < n {
            lo = mid;
        } else {
            hi = mid;
        }
    }
    assert(hi == lo + 1);
    hi
}

proof fn lemma_scaled_norm(x: int, y: int, rx: int, ry: int, l: int, k: int)
    requires
        l > 0,
        k >= 0,
        l * l >= x * x + y * y,
        abs(rx) * l <= abs(x) * k,
        abs(ry) * l <= abs(y) * k,
    ensures
        rx * rx + ry * ry <= k * k,
{
    assert(rx * rx * (l * l) <= x * x * (k * k)) by (nonlinear_arith)
        requires
            abs(rx) * l <= abs(x) * k,
            l > 0,
            k >= 0,
    ;
    assert(ry * ry * (l * l) <= y * y * (k * k)) by (nonlinear_arith)
        requires
            abs(ry) * l <= abs(y) * k,
            l > 0,
            k >= 0,
    ;
    assert((rx * rx + ry * ry) * (l * l) <= (l * l) * (k * k)) by (nonlinear_arith)
        requires
            rx * rx * (l * l) <= x * x * (k * k),
            ry * ry * (l * l) <= y * y * (k * k),
            l * l >= x * x + y * y,
            k >= 0,
    ;
    assert(rx * rx + ry * ry <= k * k) by (nonlinear_arith)
        requires
            (rx * rx + ry * ry) * (l * l) <= (l * l) * (k * k),
            l > 0,
    ;
}

proof fn lemma_div_t_bound(a: int, b: int)
    requires
        b > 0,
    ensures
        abs(div_t(a, b)) * b <= abs(a),
        abs(a) < (abs(div_t(a, b)) + 1) * b,
        div_t(a, b) * a >= 0,
{
    let q = abs(a) / b;
    assert(q * b <= abs(a) < (q + 1) * b) by (nonlinear_arith)
        requires
            q == abs(a) / b,
            b > 0,
    ;
    assert(q >= 0) by (nonlinear_arith)
        requires
            q == abs(a) / b,
            b > 0,
            abs(a) >= 0,
    ;
    if a >= 0 {
        assert(div_t(a, b) * a >= 0) by (nonlinear_arith)
            requires
                div_t(a, b) == q,
                q >= 0,
                a >= 0,
        ;
    } else {
        assert(div_t(a, b) * a >= 0) by (nonlinear_arith)
            requires
                div_t(a, b) == -q,
                q >= 0,
                a < 0,
        ;
    }
}

proof fn lemma_abs_mul(a: int, b: int)
    ensures
        abs(a * b) == abs(a) * abs(b),
{
    assert(abs(a * b) == abs(a) * abs(b)) by (nonlinear_arith);
}

pub proof fn lemma_root_exists(n: int)
    requires
        0 <= n <= 8 * POS_LIMIT * POS_LIMIT,
    ensures
        is_root_up(n, root_up(n)),
{
    let l = root_exists_witness(n, 0);
    lemma_root_up(n, l);
}

proof fn root_exists_witness(n: int, lo: int) -> (l: int)
    requires
        0 <= lo,
        lo == 0 || (lo - 1) * (lo - 1) < n,
        0 <= n <= 8 * POS_LIMIT * POS_LIMIT,
    ensures
        is_root_up(n, l),
    decreases 4 * POS_LIMIT - lo,
{
    if lo * lo >= n {
        lo
    } else {
        if lo >= 4 * POS_LIMIT {
            assert(lo * lo >= 16 * POS_LIMIT * POS_LIMIT) by (nonlinear_arith)
                requires
                    lo >= 4 * POS_LIMIT,
            ;
        }
        root_exists_witness(n, lo + 1)
    }
}

pub proof fn lemma_scaled_fits(d: Vec2, speed: int, l: int)
    requires
        l == root_up(norm_sq(d)),
        is_root_up(norm_sq(d), l),
        norm_sq(d) > 0,
        bounded(d, 2 * POS_LIMIT),
        0 <= speed <= VEL_LIMIT,
    ensures
        scaled(d, speed).x == div_t(d.x * speed, l),
        scaled(d, speed).y == div_t(d.y * speed, l),
{
    assert(l > 0) by (nonlinear_arith)
        requires
            l * l >= norm_sq(d),
            norm_sq(d) > 0,
            l >= 0,
    ;
    assert(l * l >= d.x * d.x && l * l >= d.y * d.y) by (nonlinear_arith)
        requires
            l * l >= d.x * d.x + d.y * d.y,
    ;
    assert(abs(d.x as int) <= l && abs(d.y as int) <= l) by (nonlinear_arith)
        requires
            l * l >= d.x * d.x,
            l * l >= d.y * d.y,
            l > 0,
    ;
    let (dx, dy) = (d.x as int, d.y as int);
    assert(abs(dx * speed) == abs(dx) * speed && abs(dx) * speed <= l * speed)
        by (nonlinear_arith)
        requires
            speed >= 0,
            abs(dx) <= l,
    ;
    assert(abs(dy * speed) == abs(dy) * speed && abs(dy) * speed <= l * speed)
        by (nonlinear_arith)
        requires
            speed >= 0,
            abs(dy) <= l,
    ;
    lemma_div_fits(d.x * speed, l, abs(d.x as int) * speed, speed);
    lemma_div_fits(d.y * speed, l, abs(d.y as int) * speed, speed);
}

proof fn lemma_div_fits(a: int, l: int, aa: int, speed: int)
    requires
        l > 0,
        aa == abs(a),
        aa <= l * speed,
        0 <= speed <= VEL_LIMIT,
    ensures
        -0x8000_0000_0000_0000 <= div_t(a, l) < 0x8000_0000_0000_0000,
{
    let m = aa / l;
    assert(0 <= m <= speed) by (nonlinear_arith)
        requires
            m == aa / l,
            l > 0,
            0 <= aa <= l * speed,
    ;
}

/// A vector limited to a cap is within the cap.
pub proof fn lemma_clamped_within(v: Vec2, cap: int)
    requires
        bounded(v, 2 * POS_LIMIT),
        0 <= cap <= VEL_LIMIT,
    ensures
        norm_sq(clamped(v, cap)) <= cap * cap,
{
    let n = norm_sq(v);
    if n > cap * cap {
        let (x, y) = (v.x as int, v.y as int);
        assert(n <= 8 * POS_LIMIT * POS_LIMIT) by (nonlinear_arith)
            requires
                n == x * x + y * y,
                -2 * POS_LIMIT <= x <= 2 * POS_LIMIT,
                -2 * POS_LIMIT <= y <= 2 * POS_LIMIT,
        ;
        assert(cap * cap >= 0) by (nonlinear_arith);
        lemma_root_exists(n);
        let l = root_up(n);
        lemma_scaled_fits(v, cap, l);
        let s = scaled(v, cap);
        if l == 0 {
            assert(l * l == 0);
        }
        lemma_div_t_bound(x * cap, l);
        lemma_div_t_bound(y * cap, l);
        lemma_abs_mul(x, cap);
        lemma_abs_mul(y, cap);
        lemma_scaled_norm(x, y, s.x as int, s.y as int, l, cap);
    }
}

/// `v` scaled to length `k`, or `fallback` scaled to `k` when `v` is zero.
pub fn scale_to(v: Vec2, k: i64) -> (r: Vec2)
    requires
        bounded(v, 2 * POS_LIMIT),
        0 <= k <= VEL_LIMIT,
    ensures
        v != (Vec2 { x: 0, y: 0 }) ==> r == scaled(v, k as int),
        v == (Vec2 { x: 0, y: 0 }) ==> r == (Vec2 { x: 0, y: (-k) as i64 }),
        norm_sq(r) <= k * k,
        bounded(r, k as int),
{
    if v.x == 0 && v.y == 0 {
        let z = Vec2 { x: 0, y: (-k) as i64 };
        assert(z.y * z.y == k * k) by (nonlinear_arith)
            requires
                z.y == -k,
        ;
        assert(norm_sq(z) == k * k);
        return Vec2 { x: 0, y: -k };
    }
    let n = norm_sq_exec(v);
    assert(n > 0) by (nonlinear_arith)
        requires
            n == v.x * v.x + v.y * v.y,
            v.x != 0 || v.y != 0,
    ;
    let l = sqrt_up(n);
    proof {
        lemma_root_up(n as int, l as int);
        if l == 0 {
            assert(l * l == 0);
        }
    }
    let (x, y, k2, l2) = (v.x as i128, v.y as i128, k as i128, l as i128);
    assert(abs(x * k2) <= 2 * POS_LIMIT * VEL_LIMIT && abs(y * k2) <= 2 * POS_LIMIT * VEL_LIMIT)
        by (nonlinear_arith)
        requires
            -2 * POS_LIMIT <= x <= 2 * POS_LIMIT,
            -2 * POS_LIMIT <= y <= 2 * POS_LIMIT,
            0 <= k2 <= VEL_LIMIT,
    ;
    let rx = div_trunc(x * k2, l2);
    let ry = div_trunc(y * k2, l2);
    proof {
        lemma_div_t_bound(x * k2, l2 as int);
        lemma_div_t_bound(y * k2, l2 as int);
        lemma_abs_mul(x as int, k2 as int);
        lemma_abs_mul(y as int, k2 as int);
        lemma_scaled_norm(x as int, y as int, rx as int, ry as int, l as int, k as int);
        assert(rx * rx <= k * k && ry * ry <= k * k) by (nonlinear_arith)
            requires
                rx * rx + ry * ry <= k * k,
        ;
        assert(abs(rx as int) <= k && abs(ry as int) <= k) by (nonlinear_arith)
            requires
                rx * rx <= k * k,
                ry * ry <= k * k,
                k >= 0,
        ;
    }
    Vec2 { x: rx as i64, y: ry as i64 }
}

/// `v` with its length limited to `cap` (the direction is kept, up to rounding).
pub fn clamp_length(v: Vec2, cap: i64) -> (r: Vec2)
    requires
        bounded(v, 2 * POS_LIMIT),
        0 <= cap <= VEL_LIMIT,
    ensures
        r == clamped(v, cap as int),
        norm_sq(r) <= cap * cap,
        bounded(r, cap as int),
{
    let n = norm_sq_exec(v);
    let c = cap as u128;
    assert(c * c <= VEL_LIMIT * VEL_LIMIT) by (nonlinear_arith)
        requires
            c <= VEL_LIMIT,
    ;
    if n <= c * c {
        proof {
            assert(abs(v.x as int) <= cap && abs(v.y as int) <= cap) by (nonlinear_arith)
                requires
                    v.x * v.x + v.y * v.y <= cap * cap,
                    cap >= 0,
            ;
        }
        v
    } else {
        scale_to(v, cap)
    }
}

} // verus!
