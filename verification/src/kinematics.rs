//! Per-tick displacement: straight movement for lasers and the steered
//! ship, and the enemy's elliptical patrol with a capped step toward a
//! target recomputed from absolute elapsed time.

use vstd::prelude::*;
use vstd::arithmetic::div_mod::{
    lemma_div_by_multiple, lemma_div_is_ordered, lemma_div_pos_is_pos,
    lemma_fundamental_div_mod, lemma_mod_multiples_vanish,
};
use vstd::arithmetic::mul::lemma_mul_inequality;
use crate::components::Velocity;
use crate::geom::{lemma_abs_mul_bound, mul_i32_bound, Vec2i};
use crate::{MILLI, ORBIT_STEP_DEG, ORBIT_X_RADIUS, ORBIT_Y_RADIUS};

verus! {

/// The nearest value on the coordinate grid: identity inside `i32` range,
/// pinned to the edge outside it. The play area sits far from the edge, so
/// within it movement is plain addition.
pub open spec fn clamp_i32(v: int) -> int {
    if v < i32::MIN as int {
        i32::MIN as int
    } else if v > i32::MAX as int {
        i32::MAX as int
    } else {
        v
    }
}

/// One axis of straight movement: the position advances by velocity times
/// the per-tick step (base speed times tick duration).
pub open spec fn advance_axis(p: int, v: int, step: int) -> int {
    clamp_i32(p + v * step)
}

/// Straight movement for one tick: `position += velocity * step` per axis,
/// where `step` is the base speed times the tick duration.
pub fn advance_linear(pos: Vec2i, vel: Velocity, step: i32) -> (r: Vec2i)
    ensures
        r.x as int == advance_axis(pos.x as int, vel.x as int, step as int),
        r.y as int == advance_axis(pos.y as int, vel.y as int, step as int),
{
    Vec2i { x: advance_axis_exec(pos.x, vel.x, step), y: advance_axis_exec(pos.y, vel.y, step) }
}

fn advance_axis_exec(p: i32, v: i32, step: i32) -> (r: i32)
    ensures
        r as int == advance_axis(p as int, v as int, step as int),
{
    proof {
        mul_i32_bound(v as int, step as int);
    }
    let wide: i128 = (p as i128) + (v as i128) * (step as i128);
    if wide < i32::MIN as i128 {
        i32::MIN
    } else if wide > i32::MAX as i128 {
        i32::MAX
    } else {
        wide as i32
    }
}

/// A coordinate shifted by a fixed offset, pinned to the grid edge like
/// every other movement.
pub fn offset_clamped(p: i32, delta: i32) -> (r: i32)
    ensures
        r as int == clamp_i32(p as int + delta as int),
{
    let wide: i64 = (p as i64) + (delta as i64);
    if wide < i32::MIN as i64 {
        i32::MIN
    } else if wide > i32::MAX as i64 {
        i32::MAX
    } else {
        wide as i32
    }
}

/// Rational approximation of the sine on `[0, 180]` degrees, scaled to
/// thousandths: `4·d·(180−d)·MILLI / (40500 − d·(180−d))`. It is exact at
/// 0, 30, 90, 150 and 180 degrees and stays within a few thousandths of
/// the true sine in between.
pub open spec fn half_sine_milli(d: int) -> int {
    4 * (d * (180 - d)) * (MILLI as int) / (40500 - d * (180 - d))
}

/// Sine of a whole-degree angle in `[0, 360)`, in thousandths: the first
/// half-turn mirrored and negated for the second.
pub open spec fn sin_milli_spec(deg: int) -> int {
    if deg <= 180 {
        half_sine_milli(deg)
    } else {
        -half_sine_milli(deg - 180)
    }
}

/// Cosine of a whole-degree angle in `[0, 360)`, in thousandths: the sine
/// shifted a quarter turn.
pub open spec fn cos_milli_spec(deg: int) -> int {
    sin_milli_spec((deg + 90) % 360)
}

/// The half-turn sine stays within `[0, MILLI]`.
proof fn lemma_half_sine_bounds(d: int)
    requires
        0 <= d <= 180,
    ensures
        0 <= half_sine_milli(d) <= MILLI as int,
{
    let m = d * (180 - d);
    assert(0 <= m <= 8100) by (nonlinear_arith)
        requires
            0 <= d <= 180,
            m == d * (180 - d);
    let num = 4 * m * (MILLI as int);
    let den = 40500 - m;
    lemma_div_pos_is_pos(num, den);
    assert(num <= (MILLI as int) * den);
    lemma_div_is_ordered(num, (MILLI as int) * den, den);
    lemma_div_by_multiple(MILLI as int, den);
}

/// The sine in thousandths never leaves `[-MILLI, MILLI]`; the patrol
/// target built from it therefore never leaves the ellipse's bounding box.
pub proof fn lemma_sin_milli_bounded(deg: int)
    requires
        0 <= deg < 360,
    ensures
        -(MILLI as int) <= sin_milli_spec(deg) <= MILLI as int,
{
    if deg <= 180 {
        lemma_half_sine_bounds(deg);
    } else {
        lemma_half_sine_bounds(deg - 180);
    }
}

fn half_sine(d: u64) -> (r: i32)
    requires
        d <= 180,
    ensures
        r as int == half_sine_milli(d as int),
        0 <= r <= MILLI,
{
    proof {
        assert(0 <= (d as int) * (180 - d as int) <= 8100) by (nonlinear_arith)
            requires
                0 <= d as int <= 180;
        lemma_half_sine_bounds(d as int);
    }
    let m: u64 = d * (180 - d);
    let num: u64 = 4 * m * (MILLI as u64);
    let den: u64 = 40500 - m;
    (num / den) as i32
}

/// Sine of a whole-degree angle, in thousandths.
pub fn sin_milli(deg: u64) -> (r: i32)
    requires
        deg < 360,
    ensures
        r as int == sin_milli_spec(deg as int),
        -MILLI <= r <= MILLI,
{
    if deg <= 180 {
        half_sine(deg)
    } else {
        let h = half_sine(deg - 180);
        -h
    }
}

/// Cosine of a whole-degree angle, in thousandths.
pub fn cos_milli(deg: u64) -> (r: i32)
    requires
        deg < 360,
    ensures
        r as int == cos_milli_spec(deg as int),
        -MILLI <= r <= MILLI,
{
    let shifted: u64 = (deg + 90) % 360;
    proof {
        lemma_sin_milli_bounded(shifted as int);
    }
    sin_milli(shifted)
}

/// The patrol angle after `ticks`, in whole degrees: the angular rate
/// integrated over absolute elapsed time, so the patrol never drifts.
pub fn orbit_angle(ticks: u64) -> (r: u64)
    ensures
        r as int == (ticks as int * ORBIT_STEP_DEG as int) % 360,
        r < 360,
{
    let rem: u64 = ticks % 360;
    let r: u64 = (rem * ORBIT_STEP_DEG) % 360;
    proof {
        let t = ticks as int;
        let s = ORBIT_STEP_DEG as int;
        lemma_fundamental_div_mod(t, 360);
        let q = t / 360;
        let rm = t % 360;
        assert(t * s == 360 * (q * s) + rm * s) by (nonlinear_arith)
            requires
                t == 360 * q + rm;
        lemma_mod_multiples_vanish(q * s, rm * s, 360);
    }
    r
}

/// `r · c / MILLI`, rounded toward zero: a radius scaled by a thousandths
/// sine or cosine.
pub open spec fn scale_milli(r: int, c: int) -> int {
    if c >= 0 {
        r * c / (MILLI as int)
    } else {
        -(r * (-c) / (MILLI as int))
    }
}

fn scale_by_milli(r: i32, c: i32) -> (out: i32)
    requires
        0 <= r <= 100_000,
        -MILLI <= c <= MILLI,
    ensures
        out as int == scale_milli(r as int, c as int),
        -r <= out <= r,
{
    let a: u64 = if c >= 0 { c as u64 } else { (-c) as u64 };
    proof {
        assert(0 <= (r as int) * (a as int) <= 100_000_000) by (nonlinear_arith)
            requires
                0 <= r as int <= 100_000,
                0 <= a as int <= 1000;
    }
    let mag: u64 = (r as u64) * a / (MILLI as u64);
    proof {
        let ri = r as int;
        let ai = a as int;
        lemma_mul_inequality(ai, MILLI as int, ri);
        assert(ai * ri == ri * ai) by (nonlinear_arith);
        assert((MILLI as int) * ri == ri * (MILLI as int)) by (nonlinear_arith);
        lemma_div_is_ordered(ri * ai, ri * (MILLI as int), MILLI as int);
        lemma_div_by_multiple(ri, MILLI as int);
        lemma_div_pos_is_pos(ri * ai, MILLI as int);
    }
    if c >= 0 {
        mag as i32
    } else {
        -(mag as i32)
    }
}

/// The patrol target for tick `t`: the point of the fixed ellipse at the
/// angle the elapsed time picks.
pub open spec fn orbit_target_spec(t: u64) -> Vec2i {
    let ang = (t as int * ORBIT_STEP_DEG as int) % 360;
    Vec2i {
        x: scale_milli(ORBIT_X_RADIUS as int, cos_milli_spec(ang)) as i32,
        y: scale_milli(ORBIT_Y_RADIUS as int, sin_milli_spec(ang)) as i32,
    }
}

/// The point of the patrol ellipse for the current tick: the radii scaled
/// by the cosine and sine of the patrol angle. The target always lies
/// within the ellipse's bounding box around the pivot at the origin.
pub fn orbit_target(ticks: u64) -> (r: Vec2i)
    ensures
        r == orbit_target_spec(ticks),
        -ORBIT_X_RADIUS <= r.x <= ORBIT_X_RADIUS,
        -ORBIT_Y_RADIUS <= r.y <= ORBIT_Y_RADIUS,
{
    let a = orbit_angle(ticks);
    let c = cos_milli(a);
    let s = sin_milli(a);
    Vec2i { x: scale_by_milli(ORBIT_X_RADIUS, c), y: scale_by_milli(ORBIT_Y_RADIUS, s) }
}

/// Squared Euclidean distance between two grid points.
pub open spec fn dist2(a: Vec2i, b: Vec2i) -> int {
    (b.x - a.x) * (b.x - a.x) + (b.y - a.y) * (b.y - a.y)
}

/// `r` is the integer square root of `n`, rounded up.
pub open spec fn is_ceil_sqrt(n: int, r: int) -> bool {
    &&& 0 <= r
    &&& n <= r * r
    &&& r >= 1 ==> (r - 1) * (r - 1) < n
}

/// The integer square root of `n`, rounded up.
pub open spec fn ceil_sqrt_spec(n: int) -> int {
    choose|r: int| is_ceil_sqrt(n, r)
}

/// The rounded-up square root is unique, so the bisection below computes
/// exactly [`ceil_sqrt_spec`].
pub proof fn lemma_ceil_sqrt_unique(n: int, r1: int, r2: int)
    by (nonlinear_arith)
    requires
        is_ceil_sqrt(n, r1),
        is_ceil_sqrt(n, r2),
    ensures
        r1 == r2,
{
}

/// Any witness of [`is_ceil_sqrt`] is the value [`ceil_sqrt_spec`] picks.
pub proof fn lemma_ceil_sqrt_spec_is(n: int, r: int)
    requires
        is_ceil_sqrt(n, r),
    ensures
        ceil_sqrt_spec(n) == r,
{
    assert(exists|x: int| is_ceil_sqrt(n, x));
    lemma_ceil_sqrt_unique(n, ceil_sqrt_spec(n), r);
}

/// Integer square root rounded up, by bisection.
pub fn ceil_sqrt(n: u128) -> (r: u128)
    requires
        n <= 0x4_0000_0000_0000_0000,
    ensures
        is_ceil_sqrt(n as int, r as int),
        r as int == ceil_sqrt_spec(n as int),
{
    if n == 0 {
        proof {
            lemma_ceil_sqrt_spec_is(0, 0);
        }
        return 0;
    }
    let mut lo: u128 = 0;
    let mut hi: u128 = 0x2_0000_0000;
    assert(n as int <= (hi as int) * (hi as int)) by (nonlinear_arith)
        requires
            n as int <= 0x4_0000_0000_0000_0000,
            hi == 0x2_0000_0000;
    while lo + 1 < hi
        invariant
            (lo as int) * (lo as int) < n as int,
            n as int <= (hi as int) * (hi as int),
            lo < hi,
            hi <= 0x2_0000_0000,
            1 <= n <= 0x4_0000_0000_0000_0000,
        decreases hi - lo,
    {
        let mid: u128 = lo + (hi - lo) / 2;
        proof {
            lemma_abs_mul_bound(mid as int, mid as int, 0x2_0000_0000);
        }
        if mid * mid >= n {
            hi = mid;
        } else {
            lo = mid;
        }
    }
    proof {
        assert(is_ceil_sqrt(n as int, hi as int));
        lemma_ceil_sqrt_spec_is(n as int, hi as int);
    }
    hi
}

/// `delta · m / d`, rounded toward zero: one axis of a capped step along
/// the line toward a target.
pub open spec fn step_part(delta: int, m: int, d: int) -> int {
    if delta >= 0 {
        delta * m / d
    } else {
        -((-delta) * m / d)
    }
}

/// Where a body at `pos` ends up after one step of at most `max_dist`
/// toward `target`: at the target once it is within reach, otherwise
/// `max_dist` along the straight line toward it, each axis rounded toward
/// `pos`, so a step never crosses the target on either axis.
pub open spec fn move_toward_spec(pos: Vec2i, target: Vec2i, max_dist: int) -> Vec2i {
    let d2 = dist2(pos, target);
    if d2 <= max_dist * max_dist {
        target
    } else {
        let d = ceil_sqrt_spec(d2);
        Vec2i {
            x: (pos.x + step_part(target.x - pos.x, max_dist, d)) as i32,
            y: (pos.y + step_part(target.y - pos.y, max_dist, d)) as i32,
        }
    }
}

/// A capped step with floor-divided axes never covers more ground than the
/// cap: if the remaining distance is at least the rounded-up root `d`, the
/// scaled-and-floored displacement stays within a circle of radius `m`.
proof fn lemma_step_bounded(ax: int, ay: int, m: int, d: int, qx: int, qy: int)
    requires
        0 <= ax,
        0 <= ay,
        0 <= m,
        1 <= d,
        ax * ax + ay * ay <= d * d,
        qx == ax * m / d,
        qy == ay * m / d,
    ensures
        qx * qx + qy * qy <= m * m,
{
    lemma_fundamental_div_mod(ax * m, d);
    lemma_fundamental_div_mod(ay * m, d);
    lemma_div_pos_is_pos(ax * m, d);
    lemma_div_pos_is_pos(ay * m, d);
    assert(d * qx <= ax * m && d * qy <= ay * m) by (nonlinear_arith)
        requires
            ax * m == d * (ax * m / d) + (ax * m) % d,
            ay * m == d * (ay * m / d) + (ay * m) % d,
            0 <= (ax * m) % d,
            0 <= (ay * m) % d,
            qx == ax * m / d,
            qy == ay * m / d;
    assert((qx * qx + qy * qy) * (d * d) <= (m * m) * (d * d)) by (nonlinear_arith)
        requires
            0 <= ax,
            0 <= ay,
            0 <= m,
            1 <= d,
            0 <= qx,
            0 <= qy,
            d * qx <= ax * m,
            d * qy <= ay * m,
            ax * ax + ay * ay <= d * d;
    assert(qx * qx + qy * qy <= m * m) by (nonlinear_arith)
        requires
            (qx * qx + qy * qy) * (d * d) <= (m * m) * (d * d),
            1 <= d;
}

/// One tick of the enemy patrol: move from `pos` toward `target`, covering
/// at most `max_dist`; snap to the target when it is within reach, and
/// never move at all when already there. The step's squared length never
/// exceeds `max_dist * max_dist`.
pub fn move_toward(pos: Vec2i, target: Vec2i, max_dist: i32) -> (r: Vec2i)
    requires
        0 <= max_dist,
    ensures
        r == move_toward_spec(pos, target, max_dist as int),
        dist2(pos, r) <= (max_dist as int) * (max_dist as int),
{
    let dx: i128 = target.x as i128 - pos.x as i128;
    let dy: i128 = target.y as i128 - pos.y as i128;
    proof {
        lemma_abs_mul_bound(dx as int, dx as int, 0x1_0000_0000);
        lemma_abs_mul_bound(dy as int, dy as int, 0x1_0000_0000);
        assert(dx * dx >= 0 && dy * dy >= 0) by (nonlinear_arith);
    }
    let d2: i128 = dx * dx + dy * dy;
    let m: i128 = max_dist as i128;
    proof {
        lemma_abs_mul_bound(m as int, m as int, 0x8000_0000);
    }
    if d2 <= m * m {
        return target;
    }
    let d: u128 = ceil_sqrt(d2 as u128);
    proof {
        assert((d as int) >= 1) by (nonlinear_arith)
            requires
                is_ceil_sqrt(d2 as int, d as int),
                d2 as int >= 1;
        assert((m as int) < (d as int)) by (nonlinear_arith)
            requires
                (m as int) * (m as int) < d2 as int,
                d2 as int <= (d as int) * (d as int),
                0 <= m as int,
                0 <= d as int;
    }
    let ax: u128 = if dx >= 0 { dx as u128 } else { (-dx) as u128 };
    let ay: u128 = if dy >= 0 { dy as u128 } else { (-dy) as u128 };
    proof {
        assert(0 <= (ax as int) * (m as int) <= 0x8000_0000_0000_0000_0000) by (nonlinear_arith)
            requires
                0 <= ax as int <= 0x1_0000_0000,
                0 <= m as int <= 0x8000_0000;
        assert(0 <= (ay as int) * (m as int) <= 0x8000_0000_0000_0000_0000) by (nonlinear_arith)
            requires
                0 <= ay as int <= 0x1_0000_0000,
                0 <= m as int <= 0x8000_0000;
    }
    let qx: u128 = ax * (m as u128) / d;
    let qy: u128 = ay * (m as u128) / d;
    proof {
        let axi = ax as int;
        let ayi = ay as int;
        let mi = m as int;
        let di = d as int;
        lemma_mul_inequality(mi, di, axi);
        assert(axi * mi == mi * axi && axi * di == di * axi) by (nonlinear_arith);
        lemma_div_is_ordered(axi * mi, axi * di, di);
        lemma_div_by_multiple(axi, di);
        lemma_div_pos_is_pos(axi * mi, di);
        lemma_mul_inequality(mi, di, ayi);
        assert(ayi * mi == mi * ayi && ayi * di == di * ayi) by (nonlinear_arith);
        lemma_div_is_ordered(ayi * mi, ayi * di, di);
        lemma_div_by_multiple(ayi, di);
        lemma_div_pos_is_pos(ayi * mi, di);
        assert(qx as int <= axi && qy as int <= ayi);
        assert(axi * axi == (dx as int) * (dx as int)) by (nonlinear_arith)
            requires
                axi == dx as int || axi == -(dx as int);
        assert(ayi * ayi == (dy as int) * (dy as int)) by (nonlinear_arith)
            requires
                ayi == dy as int || ayi == -(dy as int);
        lemma_step_bounded(axi, ayi, mi, di, qx as int, qy as int);
    }
    let rx_w: i64 = if dx >= 0 {
        pos.x as i64 + qx as i64
    } else {
        pos.x as i64 - qx as i64
    };
    let ry_w: i64 = if dy >= 0 {
        pos.y as i64 + qy as i64
    } else {
        pos.y as i64 - qy as i64
    };
    let r = Vec2i { x: rx_w as i32, y: ry_w as i32 };
    proof {
        assert((r.x as int - pos.x as int) * (r.x as int - pos.x as int) == (qx as int) * (
        qx as int)) by (nonlinear_arith)
            requires
                r.x as int == pos.x as int + qx as int || r.x as int == pos.x as int - qx as int;
        assert((r.y as int - pos.y as int) * (r.y as int - pos.y as int) == (qy as int) * (
        qy as int)) by (nonlinear_arith)
            requires
                r.y as int == pos.y as int + qy as int || r.y as int == pos.y as int - qy as int;
        assert(r == move_toward_spec(pos, target, max_dist as int));
    }
    r
}

} // verus!
