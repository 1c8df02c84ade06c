use ferris_shooter::geom::{overlaps, SpriteSize, Vec2i};
use ferris_shooter::kinematics::{
    advance_linear, ceil_sqrt, cos_milli, move_toward, offset_clamped, orbit_angle, orbit_target,
    sin_milli,
};
use ferris_shooter::components::Velocity;
use ferris_shooter::{MILLI, ORBIT_X_RADIUS, ORBIT_Y_RADIUS, SCALE_ONE, SPEED_PER_TICK};

fn v(x: i32, y: i32) -> Vec2i {
    Vec2i { x, y }
}

fn sz(x: i32, y: i32) -> SpriteSize {
    SpriteSize { x, y }
}

#[test]
fn overlap_hit_and_miss() {
    // Two 10x10 boxes at natural scale centred 5 apart overlap on both axes.
    assert!(overlaps(v(0, 0), sz(10, 10), SCALE_ONE, v(5, 5), sz(10, 10), SCALE_ONE));
    // Centred 20 apart they are clear of each other.
    assert!(!overlaps(v(0, 0), sz(10, 10), SCALE_ONE, v(20, 0), sz(10, 10), SCALE_ONE));
}

#[test]
fn overlap_boundary_touch_is_miss() {
    // Half-extents 5 + 5 meet exactly at distance 10: touching boxes do not
    // overlap under the strict convention.
    assert!(!overlaps(v(0, 0), sz(10, 10), SCALE_ONE, v(10, 0), sz(10, 10), SCALE_ONE));
    // One unit closer they do.
    assert!(overlaps(v(0, 0), sz(10, 10), SCALE_ONE, v(9, 0), sz(10, 10), SCALE_ONE));
}

#[test]
fn overlap_respects_scale() {
    // At half scale the same boxes reach only 2.5 each, so distance 9 misses.
    assert!(!overlaps(v(0, 0), sz(10, 10), 50, v(9, 0), sz(10, 10), 50));
    // Distance 4 still hits.
    assert!(overlaps(v(0, 0), sz(10, 10), 50, v(4, 0), sz(10, 10), 50));
}

#[test]
fn overlap_symmetry_samples() {
    let cases = [
        (v(0, 0), sz(10, 10), 100, v(5, 5), sz(4, 4), 50),
        (v(-3, 7), sz(9, 54), 50, v(2, -1), sz(144, 75), 100),
        (v(100, 100), sz(1, 1), 100, v(-100, -100), sz(1, 1), 100),
    ];
    for (pa, za, sa, pb, zb, sb) in cases {
        assert_eq!(overlaps(pa, za, sa, pb, zb, sb), overlaps(pb, zb, sb, pa, za, sa));
    }
}

#[test]
fn advance_linear_moves_by_velocity_times_step() {
    let p = advance_linear(v(3, -4), Velocity { x: -1, y: 1 }, SPEED_PER_TICK);
    assert_eq!((p.x, p.y), (3 - SPEED_PER_TICK, -4 + SPEED_PER_TICK));
    let q = advance_linear(v(7, 9), Velocity { x: 0, y: 0 }, SPEED_PER_TICK);
    assert_eq!((q.x, q.y), (7, 9));
}

#[test]
fn advance_linear_saturates_at_grid_edge() {
    let p = advance_linear(v(i32::MAX - 2, 0), Velocity { x: 1, y: 0 }, 8);
    assert_eq!(p.x, i32::MAX);
    let q = advance_linear(v(i32::MIN + 2, 0), Velocity { x: -1, y: 0 }, 8);
    assert_eq!(q.x, i32::MIN);
}

#[test]
fn offset_clamped_shifts_and_saturates() {
    assert_eq!(offset_clamped(10, 21), 31);
    assert_eq!(offset_clamped(i32::MAX - 1, 5), i32::MAX);
    assert_eq!(offset_clamped(i32::MIN + 1, -5), i32::MIN);
}

#[test]
fn sine_exact_points() {
    // The rational sine is exact at these whole degrees.
    assert_eq!(sin_milli(0), 0);
    assert_eq!(sin_milli(30), MILLI / 2);
    assert_eq!(sin_milli(90), MILLI);
    assert_eq!(sin_milli(150), MILLI / 2);
    assert_eq!(sin_milli(180), 0);
    assert_eq!(sin_milli(270), -MILLI);
    assert_eq!(cos_milli(0), MILLI);
    assert_eq!(cos_milli(180), -MILLI);
}

#[test]
fn sine_tracks_the_true_sine_closely() {
    // The rational approximation stays within a few thousandths of the
    // transcendental sine over the whole circle.
    for d in 0..360u64 {
        let approx = sin_milli(d) as f64 / MILLI as f64;
        let exact = (d as f64).to_radians().sin();
        assert!((approx - exact).abs() < 0.003, "degree {d}: {approx} vs {exact}");
    }
}

#[test]
fn sine_stays_in_range() {
    for d in 0..360u64 {
        let s = sin_milli(d);
        assert!(-MILLI <= s && s <= MILLI);
        let c = cos_milli(d);
        assert!(-MILLI <= c && c <= MILLI);
    }
}

#[test]
fn orbit_angle_wraps() {
    assert_eq!(orbit_angle(0), 0);
    assert_eq!(orbit_angle(1), 2);
    assert_eq!(orbit_angle(179), 358);
    assert_eq!(orbit_angle(180), 0);
}

#[test]
fn orbit_target_starts_on_the_long_axis() {
    let t = orbit_target(0);
    assert_eq!((t.x, t.y), (ORBIT_X_RADIUS, 0));
    // A quarter turn later (90 degrees = 45 ticks) the target sits on the
    // short axis.
    let q = orbit_target(45);
    assert_eq!((q.x, q.y), (0, ORBIT_Y_RADIUS));
}

#[test]
fn orbit_target_bounded_for_many_ticks() {
    for tick in 0..2000u64 {
        let t = orbit_target(tick);
        assert!(-ORBIT_X_RADIUS <= t.x && t.x <= ORBIT_X_RADIUS);
        assert!(-ORBIT_Y_RADIUS <= t.y && t.y <= ORBIT_Y_RADIUS);
    }
}

#[test]
fn ceil_sqrt_samples() {
    assert_eq!(ceil_sqrt(0), 0);
    assert_eq!(ceil_sqrt(1), 1);
    assert_eq!(ceil_sqrt(2), 2);
    assert_eq!(ceil_sqrt(4), 2);
    assert_eq!(ceil_sqrt(10), 4);
    assert_eq!(ceil_sqrt(16), 4);
    assert_eq!(ceil_sqrt(20000), 142);
}

#[test]
fn move_toward_snaps_within_reach() {
    let r = move_toward(v(0, 0), v(3, 4), SPEED_PER_TICK);
    assert_eq!((r.x, r.y), (3, 4));
    // Already there: no movement.
    let s = move_toward(v(3, 4), v(3, 4), SPEED_PER_TICK);
    assert_eq!((s.x, s.y), (3, 4));
}

#[test]
fn move_toward_caps_the_step() {
    // Straight line along an axis: exactly the cap.
    let r = move_toward(v(0, 0), v(10, 0), SPEED_PER_TICK);
    assert_eq!((r.x, r.y), (8, 0));
    // Diagonal: 100,100 is 142 away (rounded up), so each axis advances
    // 100 * 8 / 142 = 5.
    let d = move_toward(v(0, 0), v(100, 100), SPEED_PER_TICK);
    assert_eq!((d.x, d.y), (5, 5));
}

#[test]
fn move_toward_never_exceeds_cap() {
    let starts = [v(0, 0), v(-17, 33), v(250, -110)];
    let targets = [v(300, 0), v(0, 130), v(-300, -130), v(1, 1)];
    for s in starts {
        for t in targets {
            let r = move_toward(s, t, SPEED_PER_TICK);
            let dx = (r.x - s.x) as i64;
            let dy = (r.y - s.y) as i64;
            let cap = SPEED_PER_TICK as i64;
            assert!(dx * dx + dy * dy <= cap * cap);
        }
    }
}
