//! Points, sprite extents, and the axis-aligned box overlap test.

use vstd::prelude::*;
use crate::SCALE_ONE;

verus! {

/// A point or displacement on the integer grid the simulation runs on.
#[derive(Clone, Copy, PartialEq, Eq, Structural, Debug)]
pub struct Vec2i {
    pub x: i32,
    pub y: i32,
}

/// Sprite extent in world units, attached to every collidable entity.
/// Together with the entity's scale it spans the collision box.
#[derive(Clone, Copy, PartialEq, Eq, Structural, Debug)]
pub struct SpriteSize {
    pub x: i32,
    pub y: i32,
}

/// Magnitude of an integer.
pub open spec fn iabs(v: int) -> int {
    if v < 0 { -v } else { v }
}

/// One axis of the box test: the centres sit closer than the sum of the two
/// half-extents. A half-extent is `extent * scale / (2 * SCALE_ONE)`; both
/// sides are multiplied by `2 * SCALE_ONE` so the comparison stays on
/// integers. The inequality is strict: boxes that only touch on a boundary
/// do not overlap, on every axis and at every call site alike.
pub open spec fn axis_overlaps(ca: int, ea: int, sa: int, cb: int, eb: int, sb: int) -> bool {
    2 * SCALE_ONE * iabs(ca - cb) < ea * sa + eb * sb
}

/// Two scaled axis-aligned boxes centred at `pa` and `pb` overlap on both
/// axes.
pub open spec fn overlaps_spec(
    pa: Vec2i,
    za: SpriteSize,
    sa: int,
    pb: Vec2i,
    zb: SpriteSize,
    sb: int,
) -> bool {
    &&& axis_overlaps(pa.x as int, za.x as int, sa, pb.x as int, zb.x as int, sb)
    &&& axis_overlaps(pa.y as int, za.y as int, sa, pb.y as int, zb.y as int, sb)
}

/// Axis-aligned box overlap test between two scaled sprites.
pub fn overlaps(
    pa: Vec2i,
    za: SpriteSize,
    sa: i32,
    pb: Vec2i,
    zb: SpriteSize,
    sb: i32,
) -> (r: bool)
    ensures
        r == overlaps_spec(pa, za, sa as int, pb, zb, sb as int),
{
    let over_x = axis_overlap_test(pa.x, za.x, sa, pb.x, zb.x, sb);
    let over_y = axis_overlap_test(pa.y, za.y, sa, pb.y, zb.y, sb);
    over_x && over_y
}

/// One axis of [`overlaps`], widened to 128 bits so no product can wrap.
fn axis_overlap_test(ca: i32, ea: i32, sa: i32, cb: i32, eb: i32, sb: i32) -> (r: bool)
    ensures
        r == axis_overlaps(ca as int, ea as int, sa as int, cb as int, eb as int, sb as int),
{
    let d: i128 = (ca as i128) - (cb as i128);
    let ad: i128 = if d < 0 { -d } else { d };
    proof {
        mul_i32_bound(ea as int, sa as int);
        mul_i32_bound(eb as int, sb as int);
        assert(2 * (SCALE_ONE as int) * (ad as int) <= 0x200_0000_0000) by (nonlinear_arith)
            requires
                2 * (SCALE_ONE as int) == 200,
                0 <= ad as int <= 0x1_0000_0000;
    }
    let lhs: i128 = 2 * (SCALE_ONE as i128) * ad;
    let rhs: i128 = (ea as i128) * (sa as i128) + (eb as i128) * (sb as i128);
    lhs < rhs
}

/// A product of two values in `i32` range stays far inside `i128` range;
/// used to discharge width checks on wide intermediate products.
pub(crate) proof fn mul_i32_bound(a: int, b: int)
    by (nonlinear_arith)
    requires
        -0x8000_0000 <= a <= 0x7fff_ffff,
        -0x8000_0000 <= b <= 0x7fff_ffff,
    ensures
        -0x4000_0000_0000_0000 <= a * b <= 0x4000_0000_0000_0000,
{
}

/// A product of two values with magnitude at most `bound` has magnitude at
/// most `bound * bound`.
pub(crate) proof fn lemma_abs_mul_bound(a: int, b: int, bound: int)
    by (nonlinear_arith)
    requires
        -bound <= a <= bound,
        -bound <= b <= bound,
        0 <= bound,
    ensures
        -(bound * bound) <= a * b <= bound * bound,
{
}

/// Collision symmetry: the box test does not depend on argument order.
pub proof fn lemma_overlaps_symmetric(
    pa: Vec2i,
    za: SpriteSize,
    sa: int,
    pb: Vec2i,
    zb: SpriteSize,
    sb: int,
)
    ensures
        overlaps_spec(pa, za, sa, pb, zb, sb) == overlaps_spec(pb, zb, sb, pa, za, sa),
{
}

} // verus!
