//! The lifecycle manager: per-tick movement with out-of-bounds despawn,
//! the enemy patrol, explosion materialization, and explosion playback.

use vstd::prelude::*;
use crate::components::{Entity, Kind, WinSize};
use crate::geom::Vec2i;
use crate::kinematics::{advance_axis, advance_linear, dist2, move_toward, move_toward_spec, orbit_target};
use crate::sim::{count_kind, count_upto, lemma_count_push, lemma_count_upto_agree, Sim};
use crate::{DESPAWN_MARGIN, EXPLOSION_FRAME_TICKS, EXPLOSION_LEN, SCALE_ONE, SPEED_PER_TICK};

verus! {

/// The entity advanced one tick along its velocity.
pub open spec fn moved(e: Entity) -> Entity {
    Entity {
        pos: Vec2i {
            x: advance_axis(e.pos.x as int, e.vel.x as int, SPEED_PER_TICK as int) as i32,
            y: advance_axis(e.pos.y as int, e.vel.y as int, SPEED_PER_TICK as int) as i32,
        },
        ..e
    }
}

/// `p` has left the play area plus the despawn margin on some axis.
pub open spec fn out_of_bounds(w: WinSize, p: Vec2i) -> bool {
    ||| p.y > w.h as int / 2 + DESPAWN_MARGIN
    ||| p.y < -(w.h as int / 2) - DESPAWN_MARGIN
    ||| p.x > w.w as int / 2 + DESPAWN_MARGIN
    ||| p.x < -(w.w as int / 2) - DESPAWN_MARGIN
}

/// Whether the movable pass keeps an entity this tick: everything stays
/// except an auto-despawn mover that ends the tick out of bounds.
pub open spec fn retained(w: WinSize, e: Entity) -> bool {
    !(e.movable.auto_despawn && out_of_bounds(w, moved(e).pos))
}

/// The first `n` rows after one movable pass: every entity advanced along
/// its velocity, auto-despawn movers out of bounds removed, order kept.
pub open spec fn moved_table(w: WinSize, s: Seq<Entity>, n: int) -> Seq<Entity>
    decreases n,
{
    if n <= 0 {
        Seq::empty()
    } else {
        let pre = moved_table(w, s, n - 1);
        if retained(w, s[n - 1]) {
            pre.push(moved(s[n - 1]))
        } else {
            pre
        }
    }
}

/// The movable pass never drops a ship (ships never auto-despawn), so ship
/// counts survive it; neither does it touch scales, explosion frames, or
/// the auto-despawn tags themselves.
proof fn lemma_moved_table_props(w: WinSize, s: Seq<Entity>, n: int, k: Kind)
    requires
        0 <= n <= s.len(),
        forall|j: int|
            0 <= j < s.len() && ((#[trigger] s[j]).kind == Kind::Player || s[j].kind
                == Kind::Enemy) ==> !s[j].movable.auto_despawn,
        forall|j: int| 0 <= j < s.len() ==> (#[trigger] s[j]).scale > 0,
        forall|j: int|
            0 <= j < s.len() && (#[trigger] s[j]).kind == Kind::Explosion ==> s[j].frame
                < EXPLOSION_LEN,
        k == Kind::Player || k == Kind::Enemy,
    ensures
        count_kind(moved_table(w, s, n), k) == count_upto(s, k, n),
        forall|t: int|
            0 <= t < moved_table(w, s, n).len() ==> (#[trigger] moved_table(w, s, n)[t]).scale
                > 0,
        forall|t: int|
            0 <= t < moved_table(w, s, n).len() && (#[trigger] moved_table(w, s, n)[t]).kind
                == Kind::Explosion ==> moved_table(w, s, n)[t].frame < EXPLOSION_LEN,
        forall|t: int|
            0 <= t < moved_table(w, s, n).len() && ((#[trigger] moved_table(w, s, n)[t]).kind
                == Kind::Player || moved_table(w, s, n)[t].kind == Kind::Enemy) ==> !moved_table(
                w,
                s,
                n,
            )[t].movable.auto_despawn,
    decreases n,
{
    if n > 0 {
        lemma_moved_table_props(w, s, n - 1, k);
        if retained(w, s[n - 1]) {
            lemma_count_push(moved_table(w, s, n - 1), k, moved(s[n - 1]));
        }
    }
}

/// One axis-and-margin check of [`out_of_bounds`].
fn out_of_bounds_exec(w: WinSize, p: Vec2i) -> (r: bool)
    requires
        w.wf(),
    ensures
        r == out_of_bounds(w, p),
{
    let hb: i32 = w.h / 2 + DESPAWN_MARGIN;
    let wb: i32 = w.w / 2 + DESPAWN_MARGIN;
    p.y > hb || p.y < -hb || p.x > wb || p.x < -wb
}

/// The movable pass: advance every entity one tick along its velocity,
/// then remove each auto-despawn mover that has left the play area plus
/// the margin. Runs after the positions are final for the tick, and keeps
/// every entity that is not an out-of-bounds auto-despawn mover.
pub fn movable_system(sim: &mut Sim)
    requires
        old(sim).wf(),
    ensures
        final(sim).wf(),
        final(sim).entities@ == moved_table(
            old(sim).win,
            old(sim).entities@,
            old(sim).entities@.len() as int,
        ),
        final(sim).enemy_count == old(sim).enemy_count,
        final(sim).player == old(sim).player,
        final(sim).now == old(sim).now,
        final(sim).win == old(sim).win,
{
    let n = sim.entities.len();
    let ghost s0 = sim.entities@;
    let ghost w = sim.win;
    let mut out: Vec<Entity> = Vec::new();
    let mut i: usize = 0;
    while i < n
        invariant
            *sim == *old(sim),
            old(sim).wf(),
            n == s0.len(),
            s0 == sim.entities@,
            w == sim.win,
            i <= n,
            out@ == moved_table(w, s0, i as int),
        decreases n - i,
    {
        let e = sim.entities[i];
        let new_pos = advance_linear(e.pos, e.vel, SPEED_PER_TICK);
        let me = Entity { pos: new_pos, ..e };
        proof {
            assert(me == moved(s0[i as int]));
        }
        if !(me.movable.auto_despawn && out_of_bounds_exec(sim.win, me.pos)) {
            out.push(me);
        }
        i = i + 1;
    }
    proof {
        lemma_moved_table_props(w, s0, n as int, Kind::Player);
        lemma_moved_table_props(w, s0, n as int, Kind::Enemy);
    }
    sim.entities = out;
}

/// An enemy advanced one patrol step toward the tick's orbit target.
pub open spec fn orbit_moved(e: Entity, target: Vec2i) -> Entity {
    Entity { pos: move_toward_spec(e.pos, target, SPEED_PER_TICK as int), ..e }
}

/// The table after one patrol pass toward `target`: enemies step, every
/// other row stays.
pub open spec fn enemies_moved(s: Seq<Entity>, target: Vec2i) -> Seq<Entity> {
    Seq::new(
        s.len(),
        |i: int|
            if s[i].kind == Kind::Enemy {
                orbit_moved(s[i], target)
            } else {
                s[i]
            },
    )
}

/// The enemy patrol: each enemy takes one capped step toward the point of
/// the fixed ellipse that the elapsed time picks; no step covers more
/// ground than the per-tick cap, and nothing else changes.
pub fn enemy_movement_system(sim: &mut Sim)
    requires
        old(sim).wf(),
    ensures
        final(sim).wf(),
        final(sim).entities@ == enemies_moved(
            old(sim).entities@,
            crate::kinematics::orbit_target_spec(old(sim).now),
        ),
        forall|j: int|
            0 <= j < old(sim).entities@.len() && (#[trigger] old(sim).entities@[j]).kind
                == Kind::Enemy ==> dist2(old(sim).entities@[j].pos, final(sim).entities@[j].pos)
                <= SPEED_PER_TICK as int * SPEED_PER_TICK as int,
        final(sim).enemy_count == old(sim).enemy_count,
        final(sim).player == old(sim).player,
        final(sim).now == old(sim).now,
        final(sim).win == old(sim).win,
{
    let target = orbit_target(sim.now);
    let ghost s0 = sim.entities@;
    let n = sim.entities.len();
    let mut i: usize = 0;
    while i < n
        invariant
            old(sim).wf(),
            n == s0.len(),
            s0 == old(sim).entities@,
            sim.entities@.len() == n,
            i <= n,
            target == crate::kinematics::orbit_target_spec(old(sim).now),
            forall|j: int|
                i <= j < n ==> (#[trigger] sim.entities@[j]) == s0[j],
            forall|j: int|
                0 <= j < i ==> (#[trigger] sim.entities@[j]) == (if s0[j].kind == Kind::Enemy {
                    orbit_moved(s0[j], target)
                } else {
                    s0[j]
                }),
            forall|j: int|
                0 <= j < i && (#[trigger] s0[j]).kind == Kind::Enemy ==> dist2(
                    s0[j].pos,
                    sim.entities@[j].pos,
                ) <= SPEED_PER_TICK as int * SPEED_PER_TICK as int,
            sim.enemy_count == old(sim).enemy_count,
            sim.player == old(sim).player,
            sim.now == old(sim).now,
            sim.win == old(sim).win,
        decreases n - i,
    {
        let e = sim.entities[i];
        if e.kind == Kind::Enemy {
            let new_pos = move_toward(e.pos, target, SPEED_PER_TICK);
            let me = Entity { pos: new_pos, ..e };
            proof {
                assert(me == orbit_moved(s0[i as int], target));
            }
            sim.entities[i] = me;
        }
        i = i + 1;
    }
    proof {
        assert(sim.entities@ =~= enemies_moved(s0, target));
        lemma_count_upto_agree(sim.entities@, s0, Kind::Player, n as int);
        lemma_count_upto_agree(sim.entities@, s0, Kind::Enemy, n as int);
    }
}

/// The explosion entity materialized at `p`: the first frame of the sheet
/// with a fresh countdown, drawn at natural size, not collidable.
pub open spec fn explosion_at(p: Vec2i) -> Entity {
    Entity {
        kind: Kind::Explosion,
        pos: p,
        size: crate::geom::SpriteSize { x: 0, y: 0 },
        scale: SCALE_ONE,
        vel: crate::components::Velocity { x: 0, y: 0 },
        movable: crate::components::Movable { auto_despawn: false },
        frame_timer: EXPLOSION_FRAME_TICKS,
        frame: 0,
    }
}

/// The table after one materialization pass: each pending explosion
/// request becomes an explosion at its position, exactly once; every other
/// row stays.
pub open spec fn requests_materialized(s: Seq<Entity>) -> Seq<Entity> {
    Seq::new(
        s.len(),
        |i: int|
            if s[i].kind == Kind::ExplosionToSpawn {
                explosion_at(s[i].pos)
            } else {
                s[i]
            },
    )
}

/// Explosion materialization: every pending request is consumed, exactly
/// once, into an animated explosion at the requested position.
pub fn explosion_to_spawn_system(sim: &mut Sim)
    requires
        old(sim).wf(),
    ensures
        final(sim).wf(),
        final(sim).entities@ == requests_materialized(old(sim).entities@),
        final(sim).enemy_count == old(sim).enemy_count,
        final(sim).player == old(sim).player,
        final(sim).now == old(sim).now,
        final(sim).win == old(sim).win,
{
    let ghost s0 = sim.entities@;
    let n = sim.entities.len();
    let mut i: usize = 0;
    while i < n
        invariant
            old(sim).wf(),
            n == s0.len(),
            s0 == old(sim).entities@,
            sim.entities@.len() == n,
            i <= n,
            forall|j: int| i <= j < n ==> (#[trigger] sim.entities@[j]) == s0[j],
            forall|j: int|
                0 <= j < i ==> (#[trigger] sim.entities@[j]) == (if s0[j].kind
                    == Kind::ExplosionToSpawn {
                    explosion_at(s0[j].pos)
                } else {
                    s0[j]
                }),
            sim.enemy_count == old(sim).enemy_count,
            sim.player == old(sim).player,
            sim.now == old(sim).now,
            sim.win == old(sim).win,
        decreases n - i,
    {
        let e = sim.entities[i];
        if e.kind == Kind::ExplosionToSpawn {
            let me = Entity {
                kind: Kind::Explosion,
                pos: e.pos,
                size: crate::geom::SpriteSize { x: 0, y: 0 },
                scale: SCALE_ONE,
                vel: crate::components::Velocity { x: 0, y: 0 },
                movable: crate::components::Movable { auto_despawn: false },
                frame_timer: EXPLOSION_FRAME_TICKS,
                frame: 0,
            };
            proof {
                assert(me == explosion_at(s0[i as int].pos));
            }
            sim.entities[i] = me;
        }
        i = i + 1;
    }
    proof {
        assert(sim.entities@ =~= requests_materialized(s0));
        lemma_count_upto_agree(sim.entities@, s0, Kind::Player, n as int);
        lemma_count_upto_agree(sim.entities@, s0, Kind::Enemy, n as int);
    }
}

/// An explosion one tick further through its playback: the countdown
/// drops, and on expiry the frame advances and the countdown resets.
pub open spec fn exploded_step(e: Entity) -> Entity {
    if e.frame_timer > 1 {
        Entity { frame_timer: (e.frame_timer - 1) as u32, ..e }
    } else {
        Entity { frame: (e.frame + 1) as u32, frame_timer: EXPLOSION_FRAME_TICKS, ..e }
    }
}

/// The first `n` rows after one playback pass: explosions advance and
/// leave the table once past the last frame of the sheet; every other row
/// stays.
pub open spec fn explosions_advanced(s: Seq<Entity>, n: int) -> Seq<Entity>
    decreases n,
{
    if n <= 0 {
        Seq::empty()
    } else {
        let pre = explosions_advanced(s, n - 1);
        if s[n - 1].kind != Kind::Explosion {
            pre.push(s[n - 1])
        } else {
            let e2 = exploded_step(s[n - 1]);
            if e2.frame >= EXPLOSION_LEN {
                pre
            } else {
                pre.push(e2)
            }
        }
    }
}

/// The playback pass drops only explosion rows and keeps every field the
/// invariant watches.
proof fn lemma_explosions_advanced_props(s: Seq<Entity>, n: int, k: Kind)
    requires
        0 <= n <= s.len(),
        forall|j: int| 0 <= j < s.len() ==> (#[trigger] s[j]).scale > 0,
        forall|j: int|
            0 <= j < s.len() && ((#[trigger] s[j]).kind == Kind::Player || s[j].kind
                == Kind::Enemy) ==> !s[j].movable.auto_despawn,
        k != Kind::Explosion,
    ensures
        count_kind(explosions_advanced(s, n), k) == count_upto(s, k, n),
        forall|t: int|
            0 <= t < explosions_advanced(s, n).len() ==> (#[trigger] explosions_advanced(
                s,
                n,
            )[t]).scale > 0,
        forall|t: int|
            0 <= t < explosions_advanced(s, n).len() && (#[trigger] explosions_advanced(
                s,
                n,
            )[t]).kind == Kind::Explosion ==> explosions_advanced(s, n)[t].frame < EXPLOSION_LEN,
        forall|t: int|
            0 <= t < explosions_advanced(s, n).len() && ((#[trigger] explosions_advanced(
                s,
                n,
            )[t]).kind == Kind::Player || explosions_advanced(s, n)[t].kind == Kind::Enemy)
                ==> !explosions_advanced(s, n)[t].movable.auto_despawn,
    decreases n,
{
    if n > 0 {
        lemma_explosions_advanced_props(s, n - 1, k);
        if s[n - 1].kind != Kind::Explosion {
            lemma_count_push(explosions_advanced(s, n - 1), k, s[n - 1]);
        } else {
            let e2 = exploded_step(s[n - 1]);
            if e2.frame < EXPLOSION_LEN {
                lemma_count_push(explosions_advanced(s, n - 1), k, e2);
            }
        }
    }
}

/// Explosion playback: each explosion's countdown advances by the tick;
/// on expiry the frame index moves up and the countdown resets, and an
/// explosion past the last frame of the sheet leaves the table.
pub fn explosion_animation_system(sim: &mut Sim)
    requires
        old(sim).wf(),
    ensures
        final(sim).wf(),
        final(sim).entities@ == explosions_advanced(
            old(sim).entities@,
            old(sim).entities@.len() as int,
        ),
        final(sim).enemy_count == old(sim).enemy_count,
        final(sim).player == old(sim).player,
        final(sim).now == old(sim).now,
        final(sim).win == old(sim).win,
{
    let n = sim.entities.len();
    let ghost s0 = sim.entities@;
    let mut out: Vec<Entity> = Vec::new();
    let mut i: usize = 0;
    while i < n
        invariant
            *sim == *old(sim),
            old(sim).wf(),
            n == s0.len(),
            s0 == sim.entities@,
            i <= n,
            out@ == explosions_advanced(s0, i as int),
        decreases n - i,
    {
        let e = sim.entities[i];
        if e.kind != Kind::Explosion {
            out.push(e);
        } else {
            let me = if e.frame_timer > 1 {
                Entity { frame_timer: e.frame_timer - 1, ..e }
            } else {
                Entity { frame: e.frame + 1, frame_timer: EXPLOSION_FRAME_TICKS, ..e }
            };
            proof {
                assert(me == exploded_step(s0[i as int]));
            }
            if me.frame < EXPLOSION_LEN {
                out.push(me);
            }
        }
        i = i + 1;
    }
    proof {
        lemma_explosions_advanced_props(s0, n as int, Kind::Player);
        lemma_explosions_advanced_props(s0, n as int, Kind::Enemy);
    }
    sim.entities = out;
}

} // verus!
