//! The spawner: timed creation of enemies, the player ship, and both
//! sides' lasers, each under its capacity or eligibility gate. A spawn
//! whose gate fails is a silent no-op, never an error.

use vstd::prelude::*;
use crate::components::{Entity, Kind, Movable, Velocity, WinSize};
use crate::geom::{SpriteSize, Vec2i};
use crate::kinematics::{clamp_i32, offset_clamped};
use crate::rng::{new_rng, sample_range};
use crate::sim::{count_kind, lemma_count_push, lemma_count_upto_none, Sim};
use crate::{
    ENEMY_LASER_SIZE_X, ENEMY_LASER_SIZE_Y, ENEMY_MAX, ENEMY_MUZZLE_DY, ENEMY_SIZE_X,
    ENEMY_SIZE_Y, PLAYER_BOTTOM_GAP, PLAYER_LASER_SIZE_X, PLAYER_LASER_SIZE_Y, PLAYER_MUZZLE_DX,
    PLAYER_MUZZLE_DY, PLAYER_SIZE_X, PLAYER_SIZE_Y, PLAY_MARGIN, SCALE_ONE, SPRITE_SCALE,
};

verus! {

/// The enemy entity as spawned at `p`: default scale, no velocity, counted
/// against the cap, never auto-despawned.
pub open spec fn enemy_at(p: Vec2i) -> Entity {
    Entity {
        kind: Kind::Enemy,
        pos: p,
        size: SpriteSize { x: ENEMY_SIZE_X, y: ENEMY_SIZE_Y },
        scale: SPRITE_SCALE,
        vel: Velocity { x: 0, y: 0 },
        movable: Movable { auto_despawn: false },
        frame_timer: 0,
        frame: 0,
    }
}

/// `p` lies inside the play area inset by the spawn margin on both axes
/// (half-open on the high side, matching a uniform draw from the span).
pub open spec fn in_spawn_area(w: WinSize, p: Vec2i) -> bool {
    let wspan = w.w as int / 2 - PLAY_MARGIN;
    let hspan = w.h as int / 2 - PLAY_MARGIN;
    &&& -wspan <= p.x < wspan
    &&& -hspan <= p.y < hspan
}

/// Put one enemy at `p` and count it, if the population is under the cap;
/// at the cap, a silent no-op.
pub fn try_spawn_enemy_at(sim: &mut Sim, p: Vec2i)
    requires
        old(sim).wf(),
    ensures
        final(sim).wf(),
        old(sim).enemy_count.0 < ENEMY_MAX ==> {
            &&& final(sim).entities@ == old(sim).entities@.push(enemy_at(p))
            &&& final(sim).enemy_count.0 == old(sim).enemy_count.0 + 1
        },
        old(sim).enemy_count.0 >= ENEMY_MAX ==> *final(sim) == *old(sim),
        final(sim).player == old(sim).player,
        final(sim).now == old(sim).now,
        final(sim).win == old(sim).win,
{
    if sim.enemy_count.0 >= ENEMY_MAX {
        return ;
    }
    let e = Entity {
        kind: Kind::Enemy,
        pos: p,
        size: SpriteSize { x: ENEMY_SIZE_X, y: ENEMY_SIZE_Y },
        scale: SPRITE_SCALE,
        vel: Velocity { x: 0, y: 0 },
        movable: Movable { auto_despawn: false },
        frame_timer: 0,
        frame: 0,
    };
    proof {
        lemma_count_push(sim.entities@, Kind::Enemy, e);
        lemma_count_push(sim.entities@, Kind::Player, e);
    }
    sim.entities.push(e);
    sim.enemy_count.0 = sim.enemy_count.0 + 1;
}

/// Timed enemy spawn: on its schedule tick, draw a position uniformly
/// inside the inset play area and spawn one enemy there, if the
/// population is under the cap; at the cap no draw is made and nothing
/// changes.
pub fn enemy_spawn_system(sim: &mut Sim)
    requires
        old(sim).wf(),
    ensures
        final(sim).wf(),
        old(sim).enemy_count.0 >= ENEMY_MAX ==> *final(sim) == *old(sim),
        old(sim).enemy_count.0 < ENEMY_MAX ==> {
            &&& final(sim).enemy_count.0 == old(sim).enemy_count.0 + 1
            &&& exists|p: Vec2i|
                in_spawn_area(old(sim).win, p) && final(sim).entities@ == old(
                    sim,
                ).entities@.push(#[trigger] enemy_at(p))
        },
        final(sim).player == old(sim).player,
        final(sim).now == old(sim).now,
        final(sim).win == old(sim).win,
{
    if sim.enemy_count.0 >= ENEMY_MAX {
        return ;
    }
    let wspan = sim.win.w / 2 - PLAY_MARGIN;
    let hspan = sim.win.h / 2 - PLAY_MARGIN;
    let mut rng = new_rng();
    let x = sample_range(&mut rng, -wspan, wspan);
    let y = sample_range(&mut rng, -hspan, hspan);
    let p = Vec2i { x, y };
    try_spawn_enemy_at(sim, p);
    proof {
        assert(in_spawn_area(sim.win, p));
    }
}

/// Where the player ship spawns: the horizontal centre, its scaled
/// half-height plus a small gap above the bottom edge of the play area.
pub open spec fn player_spawn_pos(w: WinSize) -> Vec2i {
    Vec2i {
        x: 0,
        y: (-(w.h as int / 2) + PLAYER_SIZE_Y * SPRITE_SCALE / (2 * SCALE_ONE)
            + PLAYER_BOTTOM_GAP) as i32,
    }
}

/// The player entity as spawned over window `w`: default scale, at rest,
/// never auto-despawned.
pub open spec fn player_at(w: WinSize) -> Entity {
    Entity {
        kind: Kind::Player,
        pos: player_spawn_pos(w),
        size: SpriteSize { x: PLAYER_SIZE_X, y: PLAYER_SIZE_Y },
        scale: SPRITE_SCALE,
        vel: Velocity { x: 0, y: 0 },
        movable: Movable { auto_despawn: false },
        frame_timer: 0,
        frame: 0,
    }
}

/// Timed player (re)spawn: while the ship is down and the respawn gate is
/// open (no death recorded, or the respawn delay has passed since the last
/// one), put the ship at its spawn position and mark the state alive with
/// the death stamp cleared; otherwise nothing changes. The alive flag
/// matching the table rules out a double spawn however often the schedule
/// fires.
pub fn player_spawn_system(sim: &mut Sim)
    requires
        old(sim).wf(),
    ensures
        final(sim).wf(),
        !old(sim).player.may_respawn(old(sim).now) ==> *final(sim) == *old(sim),
        old(sim).player.may_respawn(old(sim).now) ==> {
            &&& final(sim).entities@ == old(sim).entities@.push(player_at(old(sim).win))
            &&& final(sim).player.alive
            &&& final(sim).player.last_death_time is None
        },
        final(sim).enemy_count == old(sim).enemy_count,
        final(sim).now == old(sim).now,
        final(sim).win == old(sim).win,
{
    let gate = !sim.player.alive && match sim.player.last_death_time {
        None => true,
        Some(t) => t <= u64::MAX - crate::RESPAWN_DELAY_TICKS && sim.now >= t
            + crate::RESPAWN_DELAY_TICKS,
    };
    proof {
        assert(gate == sim.player.may_respawn(sim.now));
    }
    if gate {
        let half_h = sim.win.h / 2;
        let y = -half_h + (PLAYER_SIZE_Y * SPRITE_SCALE) / (2 * SCALE_ONE) + PLAYER_BOTTOM_GAP;
        let e = Entity {
            kind: Kind::Player,
            pos: Vec2i { x: 0, y },
            size: SpriteSize { x: PLAYER_SIZE_X, y: PLAYER_SIZE_Y },
            scale: SPRITE_SCALE,
            vel: Velocity { x: 0, y: 0 },
            movable: Movable { auto_despawn: false },
            frame_timer: 0,
            frame: 0,
        };
        proof {
            assert(e == player_at(sim.win));
            lemma_count_push(sim.entities@, Kind::Enemy, e);
            lemma_count_push(sim.entities@, Kind::Player, e);
        }
        sim.entities.push(e);
        sim.player.spawned();
    }
}

/// The direction the keyboard steers the ship: left wins over right, and
/// neither key means rest.
pub open spec fn keyboard_dir(left: bool, right: bool) -> int {
    if left {
        -1
    } else if right {
        1
    } else {
        0
    }
}

/// The player row steered in the direction the keys hold.
pub open spec fn steered(e: Entity, left: bool, right: bool) -> Entity {
    Entity { vel: Velocity { x: keyboard_dir(left, right) as i32, y: e.vel.y }, ..e }
}

/// Keyboard steering: point the player ship's horizontal velocity in the
/// held direction. With no ship on the field the tick is skipped.
pub fn player_keyboard_event_system(sim: &mut Sim, left: bool, right: bool)
    requires
        old(sim).wf(),
    ensures
        final(sim).wf(),
        !old(sim).player.alive ==> *final(sim) == *old(sim),
        old(sim).player.alive ==> exists|i: int|
            {
                &&& 0 <= i < old(sim).entities@.len()
                &&& (#[trigger] old(sim).entities@[i]).kind == Kind::Player
                &&& final(sim).entities@ == old(sim).entities@.update(
                    i,
                    steered(old(sim).entities@[i], left, right),
                )
            },
        final(sim).enemy_count == old(sim).enemy_count,
        final(sim).player == old(sim).player,
        final(sim).now == old(sim).now,
        final(sim).win == old(sim).win,
{
    let dir: i32 = if left {
        -1
    } else if right {
        1
    } else {
        0
    };
    let n = sim.entities.len();
    let mut i: usize = 0;
    while i < n
        invariant
            *sim == *old(sim),
            old(sim).wf(),
            n == sim.entities@.len(),
            i <= n,
            forall|j: int| 0 <= j < i ==> (#[trigger] sim.entities@[j]).kind != Kind::Player,
            dir as int == keyboard_dir(left, right),
        decreases n - i,
    {
        if sim.entities[i].kind == Kind::Player {
            let ghost s0 = sim.entities@;
            let ghost idx = i as int;
            proof {
                crate::sim::lemma_count_at_least(s0, Kind::Player, idx);
            }
            let mut e = sim.entities[i];
            e.vel.x = dir;
            proof {
                crate::sim::lemma_count_update(s0, idx, e, Kind::Enemy);
                crate::sim::lemma_count_update(s0, idx, e, Kind::Player);
            }
            sim.entities[i] = e;
            proof {
                assert(e == steered(s0[idx], left, right));
                assert(old(sim).player.alive ==> exists|k: int|
                    {
                        &&& 0 <= k < old(sim).entities@.len()
                        &&& (#[trigger] old(sim).entities@[k]).kind == Kind::Player
                        &&& sim.entities@ == old(sim).entities@.update(
                            k,
                            steered(old(sim).entities@[k], left, right),
                        )
                    });
            }
            return ;
        }
        i = i + 1;
    }
    proof {
        lemma_count_upto_none(sim.entities@, Kind::Player, n as int);
        assert(!sim.player.alive);
    }
}

/// A player laser as spawned from muzzle offset (`dx`, `dy`) off the
/// ship's position `p`: tagged from-player, moving straight up, removed
/// once it leaves the play area.
pub open spec fn player_laser_at(p: Vec2i, dx: int, dy: int) -> Entity {
    Entity {
        kind: Kind::PlayerLaser,
        pos: Vec2i { x: clamp_i32(p.x + dx) as i32, y: clamp_i32(p.y + dy) as i32 },
        size: SpriteSize { x: PLAYER_LASER_SIZE_X, y: PLAYER_LASER_SIZE_Y },
        scale: SPRITE_SCALE,
        vel: Velocity { x: 0, y: 1 },
        movable: Movable { auto_despawn: true },
        frame_timer: 0,
        frame: 0,
    }
}

/// Player fire: on a fire-key edge (pressed this tick, not merely held),
/// spawn exactly two symmetric lasers off the ship's wingtip muzzles. With
/// no edge or no ship on the field, nothing changes.
pub fn player_fire_system(sim: &mut Sim, just_pressed: bool)
    requires
        old(sim).wf(),
    ensures
        final(sim).wf(),
        !(just_pressed && old(sim).player.alive) ==> *final(sim) == *old(sim),
        just_pressed && old(sim).player.alive ==> exists|i: int|
            {
                &&& 0 <= i < old(sim).entities@.len()
                &&& (#[trigger] old(sim).entities@[i]).kind == Kind::Player
                &&& final(sim).entities@ == old(sim).entities@.push(
                    player_laser_at(
                        old(sim).entities@[i].pos,
                        PLAYER_MUZZLE_DX as int,
                        PLAYER_MUZZLE_DY as int,
                    ),
                ).push(
                    player_laser_at(
                        old(sim).entities@[i].pos,
                        -PLAYER_MUZZLE_DX as int,
                        PLAYER_MUZZLE_DY as int,
                    ),
                )
            },
        final(sim).enemy_count == old(sim).enemy_count,
        final(sim).player == old(sim).player,
        final(sim).now == old(sim).now,
        final(sim).win == old(sim).win,
{
    if !just_pressed {
        return ;
    }
    let n = sim.entities.len();
    let mut i: usize = 0;
    while i < n
        invariant
            *sim == *old(sim),
            old(sim).wf(),
            n == sim.entities@.len(),
            i <= n,
            forall|j: int| 0 <= j < i ==> (#[trigger] sim.entities@[j]).kind != Kind::Player,
            just_pressed,
        decreases n - i,
    {
        if sim.entities[i].kind == Kind::Player {
            let ghost s0 = sim.entities@;
            let ghost idx = i as int;
            proof {
                crate::sim::lemma_count_at_least(s0, Kind::Player, idx);
            }
            let p = sim.entities[i].pos;
            spawn_player_laser(sim, p, PLAYER_MUZZLE_DX);
            spawn_player_laser(sim, p, -PLAYER_MUZZLE_DX);
            proof {
                assert(0 <= idx < old(sim).entities@.len() && old(sim).entities@[idx].kind
                    == Kind::Player && sim.entities@ == old(sim).entities@.push(
                    player_laser_at(
                        old(sim).entities@[idx].pos,
                        PLAYER_MUZZLE_DX as int,
                        PLAYER_MUZZLE_DY as int,
                    ),
                ).push(
                    player_laser_at(
                        old(sim).entities@[idx].pos,
                        -PLAYER_MUZZLE_DX as int,
                        PLAYER_MUZZLE_DY as int,
                    ),
                ));
            }
            return ;
        }
        i = i + 1;
    }
    proof {
        lemma_count_upto_none(sim.entities@, Kind::Player, n as int);
        assert(!sim.player.alive);
    }
}

/// Append one player laser fired from the ship position `p` at horizontal
/// muzzle offset `dx`.
fn spawn_player_laser(sim: &mut Sim, p: Vec2i, dx: i32) -> (r: ())
    requires
        old(sim).wf(),
    ensures
        final(sim).wf(),
        final(sim).entities@ == old(sim).entities@.push(
            player_laser_at(p, dx as int, PLAYER_MUZZLE_DY as int),
        ),
        final(sim).enemy_count == old(sim).enemy_count,
        final(sim).player == old(sim).player,
        final(sim).now == old(sim).now,
        final(sim).win == old(sim).win,
{
    let e = Entity {
        kind: Kind::PlayerLaser,
        pos: Vec2i { x: offset_clamped(p.x, dx), y: offset_clamped(p.y, PLAYER_MUZZLE_DY) },
        size: SpriteSize { x: PLAYER_LASER_SIZE_X, y: PLAYER_LASER_SIZE_Y },
        scale: SPRITE_SCALE,
        vel: Velocity { x: 0, y: 1 },
        movable: Movable { auto_despawn: true },
        frame_timer: 0,
        frame: 0,
    };
    proof {
        lemma_count_push(sim.entities@, Kind::Enemy, e);
        lemma_count_push(sim.entities@, Kind::Player, e);
    }
    sim.entities.push(e);
}

/// An enemy laser as spawned from the enemy position `p`: tagged
/// from-enemy, offset toward the player's side, moving straight down,
/// removed once it leaves the play area.
pub open spec fn enemy_laser_at(p: Vec2i) -> Entity {
    Entity {
        kind: Kind::EnemyLaser,
        pos: Vec2i { x: p.x, y: clamp_i32(p.y + ENEMY_MUZZLE_DY) as i32 },
        size: SpriteSize { x: ENEMY_LASER_SIZE_X, y: ENEMY_LASER_SIZE_Y },
        scale: SPRITE_SCALE,
        vel: Velocity { x: 0, y: -1i32 },
        movable: Movable { auto_despawn: true },
        frame_timer: 0,
        frame: 0,
    }
}

/// The lasers added by an enemy-fire pass over the first `n` rows of `s`:
/// one per enemy row whose roll in `fires` came up, in row order.
pub open spec fn lasers_added(s: Seq<Entity>, fires: Seq<bool>, n: int) -> Seq<Entity>
    decreases n,
{
    if n <= 0 {
        Seq::empty()
    } else {
        let pre = lasers_added(s, fires, n - 1);
        if s[n - 1].kind == Kind::Enemy && fires[n - 1] {
            pre.push(enemy_laser_at(s[n - 1].pos))
        } else {
            pre
        }
    }
}

/// One fire pass with the rolls already decided: each enemy row whose
/// roll in `fires` came up appends one laser at the end of the table, in
/// row order, offset from its enemy toward the player's side; nothing
/// else changes. This is the whole of the fire logic, verified for every
/// outcome of the rolls.
pub fn fire_enemy_lasers(sim: &mut Sim, fires: &Vec<bool>)
    requires
        old(sim).wf(),
        fires@.len() == old(sim).entities@.len(),
    ensures
        final(sim).wf(),
        final(sim).entities@ == old(sim).entities@ + lasers_added(
            old(sim).entities@,
            fires@,
            old(sim).entities@.len() as int,
        ),
        final(sim).enemy_count == old(sim).enemy_count,
        final(sim).player == old(sim).player,
        final(sim).now == old(sim).now,
        final(sim).win == old(sim).win,
{
    let n = fires.len();
    let ghost s0 = sim.entities@;
    let mut i: usize = 0;
    while i < n
        invariant
            old(sim).wf(),
            n == s0.len(),
            n == fires@.len(),
            s0 == old(sim).entities@,
            i <= n,
            sim.entities@ == s0 + lasers_added(s0, fires@, i as int),
            sim.enemy_count == old(sim).enemy_count,
            sim.player == old(sim).player,
            sim.now == old(sim).now,
            sim.win == old(sim).win,
            count_kind(sim.entities@, Kind::Enemy) == count_kind(s0, Kind::Enemy),
            count_kind(sim.entities@, Kind::Player) == count_kind(s0, Kind::Player),
            forall|j: int|
                0 <= j < sim.entities@.len() ==> (#[trigger] sim.entities@[j]).scale > 0,
            forall|j: int|
                0 <= j < sim.entities@.len() && (#[trigger] sim.entities@[j]).kind
                    == Kind::Explosion ==> sim.entities@[j].frame < crate::EXPLOSION_LEN,
            forall|j: int|
                0 <= j < sim.entities@.len() && ((#[trigger] sim.entities@[j]).kind
                    == Kind::Player || sim.entities@[j].kind == Kind::Enemy)
                    ==> !sim.entities@[j].movable.auto_despawn,
        decreases n - i,
    {
        let e = sim.entities[i];
        if e.kind == Kind::Enemy && fires[i] {
            let laser = Entity {
                kind: Kind::EnemyLaser,
                pos: Vec2i { x: e.pos.x, y: offset_clamped(e.pos.y, ENEMY_MUZZLE_DY) },
                size: SpriteSize { x: ENEMY_LASER_SIZE_X, y: ENEMY_LASER_SIZE_Y },
                scale: SPRITE_SCALE,
                vel: Velocity { x: 0, y: -1 },
                movable: Movable { auto_despawn: true },
                frame_timer: 0,
                frame: 0,
            };
            proof {
                lemma_count_push(sim.entities@, Kind::Enemy, laser);
                lemma_count_push(sim.entities@, Kind::Player, laser);
                assert(laser == enemy_laser_at(s0[i as int].pos));
            }
            sim.entities.push(laser);
            proof {
                assert(sim.entities@ =~= s0 + lasers_added(s0, fires@, i as int + 1));
            }
        }
        i = i + 1;
    }
}

/// Each live enemy independently rolls the fixed per-tick chance, and the
/// fired lasers appear at the end of the table in row order. Whatever the
/// rolls came up, no other row changes and no other kind's population
/// moves.
pub fn enemy_fire_system(sim: &mut Sim)
    requires
        old(sim).wf(),
    ensures
        final(sim).wf(),
        exists|fires: Seq<bool>|
            final(sim).entities@ == old(sim).entities@ + #[trigger] lasers_added(
                old(sim).entities@,
                fires,
                old(sim).entities@.len() as int,
            ),
        final(sim).enemy_count == old(sim).enemy_count,
        final(sim).player == old(sim).player,
        final(sim).now == old(sim).now,
        final(sim).win == old(sim).win,
{
    let mut rng = new_rng();
    let n = sim.entities.len();
    let mut fires: Vec<bool> = Vec::new();
    let mut i: usize = 0;
    while i < n
        invariant
            *sim == *old(sim),
            n == sim.entities@.len(),
            i <= n,
            fires@.len() == i,
        decreases n - i,
    {
        let fire = if sim.entities[i].kind == Kind::Enemy {
            sample_range(&mut rng, 0, crate::ENEMY_FIRE_ODDS) == 0
        } else {
            false
        };
        fires.push(fire);
        i = i + 1;
    }
    fire_enemy_lasers(sim, &fires);
}

} // verus!
