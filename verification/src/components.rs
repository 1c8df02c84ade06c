//! Attribute records attached to entities, and the two process-wide
//! singletons: the enemy population counter and the player lifecycle state.

use vstd::prelude::*;
use crate::geom::{SpriteSize, Vec2i};

verus! {

/// Per-tick direction of a mover. Ships steered by input and lasers keep
/// each component in `{-1, 0, 1}`; the displacement per tick is the
/// component times the base speed times the tick duration.
#[derive(Clone, Copy, PartialEq, Eq, Structural, Debug)]
pub struct Velocity {
    pub x: i32,
    pub y: i32,
}

/// Movement tag. An entity with `auto_despawn` set is removed once it
/// leaves the play area plus a fixed margin.
#[derive(Clone, Copy, PartialEq, Eq, Structural, Debug)]
pub struct Movable {
    pub auto_despawn: bool,
}

/// Mutually exclusive role and faction markers. A laser carries the side
/// that fired it, so only valid pairs collide: player lasers damage only
/// enemies, enemy lasers only the player.
#[derive(Clone, Copy, PartialEq, Eq, Structural, Debug)]
pub enum Kind {
    /// The player ship.
    Player,
    /// An enemy ship.
    Enemy,
    /// A laser fired by the player.
    PlayerLaser,
    /// A laser fired by an enemy.
    EnemyLaser,
    /// Transient request to materialize an explosion at its position.
    ExplosionToSpawn,
    /// An explosion playing through the sprite sheet.
    Explosion,
}

/// One row of the entity table: the attributes the simulation reads and
/// writes. Rows are addressed by their index in the current tick's table.
#[derive(Clone, Copy, PartialEq, Eq, Structural, Debug)]
pub struct Entity {
    pub kind: Kind,
    /// Centre of the sprite on the integer grid.
    pub pos: Vec2i,
    /// Sprite extent in world units.
    pub size: SpriteSize,
    /// Fixed-point sprite scale over [`crate::SCALE_ONE`]; always positive.
    pub scale: i32,
    pub vel: Velocity,
    pub movable: Movable,
    /// Explosions only: ticks left before the next frame.
    pub frame_timer: u32,
    /// Explosions only: index of the frame on screen.
    pub frame: u32,
}

/// Enemy population counter: incremented on enemy spawn, decremented on
/// enemy destruction, never above [`crate::ENEMY_MAX`].
#[derive(Clone, Copy, Debug)]
pub struct EnemyCount(pub u32);

/// Player lifecycle state: whether the ship is on the field, and when it
/// was last shot down.
#[derive(Clone, Copy, Debug)]
pub struct PlayerState {
    pub alive: bool,
    /// Tick of the last death; cleared while the player is alive.
    pub last_death_time: Option<u64>,
}

impl Default for PlayerState {
    /// The game opens with no ship on the field and no death recorded, so
    /// the first respawn tick may spawn at once.
    fn default() -> (s: Self)
        ensures
            !s.alive,
            s.last_death_time is None,
    {
        PlayerState { alive: false, last_death_time: None }
    }
}

impl PlayerState {
    /// Record a hit: the ship leaves the field and the respawn clock
    /// starts at `time`.
    pub fn shot(&mut self, time: u64)
        ensures
            !final(self).alive,
            final(self).last_death_time == Some(time),
    {
        self.alive = false;
        self.last_death_time = Some(time);
    }

    /// Record a (re)spawn: the ship is on the field and the death stamp
    /// is cleared.
    pub fn spawned(&mut self)
        ensures
            final(self).alive,
            final(self).last_death_time is None,
    {
        self.alive = true;
        self.last_death_time = None;
    }

    /// The respawn-gate law: with the ship down since tick `t`, a respawn
    /// attempt is a no-op at every tick before `t` plus the delay, and
    /// spawns at every tick from then on.
    pub proof fn lemma_respawn_gate(self, t: u64, now: u64)
        requires
            !self.alive,
            self.last_death_time == Some(t),
        ensures
            self.may_respawn(now) <==> now >= t + crate::RESPAWN_DELAY_TICKS,
    {
    }

    /// The respawn gate: a new ship may spawn at `now` only while the old
    /// one is down, and only once the respawn delay has passed since the
    /// last death (or no death was ever recorded).
    pub open spec fn may_respawn(self, now: u64) -> bool {
        &&& !self.alive
        &&& match self.last_death_time {
            None => true,
            Some(t) => now >= t + crate::RESPAWN_DELAY_TICKS,
        }
    }
}

/// Play-area size, resolved once at startup.
#[derive(Clone, Copy, PartialEq, Eq, Structural, Debug)]
pub struct WinSize {
    pub w: i32,
    pub h: i32,
}

impl WinSize {
    /// The window leaves a non-empty spawn area inside the inset margin on
    /// both axes.
    pub open spec fn wf(self) -> bool {
        &&& 2 * crate::PLAY_MARGIN + 2 <= self.w
        &&& 2 * crate::PLAY_MARGIN + 2 <= self.h
    }
}

} // verus!
