//! Gameplay simulation core of a top-down arcade shooter.
//!
//! The library owns the rules of the game: timed spawning of enemies,
//! projectiles and the player ship, kinematics for straight movers and the
//! enemy's elliptical patrol, axis-aligned collision between projectiles and
//! targets, and the bookkeeping around them (enemy population cap, player
//! respawn gate, explosion playback). The host that drives it supplies ticks,
//! keyboard state and a window size, and renders the entity table; none of
//! that lives here.
//!
//! All coordinates are integers on a fixed grid, time is counted in whole
//! ticks, and sprite scale is a fixed-point fraction over [`SCALE_ONE`].

use vstd::prelude::*;

pub mod combat;
pub mod components;
pub mod geom;
pub mod kinematics;
pub mod lifecycle;
mod rng;
pub mod sim;
pub mod spawn;

verus! {

/// Most enemies that may be alive at once: the population cap the spawner
/// respects.
pub const ENEMY_MAX: u32 = 3;

/// Inset from the window edges inside which enemies may spawn.
pub const PLAY_MARGIN: i32 = 100;

/// Extra margin beyond the window half-extent before an auto-despawning
/// entity is removed.
pub const DESPAWN_MARGIN: i32 = 200;

/// Ticks the player must stay down after a hit before a respawn may fire
/// (one second of simulated time).
pub const RESPAWN_DELAY_TICKS: u64 = 60;

/// World units a unit-velocity entity covers in one tick: the product of the
/// base speed and the tick duration.
pub const SPEED_PER_TICK: i32 = 8;

/// One chance in this many that a given enemy fires on a given tick.
pub const ENEMY_FIRE_ODDS: i32 = 60;

/// Frames in the explosion sprite sheet.
pub const EXPLOSION_LEN: u32 = 16;

/// Ticks each explosion frame stays on screen before the next one.
pub const EXPLOSION_FRAME_TICKS: u32 = 3;

/// Fixed-point denominator for sprite scale: a scale of `SCALE_ONE` draws a
/// sprite at its natural size.
pub const SCALE_ONE: i32 = 100;

/// Fixed-point denominator for the integer sine and cosine.
pub const MILLI: i32 = 1000;

/// Default sprite scale: half natural size.
pub const SPRITE_SCALE: i32 = 50;

/// Horizontal radius of the enemy patrol ellipse.
pub const ORBIT_X_RADIUS: i32 = 300;

/// Vertical radius of the enemy patrol ellipse.
pub const ORBIT_Y_RADIUS: i32 = 130;

/// Degrees the patrol angle advances per tick.
pub const ORBIT_STEP_DEG: u64 = 2;

/// Player ship sprite extent in world units.
pub const PLAYER_SIZE_X: i32 = 144;
/// Player ship sprite extent in world units.
pub const PLAYER_SIZE_Y: i32 = 75;

/// Player laser sprite extent in world units.
pub const PLAYER_LASER_SIZE_X: i32 = 9;
/// Player laser sprite extent in world units.
pub const PLAYER_LASER_SIZE_Y: i32 = 54;

/// Enemy sprite extent in world units.
pub const ENEMY_SIZE_X: i32 = 144;
/// Enemy sprite extent in world units.
pub const ENEMY_SIZE_Y: i32 = 75;

/// Enemy laser sprite extent in world units.
pub const ENEMY_LASER_SIZE_X: i32 = 9;
/// Enemy laser sprite extent in world units.
pub const ENEMY_LASER_SIZE_Y: i32 = 54;

/// Horizontal offset of the player's two laser muzzles from the ship's
/// centre: five units inside the scaled half-width of the ship.
pub const PLAYER_MUZZLE_DX: i32 = 31;

/// Vertical offset of the player's laser muzzles, ahead of the ship.
pub const PLAYER_MUZZLE_DY: i32 = 20;

/// Vertical offset of an enemy's laser muzzle, toward the player's side.
pub const ENEMY_MUZZLE_DY: i32 = -15;

/// Gap between the bottom edge of the play area and the player's spawn
/// position, under the scaled half-height of the ship.
pub const PLAYER_BOTTOM_GAP: i32 = 5;

} // verus!
