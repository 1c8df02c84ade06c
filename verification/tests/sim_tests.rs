use ferris_shooter::components::{Entity, EnemyCount, Kind, Movable, PlayerState, Velocity, WinSize};
use ferris_shooter::geom::{SpriteSize, Vec2i};
use ferris_shooter::lifecycle::{
    enemy_movement_system, explosion_animation_system, explosion_to_spawn_system, movable_system,
};
use ferris_shooter::sim::Sim;
use ferris_shooter::spawn::{
    enemy_spawn_system, player_fire_system, player_keyboard_event_system, player_spawn_system,
    try_spawn_enemy_at,
};
use ferris_shooter::{
    ENEMY_MAX, EXPLOSION_FRAME_TICKS, EXPLOSION_LEN, PLAYER_MUZZLE_DX, PLAYER_MUZZLE_DY,
    PLAY_MARGIN, RESPAWN_DELAY_TICKS, SCALE_ONE, SPEED_PER_TICK, SPRITE_SCALE,
};

const W: i32 = 598;
const H: i32 = 676;

fn fresh() -> Sim {
    Sim::new(W, H)
}

fn laser_row(x: i32, y: i32, vel_y: i32) -> Entity {
    Entity {
        kind: Kind::PlayerLaser,
        pos: Vec2i { x, y },
        size: SpriteSize { x: 9, y: 54 },
        scale: SPRITE_SCALE,
        vel: Velocity { x: 0, y: vel_y },
        movable: Movable { auto_despawn: true },
        frame_timer: 0,
        frame: 0,
    }
}

#[test]
fn new_sim_is_empty() {
    let s = fresh();
    assert_eq!(s.entities.len(), 0);
    assert_eq!(s.enemy_count.0, 0);
    assert!(!s.player.alive);
    assert!(s.player.last_death_time.is_none());
    assert_eq!(s.now, 0);
}

#[test]
fn player_state_transitions() {
    let mut p = PlayerState::default();
    assert!(!p.alive);
    assert!(p.last_death_time.is_none());
    p.spawned();
    assert!(p.alive);
    assert!(p.last_death_time.is_none());
    p.shot(77);
    assert!(!p.alive);
    assert_eq!(p.last_death_time, Some(77));
    p.spawned();
    assert!(p.alive);
    assert!(p.last_death_time.is_none());
}

#[test]
fn enemy_cap_blocks_the_fourth_spawn() {
    let mut s = fresh();
    for k in 0..ENEMY_MAX {
        try_spawn_enemy_at(&mut s, Vec2i { x: k as i32 * 10, y: 0 });
    }
    assert_eq!(s.enemy_count.0, ENEMY_MAX);
    assert_eq!(s.entities.len(), ENEMY_MAX as usize);
    // At the cap the spawn is a silent no-op.
    try_spawn_enemy_at(&mut s, Vec2i { x: 99, y: 99 });
    assert_eq!(s.enemy_count.0, ENEMY_MAX);
    assert_eq!(s.entities.len(), ENEMY_MAX as usize);
}

#[test]
fn random_enemy_spawn_lands_inside_the_inset_area() {
    for _ in 0..20 {
        let mut s = fresh();
        enemy_spawn_system(&mut s);
        assert_eq!(s.enemy_count.0, 1);
        let e = s.entities[0];
        assert_eq!(e.kind, Kind::Enemy);
        let wspan = W / 2 - PLAY_MARGIN;
        let hspan = H / 2 - PLAY_MARGIN;
        assert!(-wspan <= e.pos.x && e.pos.x < wspan);
        assert!(-hspan <= e.pos.y && e.pos.y < hspan);
        assert_eq!(e.scale, SPRITE_SCALE);
    }
}

#[test]
fn player_spawns_at_bottom_centre() {
    let mut s = fresh();
    player_spawn_system(&mut s);
    assert!(s.player.alive);
    assert!(s.player.last_death_time.is_none());
    assert_eq!(s.entities.len(), 1);
    let p = s.entities[0];
    assert_eq!(p.kind, Kind::Player);
    assert_eq!(p.pos.x, 0);
    assert_eq!(p.pos.y, -(H / 2) + 75 * SPRITE_SCALE / (2 * SCALE_ONE) + 5);
}

#[test]
fn respawn_gate_blocks_until_the_delay_has_passed() {
    let mut s = fresh();
    player_spawn_system(&mut s);
    let shot_at = 100u64;
    s.player.shot(shot_at);
    s.entities.clear();
    // One tick short of the delay: a no-op.
    s.now = shot_at + RESPAWN_DELAY_TICKS - 1;
    player_spawn_system(&mut s);
    assert!(!s.player.alive);
    assert_eq!(s.entities.len(), 0);
    // One tick past the delay: the ship returns.
    s.now = shot_at + RESPAWN_DELAY_TICKS + 1;
    player_spawn_system(&mut s);
    assert!(s.player.alive);
    assert_eq!(s.entities.len(), 1);
    assert!(s.player.last_death_time.is_none());
}

#[test]
fn respawn_fires_exactly_at_the_delay() {
    let mut s = fresh();
    s.player.shot(40);
    s.now = 40 + RESPAWN_DELAY_TICKS;
    player_spawn_system(&mut s);
    assert!(s.player.alive);
}

#[test]
fn double_spawn_is_impossible_while_alive() {
    let mut s = fresh();
    player_spawn_system(&mut s);
    assert_eq!(s.entities.len(), 1);
    player_spawn_system(&mut s);
    player_spawn_system(&mut s);
    assert_eq!(s.entities.len(), 1);
}

#[test]
fn keyboard_steers_the_ship() {
    let mut s = fresh();
    player_spawn_system(&mut s);
    player_keyboard_event_system(&mut s, true, false);
    assert_eq!(s.entities[0].vel.x, -1);
    player_keyboard_event_system(&mut s, false, true);
    assert_eq!(s.entities[0].vel.x, 1);
    // Left wins when both are held.
    player_keyboard_event_system(&mut s, true, true);
    assert_eq!(s.entities[0].vel.x, -1);
    player_keyboard_event_system(&mut s, false, false);
    assert_eq!(s.entities[0].vel.x, 0);
}

#[test]
fn keyboard_without_a_ship_changes_nothing() {
    let mut s = fresh();
    player_keyboard_event_system(&mut s, true, false);
    assert_eq!(s.entities.len(), 0);
}

#[test]
fn fire_edge_spawns_two_symmetric_lasers() {
    let mut s = fresh();
    player_spawn_system(&mut s);
    let ship = s.entities[0];
    player_fire_system(&mut s, true);
    assert_eq!(s.entities.len(), 3);
    let l1 = s.entities[1];
    let l2 = s.entities[2];
    assert_eq!(l1.kind, Kind::PlayerLaser);
    assert_eq!(l2.kind, Kind::PlayerLaser);
    assert_eq!(l1.pos.x, ship.pos.x + PLAYER_MUZZLE_DX);
    assert_eq!(l2.pos.x, ship.pos.x - PLAYER_MUZZLE_DX);
    assert_eq!(l1.pos.y, ship.pos.y + PLAYER_MUZZLE_DY);
    assert_eq!(l2.pos.y, ship.pos.y + PLAYER_MUZZLE_DY);
    assert_eq!(l1.vel.y, 1);
    assert!(l1.movable.auto_despawn);
}

#[test]
fn no_fire_without_the_edge_or_the_ship() {
    let mut s = fresh();
    player_fire_system(&mut s, true);
    assert_eq!(s.entities.len(), 0);
    player_spawn_system(&mut s);
    player_fire_system(&mut s, false);
    assert_eq!(s.entities.len(), 1);
}

#[test]
fn movement_advances_lasers() {
    let mut s = fresh();
    s.entities.push(laser_row(0, 0, 1));
    movable_system(&mut s);
    assert_eq!(s.entities.len(), 1);
    assert_eq!((s.entities[0].pos.x, s.entities[0].pos.y), (0, SPEED_PER_TICK));
}

#[test]
fn out_of_bounds_mover_despawns_within_one_tick() {
    let mut s = fresh();
    let margin_line = H / 2 + 200;
    // One unit beyond the margin: removed this very tick.
    s.entities.push(laser_row(0, margin_line + 1, 0));
    movable_system(&mut s);
    assert_eq!(s.entities.len(), 0);
}

#[test]
fn mover_inside_the_margin_is_retained() {
    let mut s = fresh();
    let margin_line = H / 2 + 200;
    s.entities.push(laser_row(0, margin_line - 1, 0));
    movable_system(&mut s);
    assert_eq!(s.entities.len(), 1);
}

#[test]
fn enemy_patrol_steps_toward_the_orbit_target() {
    let mut s = fresh();
    // At tick 0 the target is (300, 0).
    try_spawn_enemy_at(&mut s, Vec2i { x: 0, y: 0 });
    enemy_movement_system(&mut s);
    assert_eq!((s.entities[0].pos.x, s.entities[0].pos.y), (SPEED_PER_TICK, 0));
}

#[test]
fn enemy_already_on_target_does_not_move() {
    let mut s = fresh();
    try_spawn_enemy_at(&mut s, Vec2i { x: 298, y: 0 });
    enemy_movement_system(&mut s);
    // 2 away from (300, 0): snaps onto the target, never past it.
    assert_eq!((s.entities[0].pos.x, s.entities[0].pos.y), (300, 0));
    enemy_movement_system(&mut s);
    assert_eq!((s.entities[0].pos.x, s.entities[0].pos.y), (300, 0));
}

#[test]
fn explosion_request_materializes_exactly_once() {
    let mut s = fresh();
    s.entities.push(Entity {
        kind: Kind::ExplosionToSpawn,
        pos: Vec2i { x: 5, y: 6 },
        size: SpriteSize { x: 0, y: 0 },
        scale: SCALE_ONE,
        vel: Velocity { x: 0, y: 0 },
        movable: Movable { auto_despawn: false },
        frame_timer: 0,
        frame: 0,
    });
    explosion_to_spawn_system(&mut s);
    assert_eq!(s.entities.len(), 1);
    let e = s.entities[0];
    assert_eq!(e.kind, Kind::Explosion);
    assert_eq!((e.pos.x, e.pos.y), (5, 6));
    assert_eq!(e.frame, 0);
    assert_eq!(e.frame_timer, EXPLOSION_FRAME_TICKS);
    // A second pass finds no request left to consume.
    explosion_to_spawn_system(&mut s);
    assert_eq!(s.entities.len(), 1);
    assert_eq!(s.entities[0].kind, Kind::Explosion);
}

#[test]
fn explosion_counts_down_then_advances_a_frame() {
    let mut s = fresh();
    s.entities.push(Entity {
        kind: Kind::Explosion,
        pos: Vec2i { x: 0, y: 0 },
        size: SpriteSize { x: 0, y: 0 },
        scale: SCALE_ONE,
        vel: Velocity { x: 0, y: 0 },
        movable: Movable { auto_despawn: false },
        frame_timer: EXPLOSION_FRAME_TICKS,
        frame: 0,
    });
    explosion_animation_system(&mut s);
    assert_eq!(s.entities[0].frame, 0);
    assert_eq!(s.entities[0].frame_timer, EXPLOSION_FRAME_TICKS - 1);
    explosion_animation_system(&mut s);
    explosion_animation_system(&mut s);
    assert_eq!(s.entities[0].frame, 1);
    assert_eq!(s.entities[0].frame_timer, EXPLOSION_FRAME_TICKS);
}

#[test]
fn explosion_retires_after_the_last_frame() {
    let mut s = fresh();
    s.entities.push(Entity {
        kind: Kind::Explosion,
        pos: Vec2i { x: 0, y: 0 },
        size: SpriteSize { x: 0, y: 0 },
        scale: SCALE_ONE,
        vel: Velocity { x: 0, y: 0 },
        movable: Movable { auto_despawn: false },
        frame_timer: 1,
        frame: EXPLOSION_LEN - 1,
    });
    explosion_animation_system(&mut s);
    assert_eq!(s.entities.len(), 0);
}

#[test]
fn decided_rolls_fire_exactly_those_enemies() {
    let mut s = fresh();
    try_spawn_enemy_at(&mut s, Vec2i { x: 0, y: 0 });
    try_spawn_enemy_at(&mut s, Vec2i { x: 10, y: 10 });
    try_spawn_enemy_at(&mut s, Vec2i { x: 20, y: 20 });
    let fires = vec![true, false, true];
    ferris_shooter::spawn::fire_enemy_lasers(&mut s, &fires);
    assert_eq!(s.entities.len(), 5);
    let l1 = s.entities[3];
    let l2 = s.entities[4];
    assert_eq!(l1.kind, Kind::EnemyLaser);
    assert_eq!((l1.pos.x, l1.pos.y), (0, -15));
    assert_eq!(l2.kind, Kind::EnemyLaser);
    assert_eq!((l2.pos.x, l2.pos.y), (20, 5));
    assert_eq!(s.enemy_count.0, 3);
}

#[test]
fn enemy_fire_only_appends_enemy_lasers() {
    let mut s = fresh();
    try_spawn_enemy_at(&mut s, Vec2i { x: 10, y: 20 });
    let before = s.entities.len();
    // The roll is random: whatever came of it, the rows already in the
    // table stand untouched and anything new is a from-enemy laser just
    // under an enemy.
    for _ in 0..200 {
        ferris_shooter::spawn::enemy_fire_system(&mut s);
    }
    assert_eq!(s.entities[0].kind, Kind::Enemy);
    assert_eq!((s.entities[0].pos.x, s.entities[0].pos.y), (10, 20));
    for i in before..s.entities.len() {
        let l = s.entities[i];
        assert_eq!(l.kind, Kind::EnemyLaser);
        assert_eq!(l.pos.x, 10);
        assert_eq!(l.pos.y, 20 - 15);
        assert_eq!(l.vel.y, -1);
        assert!(l.movable.auto_despawn);
    }
}

#[test]
fn win_size_holds_the_window() {
    let s = Sim::new(598, 676);
    assert_eq!(s.win, WinSize { w: 598, h: 676 });
    assert_eq!(s.enemy_count.0, EnemyCount(0).0);
}
