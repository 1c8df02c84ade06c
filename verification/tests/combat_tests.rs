use ferris_shooter::combat::{enemy_laser_hit_player, player_laser_hit_enemy_system};
use ferris_shooter::components::{Entity, EnemyCount, Kind, Movable, Velocity};
use ferris_shooter::geom::{SpriteSize, Vec2i};
use ferris_shooter::sim::Sim;
use ferris_shooter::spawn::player_spawn_system;
use ferris_shooter::SCALE_ONE;

const W: i32 = 598;
const H: i32 = 676;

fn row(kind: Kind, x: i32, y: i32) -> Entity {
    Entity {
        kind,
        pos: Vec2i { x, y },
        size: SpriteSize { x: 10, y: 10 },
        scale: SCALE_ONE,
        vel: Velocity { x: 0, y: 0 },
        movable: Movable {
            auto_despawn: matches!(kind, Kind::PlayerLaser | Kind::EnemyLaser),
        },
        frame_timer: 0,
        frame: 0,
    }
}

fn count(s: &Sim, kind: Kind) -> usize {
    let mut n = 0;
    for i in 0..s.entities.len() {
        if s.entities[i].kind == kind {
            n += 1;
        }
    }
    n
}

#[test]
fn laser_destroys_overlapping_enemy() {
    // One enemy and one player laser, both 10x10 at scale one on (0, 0):
    // the resolver destroys both, emits one explosion request there, and
    // the enemy counter drops by one.
    let mut s = Sim::new(W, H);
    s.entities.push(row(Kind::Enemy, 0, 0));
    s.enemy_count = EnemyCount(1);
    s.entities.push(row(Kind::PlayerLaser, 0, 0));
    player_laser_hit_enemy_system(&mut s);
    assert_eq!(count(&s, Kind::Enemy), 0);
    assert_eq!(count(&s, Kind::PlayerLaser), 0);
    assert_eq!(count(&s, Kind::ExplosionToSpawn), 1);
    assert_eq!(s.entities.len(), 1);
    assert_eq!((s.entities[0].pos.x, s.entities[0].pos.y), (0, 0));
    assert_eq!(s.enemy_count.0, 0);
}

#[test]
fn laser_misses_distant_enemy() {
    let mut s = Sim::new(W, H);
    s.entities.push(row(Kind::Enemy, 100, 100));
    s.enemy_count = EnemyCount(1);
    s.entities.push(row(Kind::PlayerLaser, 0, 0));
    player_laser_hit_enemy_system(&mut s);
    assert_eq!(count(&s, Kind::Enemy), 1);
    assert_eq!(count(&s, Kind::PlayerLaser), 1);
    assert_eq!(count(&s, Kind::ExplosionToSpawn), 0);
    assert_eq!(s.enemy_count.0, 1);
}

#[test]
fn saturated_pass_resolves_min_of_lasers_and_enemies() {
    // Two lasers and three enemies, every pair overlapping: exactly two
    // enemies and two lasers go, each once.
    let mut s = Sim::new(W, H);
    s.entities.push(row(Kind::Enemy, 0, 0));
    s.entities.push(row(Kind::Enemy, 1, 0));
    s.entities.push(row(Kind::Enemy, 2, 0));
    s.enemy_count = EnemyCount(3);
    s.entities.push(row(Kind::PlayerLaser, 0, 0));
    s.entities.push(row(Kind::PlayerLaser, 1, 0));
    player_laser_hit_enemy_system(&mut s);
    assert_eq!(count(&s, Kind::Enemy), 1);
    assert_eq!(count(&s, Kind::PlayerLaser), 0);
    assert_eq!(count(&s, Kind::ExplosionToSpawn), 2);
    assert_eq!(s.enemy_count.0, 1);
}

#[test]
fn saturated_pass_with_more_lasers_than_enemies() {
    // Three lasers and two enemies, every pair overlapping: two of each
    // resolve and one laser flies on.
    let mut s = Sim::new(W, H);
    s.entities.push(row(Kind::PlayerLaser, 0, 0));
    s.entities.push(row(Kind::Enemy, 0, 0));
    s.entities.push(row(Kind::PlayerLaser, 1, 0));
    s.entities.push(row(Kind::Enemy, 1, 0));
    s.entities.push(row(Kind::PlayerLaser, 2, 0));
    s.enemy_count = EnemyCount(2);
    player_laser_hit_enemy_system(&mut s);
    assert_eq!(count(&s, Kind::Enemy), 0);
    assert_eq!(count(&s, Kind::PlayerLaser), 1);
    assert_eq!(count(&s, Kind::ExplosionToSpawn), 2);
    assert_eq!(s.enemy_count.0, 0);
}

#[test]
fn enemy_laser_shoots_down_the_player() {
    // The ship spawns, is handed an overlapping from-enemy laser, and the
    // resolver takes both out, emits a request at the ship's position, and
    // records the death at the current tick.
    let mut s = Sim::new(W, H);
    player_spawn_system(&mut s);
    let ship_pos = s.entities[0].pos;
    s.now = 55;
    let mut laser = row(Kind::EnemyLaser, ship_pos.x, ship_pos.y);
    laser.size = SpriteSize { x: 9, y: 54 };
    s.entities.push(laser);
    enemy_laser_hit_player(&mut s);
    assert_eq!(count(&s, Kind::Player), 0);
    assert_eq!(count(&s, Kind::EnemyLaser), 0);
    assert_eq!(count(&s, Kind::ExplosionToSpawn), 1);
    assert!(!s.player.alive);
    assert_eq!(s.player.last_death_time, Some(55));
    let req_idx = s.entities.len() - 1;
    assert_eq!(s.entities[req_idx].pos.x, ship_pos.x);
    assert_eq!(s.entities[req_idx].pos.y, ship_pos.y);
}

#[test]
fn only_the_first_enemy_laser_counts_this_tick() {
    let mut s = Sim::new(W, H);
    player_spawn_system(&mut s);
    let ship_pos = s.entities[0].pos;
    s.entities.push(row(Kind::EnemyLaser, ship_pos.x, ship_pos.y));
    s.entities.push(row(Kind::EnemyLaser, ship_pos.x, ship_pos.y));
    enemy_laser_hit_player(&mut s);
    // One laser was consumed with the ship; the second still flies.
    assert_eq!(count(&s, Kind::EnemyLaser), 1);
    assert_eq!(count(&s, Kind::Player), 0);
    assert_eq!(count(&s, Kind::ExplosionToSpawn), 1);
}

#[test]
fn enemy_laser_misses_with_no_ship_on_the_field() {
    let mut s = Sim::new(W, H);
    s.entities.push(row(Kind::EnemyLaser, 0, 0));
    enemy_laser_hit_player(&mut s);
    assert_eq!(count(&s, Kind::EnemyLaser), 1);
    assert_eq!(count(&s, Kind::ExplosionToSpawn), 0);
}

#[test]
fn player_lifecycle_full_round() {
    // The lifecycle scenario: fresh state spawns, a hit downs the ship and
    // stamps the tick, and the stamp clears on the next spawn.
    let mut s = Sim::new(W, H);
    assert!(!s.player.alive);
    assert!(s.player.last_death_time.is_none());
    player_spawn_system(&mut s);
    assert!(s.player.alive);
    assert!(s.player.last_death_time.is_none());
    s.now = 200;
    let ship_pos = s.entities[0].pos;
    s.entities.push(row(Kind::EnemyLaser, ship_pos.x, ship_pos.y));
    enemy_laser_hit_player(&mut s);
    assert!(!s.player.alive);
    assert_eq!(s.player.last_death_time, Some(200));
}
