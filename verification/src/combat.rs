//! The combat resolver: two independent passes per tick. Enemy lasers
//! against the player, where only the first overlap counts and scanning
//! stops for the tick; and player lasers against enemies, a nested pass
//! with deduplication so no laser and no enemy is ever resolved twice.

use vstd::prelude::*;
use crate::components::{Entity, Kind, Movable, Velocity};
use crate::geom::{overlaps, overlaps_spec, SpriteSize, Vec2i};
use crate::sim::{
    count_kind, count_upto, lemma_count_at_least, lemma_count_push, lemma_count_remove,
    lemma_count_upto_none, Sim,
};
use crate::SCALE_ONE;

verus! {

/// The transient marker consumed next pass into an animated explosion at
/// the position where something was destroyed.
pub open spec fn explosion_request_at(p: Vec2i) -> Entity {
    Entity {
        kind: Kind::ExplosionToSpawn,
        pos: p,
        size: SpriteSize { x: 0, y: 0 },
        scale: SCALE_ONE,
        vel: Velocity { x: 0, y: 0 },
        movable: Movable { auto_despawn: false },
        frame_timer: 0,
        frame: 0,
    }
}

/// The laser's scaled box overlaps the target's.
pub open spec fn hits(laser: Entity, target: Entity) -> bool {
    overlaps_spec(laser.pos, laser.size, laser.scale as int, target.pos, target.size, target.scale as int)
}

/// The first from-enemy laser row at or after `j` whose box overlaps the
/// player `pl`.
pub open spec fn first_enemy_laser_hit(s: Seq<Entity>, pl: Entity, j: int) -> Option<int>
    decreases s.len() - j,
{
    if j < 0 || j >= s.len() {
        None
    } else if s[j].kind == Kind::EnemyLaser && hits(s[j], pl) {
        Some(j)
    } else {
        first_enemy_laser_hit(s, pl, j + 1)
    }
}

/// The table with rows `a` and `b` removed (`a` before `b`), order kept.
pub open spec fn remove2(s: Seq<Entity>, a: int, b: int) -> Seq<Entity> {
    s.remove(b).remove(a)
}

/// First row of kind `k`, if any.
fn find_first_kind(v: &Vec<Entity>, k: Kind) -> (r: Option<usize>)
    ensures
        match r {
            Some(i) => i < v@.len() && v@[i as int].kind == k,
            None => forall|j: int| 0 <= j < v@.len() ==> (#[trigger] v@[j]).kind != k,
        },
{
    let n = v.len();
    let mut i: usize = 0;
    while i < n
        invariant
            i <= n,
            n == v@.len(),
            forall|j: int| 0 <= j < i ==> (#[trigger] v@[j]).kind != k,
        decreases n - i,
    {
        if v[i].kind == k {
            return Some(i);
        }
        i = i + 1;
    }
    None
}

/// First from-enemy laser row overlapping the player `pl`, if any.
fn find_laser_hit(v: &Vec<Entity>, pl: Entity) -> (r: Option<usize>)
    ensures
        match r {
            Some(i) => first_enemy_laser_hit(v@, pl, 0) == Some(i as int),
            None => first_enemy_laser_hit(v@, pl, 0) is None,
        },
{
    let n = v.len();
    let mut i: usize = 0;
    while i < n
        invariant
            i <= n,
            n == v@.len(),
            first_enemy_laser_hit(v@, pl, 0) == first_enemy_laser_hit(v@, pl, i as int),
        decreases n - i,
    {
        let e = v[i];
        if e.kind == Kind::EnemyLaser && overlaps(e.pos, e.size, e.scale, pl.pos, pl.size, pl.scale)
        {
            return Some(i);
        }
        i = i + 1;
    }
    None
}

/// Enemy lasers against the player: while a ship is on the field, the
/// first from-enemy laser whose box overlaps it destroys both. The ship
/// and that laser leave the table, an explosion request appears at the
/// ship's position, the player state records the hit at the current tick,
/// and no further laser is processed this tick. With no ship or no
/// overlap, nothing changes.
pub fn enemy_laser_hit_player(sim: &mut Sim)
    requires
        old(sim).wf(),
    ensures
        final(sim).wf(),
        !old(sim).player.alive ==> *final(sim) == *old(sim),
        old(sim).player.alive ==> exists|pi: int|
            {
                &&& 0 <= pi < old(sim).entities@.len()
                &&& (#[trigger] old(sim).entities@[pi]).kind == Kind::Player
                &&& match first_enemy_laser_hit(old(sim).entities@, old(sim).entities@[pi], 0) {
                    Option::None => *final(sim) == *old(sim),
                    Option::Some(li) => {
                        &&& final(sim).entities@ == remove2(
                            old(sim).entities@,
                            if pi < li {
                                pi
                            } else {
                                li
                            },
                            if pi < li {
                                li
                            } else {
                                pi
                            },
                        ).push(explosion_request_at(old(sim).entities@[pi].pos))
                        &&& !final(sim).player.alive
                        &&& final(sim).player.last_death_time == Some(old(sim).now)
                    },
                }
            },
        final(sim).enemy_count == old(sim).enemy_count,
        final(sim).now == old(sim).now,
        final(sim).win == old(sim).win,
{
    let ghost s0 = sim.entities@;
    let found = find_first_kind(&sim.entities, Kind::Player);
    match found {
        None => {
            proof {
                lemma_count_upto_none(s0, Kind::Player, s0.len() as int);
            }
        },
        Some(pi) => {
            proof {
                lemma_count_at_least(s0, Kind::Player, pi as int);
            }
            let pl = sim.entities[pi];
            let hit = find_laser_hit(&sim.entities, pl);
            match hit {
                None => {},
                Some(li) => {
                    proof {
                        lemma_first_enemy_laser_hit_props(s0, pl, 0, li as int);
                    }
                    let lo: usize = if pi < li {
                        pi
                    } else {
                        li
                    };
                    let hi: usize = if pi < li {
                        li
                    } else {
                        pi
                    };
                    proof {
                        lemma_count_remove(s0, hi as int, Kind::Player);
                        lemma_count_remove(s0, hi as int, Kind::Enemy);
                        lemma_count_remove(s0.remove(hi as int), lo as int, Kind::Player);
                        lemma_count_remove(s0.remove(hi as int), lo as int, Kind::Enemy);
                    }
                    sim.entities.remove(hi);
                    sim.entities.remove(lo);
                    let req = Entity {
                        kind: Kind::ExplosionToSpawn,
                        pos: pl.pos,
                        size: SpriteSize { x: 0, y: 0 },
                        scale: SCALE_ONE,
                        vel: Velocity { x: 0, y: 0 },
                        movable: Movable { auto_despawn: false },
                        frame_timer: 0,
                        frame: 0,
                    };
                    proof {
                        assert(req == explosion_request_at(s0[pi as int].pos));
                        lemma_count_push(sim.entities@, Kind::Player, req);
                        lemma_count_push(sim.entities@, Kind::Enemy, req);
                    }
                    sim.entities.push(req);
                    let now = sim.now;
                    sim.player.shot(now);
                },
            }
        },
    }
}

/// What a hit that [`first_enemy_laser_hit`] reports is: an in-range
/// from-enemy laser row overlapping the player, distinct from any player
/// row.
proof fn lemma_first_enemy_laser_hit_props(s: Seq<Entity>, pl: Entity, j0: int, j: int)
    requires
        0 <= j0,
        first_enemy_laser_hit(s, pl, j0) == Some(j),
    ensures
        j0 <= j < s.len(),
        s[j].kind == Kind::EnemyLaser,
        hits(s[j], pl),
    decreases s.len() - j0,
{
    if j0 < s.len() && !(s[j0].kind == Kind::EnemyLaser && hits(s[j0], pl)) {
        lemma_first_enemy_laser_hit_props(s, pl, j0 + 1, j);
    }
}

/// The first still-live enemy row at or after `j` whose box the player
/// laser overlaps; rows in `dead` were already resolved this pass.
pub open spec fn first_hit_from(s: Seq<Entity>, laser: Entity, dead: Set<int>, j: int) -> Option<
    int,
>
    decreases s.len() - j,
{
    if j < 0 || j >= s.len() {
        None
    } else if s[j].kind == Kind::Enemy && !dead.contains(j) && hits(laser, s[j]) {
        Some(j)
    } else {
        first_hit_from(s, laser, dead, j + 1)
    }
}

/// The resolved rows and the destroyed enemies (in destruction order)
/// once the pass has processed the first `n` rows: each not-yet-consumed
/// player laser destroys the first still-live enemy its box overlaps, and
/// both are resolved at once, never to be used again this pass.
pub open spec fn pass_step(s: Seq<Entity>, n: int) -> (Set<int>, Seq<int>)
    decreases n,
{
    if n <= 0 {
        (Set::empty(), Seq::empty())
    } else {
        let prev = pass_step(s, n - 1);
        let i = n - 1;
        if s[i].kind == Kind::PlayerLaser && !prev.0.contains(i) {
            match first_hit_from(s, s[i], prev.0, 0) {
                Some(j) => (prev.0.insert(i).insert(j), prev.1.push(j)),
                None => prev,
            }
        } else {
            prev
        }
    }
}

/// The rows among the first `n` that the pass leaves in play, order kept.
pub open spec fn survivors(s: Seq<Entity>, dead: Set<int>, n: int) -> Seq<Entity>
    decreases n,
{
    if n <= 0 {
        Seq::empty()
    } else {
        let pre = survivors(s, dead, n - 1);
        if dead.contains(n - 1) {
            pre
        } else {
            pre.push(s[n - 1])
        }
    }
}

/// One explosion request per destroyed enemy among the first `t` kills,
/// each at its enemy's position, in destruction order.
pub open spec fn kill_requests(s: Seq<Entity>, kills: Seq<int>, t: int) -> Seq<Entity>
    decreases t,
{
    if t <= 0 {
        Seq::empty()
    } else {
        kill_requests(s, kills, t - 1).push(explosion_request_at(s[kills[t - 1]].pos))
    }
}

/// How many of the first `n` rows of kind `k` are in `dead`.
pub open spec fn dead_count(s: Seq<Entity>, dead: Set<int>, k: Kind, n: int) -> nat
    decreases n,
{
    if n <= 0 {
        0
    } else {
        dead_count(s, dead, k, n - 1) + (if s[n - 1].kind == k && dead.contains(n - 1) {
            1nat
        } else {
            0nat
        })
    }
}

/// The table after the player-laser pass: the surviving rows, then one
/// explosion request per destroyed enemy.
pub open spec fn resolved_table(s: Seq<Entity>) -> Seq<Entity> {
    let r = pass_step(s, s.len() as int);
    survivors(s, r.0, s.len() as int) + kill_requests(s, r.1, r.1.len() as int)
}

/// What a hit that [`first_hit_from`] reports is: an in-range, still-live
/// enemy row that the laser overlaps.
proof fn lemma_first_hit_props(s: Seq<Entity>, laser: Entity, dead: Set<int>, j0: int, j: int)
    requires
        0 <= j0,
        first_hit_from(s, laser, dead, j0) == Some(j),
    ensures
        j0 <= j < s.len(),
        s[j].kind == Kind::Enemy,
        !dead.contains(j),
        hits(laser, s[j]),
    decreases s.len() - j0,
{
    if j0 < s.len() && !(s[j0].kind == Kind::Enemy && !dead.contains(j0) && hits(laser, s[j0])) {
        lemma_first_hit_props(s, laser, dead, j0 + 1, j);
    }
}

/// When the scan reports no hit, every enemy the laser overlaps at or
/// after `j0` was already resolved.
proof fn lemma_first_hit_none(s: Seq<Entity>, laser: Entity, dead: Set<int>, j0: int)
    requires
        0 <= j0,
        first_hit_from(s, laser, dead, j0) is None,
    ensures
        forall|j: int|
            j0 <= j < s.len() && (#[trigger] s[j]).kind == Kind::Enemy && hits(laser, s[j])
                ==> dead.contains(j),
    decreases s.len() - j0,
{
    if j0 < s.len() {
        lemma_first_hit_none(s, laser, dead, j0 + 1);
    }
}

/// Resolving one more row moves the per-kind tally by exactly that row.
proof fn lemma_dead_count_insert(s: Seq<Entity>, dead: Set<int>, x: int, k: Kind, n: int)
    requires
        !dead.contains(x),
    ensures
        dead_count(s, dead.insert(x), k, n) as int == dead_count(s, dead, k, n) as int + (if 0 <= x
            < n && s[x].kind == k {
            1int
        } else {
            0int
        }),
    decreases n,
{
    if n > 0 {
        lemma_dead_count_insert(s, dead, x, k, n - 1);
    }
}

/// No more rows of a kind can be resolved than exist.
proof fn lemma_dead_count_le(s: Seq<Entity>, dead: Set<int>, k: Kind, n: int)
    requires
        n <= s.len(),
    ensures
        dead_count(s, dead, k, n) <= count_upto(s, k, n),
    decreases n,
{
    if n > 0 {
        lemma_dead_count_le(s, dead, k, n - 1);
    }
}

/// A still-live row of kind `k` keeps the resolved tally strictly below
/// the total.
proof fn lemma_dead_count_live(s: Seq<Entity>, dead: Set<int>, k: Kind, j: int, n: int)
    requires
        0 <= j < n <= s.len(),
        s[j].kind == k,
        !dead.contains(j),
    ensures
        dead_count(s, dead, k, n) < count_upto(s, k, n),
    decreases n,
{
    if j < n - 1 {
        lemma_dead_count_live(s, dead, k, j, n - 1);
        lemma_dead_count_le(s, dead, k, n - 1);
    } else {
        lemma_dead_count_le(s, dead, k, n - 1);
    }
}

/// A set holding no row of kind `k` resolves none of them.
proof fn lemma_dead_count_none(s: Seq<Entity>, dead: Set<int>, k: Kind, n: int)
    requires
        n <= s.len(),
        forall|j: int| #[trigger] dead.contains(j) ==> 0 <= j < s.len() && s[j].kind != k,
    ensures
        dead_count(s, dead, k, n) == 0,
    decreases n,
{
    if n > 0 {
        lemma_dead_count_none(s, dead, k, n - 1);
    }
}

/// Once every row of kind `k` is resolved, the tally is the total.
proof fn lemma_dead_count_all(s: Seq<Entity>, dead: Set<int>, k: Kind, n: int)
    requires
        0 <= n <= s.len(),
        forall|j: int| 0 <= j < n && (#[trigger] s[j]).kind == k ==> dead.contains(j),
    ensures
        dead_count(s, dead, k, n) == count_upto(s, k, n),
    decreases n,
{
    if n > 0 {
        lemma_dead_count_all(s, dead, k, n - 1);
    }
}

/// The bookkeeping the pass maintains: resolved rows are enemies or
/// already-processed lasers, every destroyed enemy is recorded exactly
/// once, and exactly one laser is consumed per destroyed enemy.
proof fn lemma_pass_props(s: Seq<Entity>, n: int)
    requires
        0 <= n <= s.len(),
    ensures
        ({
            let r = pass_step(s, n);
            &&& forall|j: int|
                #[trigger] r.0.contains(j) ==> 0 <= j < s.len() && (s[j].kind == Kind::Enemy || (
                s[j].kind == Kind::PlayerLaser && j < n))
            &&& forall|t: int|
                0 <= t < r.1.len() ==> r.0.contains(#[trigger] r.1[t]) && 0 <= r.1[t] < s.len()
                    && s[r.1[t]].kind == Kind::Enemy
            &&& r.1.no_duplicates()
            &&& dead_count(s, r.0, Kind::Enemy, s.len() as int) == r.1.len()
            &&& dead_count(s, r.0, Kind::PlayerLaser, s.len() as int) == r.1.len()
        }),
    decreases n,
{
    if n == 0 {
        lemma_dead_count_none(s, Set::empty(), Kind::Enemy, s.len() as int);
        lemma_dead_count_none(s, Set::empty(), Kind::PlayerLaser, s.len() as int);
    } else {
        lemma_pass_props(s, n - 1);
        let prev = pass_step(s, n - 1);
        let i = n - 1;
        if s[i].kind == Kind::PlayerLaser && !prev.0.contains(i) {
            match first_hit_from(s, s[i], prev.0, 0) {
                Some(j) => {
                    lemma_first_hit_props(s, s[i], prev.0, 0, j);
                    lemma_dead_count_insert(s, prev.0, i, Kind::Enemy, s.len() as int);
                    lemma_dead_count_insert(s, prev.0, i, Kind::PlayerLaser, s.len() as int);
                    lemma_dead_count_insert(s, prev.0.insert(i), j, Kind::Enemy, s.len() as int);
                    lemma_dead_count_insert(
                        s,
                        prev.0.insert(i),
                        j,
                        Kind::PlayerLaser,
                        s.len() as int,
                    );
                    let q = prev.1.push(j);
                    assert(q.no_duplicates()) by {
                        assert forall|a: int, b: int| 0 <= a < b < q.len() implies q[a] != q[b] by {
                            if b == q.len() - 1 {
                                assert(prev.0.contains(prev.1[a]));
                            }
                        }
                    }
                },
                None => {},
            }
        }
    }
}

/// The set of row indices flagged true.
pub open spec fn flags_set(f: Seq<bool>) -> Set<int> {
    Set::new(|j: int| 0 <= j < f.len() && f[j])
}

/// First still-live enemy row that the laser's box overlaps, if any.
fn find_live_enemy_hit(v: &Vec<Entity>, flags: &Vec<bool>, laser: Entity) -> (r: Option<usize>)
    requires
        v@.len() == flags@.len(),
    ensures
        match r {
            Some(j) => first_hit_from(v@, laser, flags_set(flags@), 0) == Some(j as int),
            None => first_hit_from(v@, laser, flags_set(flags@), 0) is None,
        },
{
    let n = v.len();
    let mut j: usize = 0;
    while j < n
        invariant
            j <= n,
            n == v@.len(),
            n == flags@.len(),
            first_hit_from(v@, laser, flags_set(flags@), 0) == first_hit_from(
                v@,
                laser,
                flags_set(flags@),
                j as int,
            ),
        decreases n - j,
    {
        let e = v[j];
        if e.kind == Kind::Enemy && !flags[j] && overlaps(
            laser.pos,
            laser.size,
            laser.scale,
            e.pos,
            e.size,
            e.scale,
        ) {
            return Some(j);
        }
        j = j + 1;
    }
    None
}

/// The survivors keep their counts minus the resolved rows, and keep every
/// field the invariant watches.
proof fn lemma_survivors_props(s: Seq<Entity>, dead: Set<int>, n: int, k: Kind)
    requires
        0 <= n <= s.len(),
        forall|j: int| 0 <= j < s.len() ==> (#[trigger] s[j]).scale > 0,
        forall|j: int|
            0 <= j < s.len() && (#[trigger] s[j]).kind == Kind::Explosion ==> s[j].frame
                < crate::EXPLOSION_LEN,
        forall|j: int|
            0 <= j < s.len() && ((#[trigger] s[j]).kind == Kind::Player || s[j].kind
                == Kind::Enemy) ==> !s[j].movable.auto_despawn,
    ensures
        count_kind(survivors(s, dead, n), k) as int == count_upto(s, k, n) as int - dead_count(
            s,
            dead,
            k,
            n,
        ),
        forall|t: int|
            0 <= t < survivors(s, dead, n).len() ==> (#[trigger] survivors(s, dead, n)[t]).scale
                > 0,
        forall|t: int|
            0 <= t < survivors(s, dead, n).len() && (#[trigger] survivors(s, dead, n)[t]).kind
                == Kind::Explosion ==> survivors(s, dead, n)[t].frame < crate::EXPLOSION_LEN,
        forall|t: int|
            0 <= t < survivors(s, dead, n).len() && ((#[trigger] survivors(s, dead, n)[t]).kind
                == Kind::Player || survivors(s, dead, n)[t].kind == Kind::Enemy) ==> !survivors(
                s,
                dead,
                n,
            )[t].movable.auto_despawn,
    decreases n,
{
    if n > 0 {
        lemma_survivors_props(s, dead, n - 1, k);
        if !dead.contains(n - 1) {
            lemma_count_push(survivors(s, dead, n - 1), k, s[n - 1]);
        }
    }
}

/// Explosion requests carry no ships and keep every field the invariant
/// watches.
proof fn lemma_kill_requests_props(s: Seq<Entity>, kills: Seq<int>, t: int, k: Kind)
    requires
        k != Kind::ExplosionToSpawn,
    ensures
        count_kind(kill_requests(s, kills, t), k) == 0,
        forall|u: int|
            0 <= u < kill_requests(s, kills, t).len() ==> (#[trigger] kill_requests(
                s,
                kills,
                t,
            )[u]).kind == Kind::ExplosionToSpawn && kill_requests(s, kills, t)[u].scale > 0,
    decreases t,
{
    if t > 0 {
        lemma_kill_requests_props(s, kills, t - 1, k);
        lemma_count_push(
            kill_requests(s, kills, t - 1),
            k,
            explosion_request_at(s[kills[t - 1]].pos),
        );
    }
}

/// Hypothesis of the saturation law: every player laser's box overlaps
/// every enemy's.
pub open spec fn all_pairs_overlap(s: Seq<Entity>) -> bool {
    forall|i: int, j: int|
        0 <= i < s.len() && 0 <= j < s.len() && (#[trigger] s[i]).kind == Kind::PlayerLaser && (
        #[trigger] s[j]).kind == Kind::Enemy ==> hits(s[i], s[j])
}

/// While every pair overlaps, each processed laser scores while enemies
/// remain, so the kill tally is the smaller of lasers seen and enemies.
proof fn lemma_saturated_upto(s: Seq<Entity>, n: int)
    requires
        0 <= n <= s.len(),
        all_pairs_overlap(s),
    ensures
        ({
            let r = pass_step(s, n);
            r.1.len() as int == if count_upto(s, Kind::PlayerLaser, n) <= count_kind(
                s,
                Kind::Enemy,
            ) {
                count_upto(s, Kind::PlayerLaser, n) as int
            } else {
                count_kind(s, Kind::Enemy) as int
            }
        }),
    decreases n,
{
    if n > 0 {
        lemma_saturated_upto(s, n - 1);
        lemma_pass_props(s, n - 1);
        let prev = pass_step(s, n - 1);
        let i = n - 1;
        if s[i].kind == Kind::PlayerLaser {
            assert(!prev.0.contains(i));
            match first_hit_from(s, s[i], prev.0, 0) {
                Some(j) => {
                    lemma_first_hit_props(s, s[i], prev.0, 0, j);
                    lemma_dead_count_live(s, prev.0, Kind::Enemy, j, s.len() as int);
                },
                None => {
                    lemma_first_hit_none(s, s[i], prev.0, 0);
                    assert(forall|j: int|
                        0 <= j < s.len() && (#[trigger] s[j]).kind == Kind::Enemy
                            ==> prev.0.contains(j));
                    lemma_dead_count_all(s, prev.0, Kind::Enemy, s.len() as int);
                },
            }
        }
    }
}

/// No double-resolution: in a combat pass where every player laser's box
/// overlaps every enemy's, exactly the smaller of the two populations is
/// resolved on each side — that many enemies destroyed, each exactly
/// once, and exactly that many lasers consumed, each exactly once.
pub proof fn lemma_saturated_pass(s: Seq<Entity>)
    requires
        all_pairs_overlap(s),
    ensures
        ({
            let r = pass_step(s, s.len() as int);
            let l = count_kind(s, Kind::PlayerLaser) as int;
            let e = count_kind(s, Kind::Enemy) as int;
            &&& r.1.len() as int == if l <= e {
                l
            } else {
                e
            }
            &&& r.1.no_duplicates()
            &&& forall|t: int| 0 <= t < r.1.len() ==> s[#[trigger] r.1[t]].kind == Kind::Enemy
            &&& dead_count(s, r.0, Kind::Enemy, s.len() as int) == r.1.len()
            &&& dead_count(s, r.0, Kind::PlayerLaser, s.len() as int) == r.1.len()
        }),
{
    lemma_saturated_upto(s, s.len() as int);
    lemma_pass_props(s, s.len() as int);
}

/// Player lasers against enemies: scanning lasers in row order, each
/// not-yet-consumed from-player laser destroys the first still-live enemy
/// its box overlaps. Both leave the table, an explosion request appears at
/// the enemy's position, and the enemy counter drops once per destroyed
/// enemy — the deduplication set guarantees no laser and no enemy is
/// resolved twice, however many pairs overlap.
pub fn player_laser_hit_enemy_system(sim: &mut Sim)
    requires
        old(sim).wf(),
    ensures
        final(sim).wf(),
        final(sim).entities@ == resolved_table(old(sim).entities@),
        final(sim).enemy_count.0 == old(sim).enemy_count.0 - pass_step(
            old(sim).entities@,
            old(sim).entities@.len() as int,
        ).1.len(),
        final(sim).player == old(sim).player,
        final(sim).now == old(sim).now,
        final(sim).win == old(sim).win,
{
    let n = sim.entities.len();
    let ghost s0 = sim.entities@;
    let mut flags: Vec<bool> = Vec::new();
    let mut t: usize = 0;
    while t < n
        invariant
            t <= n,
            flags@.len() == t,
            forall|j: int| 0 <= j < t ==> !(#[trigger] flags@[j]),
        decreases n - t,
    {
        flags.push(false);
        t = t + 1;
    }
    proof {
        assert(flags_set(flags@) =~= pass_step(s0, 0).0);
        assert(pass_step(s0, 0).1 =~= Seq::<int>::empty());
        assert(Seq::<usize>::empty().map_values(|u: usize| u as int) =~= Seq::<int>::empty());
    }
    let mut kills: Vec<usize> = Vec::new();
    let mut i: usize = 0;
    while i < n
        invariant
            *sim == *old(sim),
            old(sim).wf(),
            s0 == sim.entities@,
            n == s0.len(),
            i <= n,
            flags@.len() == n,
            flags_set(flags@) == pass_step(s0, i as int).0,
            kills@.map_values(|u: usize| u as int) == pass_step(s0, i as int).1,
            forall|u: int| 0 <= u < kills@.len() ==> (#[trigger] kills@[u]) < n,
        decreases n - i,
    {
        let e = sim.entities[i];
        let dead_i = flags[i];
        if e.kind == Kind::PlayerLaser && !dead_i {
            let ghost prev = pass_step(s0, i as int);
            let hit = find_live_enemy_hit(&sim.entities, &flags, e);
            match hit {
                Some(j) => {
                    proof {
                        lemma_first_hit_props(s0, s0[i as int], prev.0, 0, j as int);
                    }
                    flags[i] = true;
                    flags[j] = true;
                    kills.push(j);
                    proof {
                        assert(flags_set(flags@) =~= prev.0.insert(i as int).insert(j as int));
                        assert(kills@.map_values(|u: usize| u as int) =~= prev.1.push(j as int));
                    }
                },
                None => {},
            }
        }
        i = i + 1;
    }
    proof {
        lemma_pass_props(s0, n as int);
        lemma_dead_count_le(s0, flags_set(flags@), Kind::Enemy, n as int);
    }
    let ghost dead = flags_set(flags@);
    let ghost kmap = kills@.map_values(|u: usize| u as int);
    let mut out: Vec<Entity> = Vec::new();
    let mut a: usize = 0;
    while a < n
        invariant
            *sim == *old(sim),
            s0 == sim.entities@,
            n == s0.len(),
            a <= n,
            flags@.len() == n,
            dead == flags_set(flags@),
            out@ == survivors(s0, dead, a as int),
        decreases n - a,
    {
        if !flags[a] {
            let keep = sim.entities[a];
            out.push(keep);
        }
        a = a + 1;
    }
    let nk = kills.len();
    let mut b: usize = 0;
    while b < nk
        invariant
            *sim == *old(sim),
            s0 == sim.entities@,
            n == s0.len(),
            b <= nk,
            nk == kills@.len(),
            kmap == kills@.map_values(|u: usize| u as int),
            forall|u: int| 0 <= u < kills@.len() ==> (#[trigger] kills@[u]) < n,
            out@ == survivors(s0, dead, n as int) + kill_requests(s0, kmap, b as int),
        decreases nk - b,
    {
        let idx = kills[b];
        let p = sim.entities[idx].pos;
        let req = Entity {
            kind: Kind::ExplosionToSpawn,
            pos: p,
            size: SpriteSize { x: 0, y: 0 },
            scale: SCALE_ONE,
            vel: Velocity { x: 0, y: 0 },
            movable: Movable { auto_despawn: false },
            frame_timer: 0,
            frame: 0,
        };
        proof {
            assert(req == explosion_request_at(s0[kmap[b as int]].pos));
        }
        out.push(req);
        b = b + 1;
    }
    proof {
        let r = pass_step(s0, n as int);
        assert(dead == r.0 && kmap == r.1);
        lemma_survivors_props(s0, dead, n as int, Kind::Enemy);
        lemma_survivors_props(s0, dead, n as int, Kind::Player);
        lemma_dead_count_none(s0, dead, Kind::Player, n as int);
        lemma_kill_requests_props(s0, kmap, kmap.len() as int, Kind::Enemy);
        lemma_kill_requests_props(s0, kmap, kmap.len() as int, Kind::Player);
        crate::sim::lemma_count_concat(
            survivors(s0, dead, n as int),
            kill_requests(s0, kmap, kmap.len() as int),
            Kind::Enemy,
        );
        crate::sim::lemma_count_concat(
            survivors(s0, dead, n as int),
            kill_requests(s0, kmap, kmap.len() as int),
            Kind::Player,
        );
        assert(out@ == resolved_table(s0));
    }
    sim.entities = out;
    let dec = nk as u32;
    sim.enemy_count.0 = sim.enemy_count.0 - dec;
}

} // verus!
