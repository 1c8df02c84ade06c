//! The simulation context: the entity table and the process-wide
//! singletons, threaded through every per-tick system, together with the
//! counting machinery its invariant is stated over.

use vstd::prelude::*;
use crate::components::{Entity, EnemyCount, Kind, PlayerState, WinSize};
use crate::ENEMY_MAX;

verus! {

/// How many of the first `n` entities of `s` have kind `k`.
pub open spec fn count_upto(s: Seq<Entity>, k: Kind, n: int) -> nat
    decreases n,
{
    if n <= 0 || n > s.len() {
        0
    } else {
        count_upto(s, k, n - 1) + (if s[n - 1].kind == k {
            1nat
        } else {
            0nat
        })
    }
}

/// How many entities of `s` have kind `k`.
pub open spec fn count_kind(s: Seq<Entity>, k: Kind) -> nat {
    count_upto(s, k, s.len() as int)
}

/// Counting a prefix never counts more than its length.
pub proof fn lemma_count_upto_le(s: Seq<Entity>, k: Kind, n: int)
    ensures
        count_upto(s, k, n) <= if 0 <= n <= s.len() {
            n as nat
        } else {
            s.len()
        },
    decreases n,
{
    if n > 0 && n <= s.len() {
        lemma_count_upto_le(s, k, n - 1);
    }
}

/// A prefix that lies inside `s` counts the same before and after a push.
pub proof fn lemma_count_upto_push(s: Seq<Entity>, k: Kind, e: Entity, n: int)
    requires
        0 <= n <= s.len(),
    ensures
        count_upto(s.push(e), k, n) == count_upto(s, k, n),
    decreases n,
{
    if n > 0 {
        lemma_count_upto_push(s, k, e, n - 1);
    }
}

/// Appending one entity adds one to the count of its kind and nothing to
/// any other.
pub proof fn lemma_count_push(s: Seq<Entity>, k: Kind, e: Entity)
    ensures
        count_kind(s.push(e), k) == count_kind(s, k) + (if e.kind == k {
            1nat
        } else {
            0nat
        }),
{
    lemma_count_upto_push(s, k, e, s.len() as int);
}

/// A row of kind `k` inside the counted prefix means at least one is
/// counted.
pub proof fn lemma_count_upto_at_least(s: Seq<Entity>, k: Kind, i: int, n: int)
    requires
        0 <= i < n <= s.len(),
        s[i].kind == k,
    ensures
        count_upto(s, k, n) >= 1,
    decreases n,
{
    if i < n - 1 {
        lemma_count_upto_at_least(s, k, i, n - 1);
    }
}

/// A row of kind `k` in the table means at least one is counted.
pub proof fn lemma_count_at_least(s: Seq<Entity>, k: Kind, i: int)
    requires
        0 <= i < s.len(),
        s[i].kind == k,
    ensures
        count_kind(s, k) >= 1,
{
    lemma_count_upto_at_least(s, k, i, s.len() as int);
}

/// Tables whose first `n` rows agree on which of them are of kind `k`
/// count `k` the same.
pub proof fn lemma_count_upto_agree(s: Seq<Entity>, t: Seq<Entity>, k: Kind, n: int)
    requires
        n <= s.len(),
        n <= t.len(),
        forall|j: int|
            0 <= j < n ==> ((#[trigger] s[j]).kind == k <==> (#[trigger] t[j]).kind == k),
    ensures
        count_upto(s, k, n) == count_upto(t, k, n),
    decreases n,
{
    if n > 0 {
        lemma_count_upto_agree(s, t, k, n - 1);
    }
}

/// A prefix holding no entity of kind `k` counts none of them.
pub proof fn lemma_count_upto_none(s: Seq<Entity>, k: Kind, n: int)
    requires
        n <= s.len(),
        forall|j: int| 0 <= j < n ==> (#[trigger] s[j]).kind != k,
    ensures
        count_upto(s, k, n) == 0,
    decreases n,
{
    if n > 0 {
        lemma_count_upto_none(s, k, n - 1);
    }
}

/// Replacing one entity moves the counts by the kinds swapped in and out.
pub proof fn lemma_count_upto_update(s: Seq<Entity>, i: int, e: Entity, k: Kind, n: int)
    requires
        0 <= i < s.len(),
        0 <= n <= s.len(),
    ensures
        count_upto(s.update(i, e), k, n) as int == count_upto(s, k, n) as int + if i < n {
            (if e.kind == k {
                1int
            } else {
                0int
            }) - (if s[i].kind == k {
                1int
            } else {
                0int
            })
        } else {
            0int
        },
    decreases n,
{
    if n > 0 {
        lemma_count_upto_update(s, i, e, k, n - 1);
    }
}

/// Replacing one entity moves each kind's total count by the kinds
/// swapped in and out.
pub proof fn lemma_count_update(s: Seq<Entity>, i: int, e: Entity, k: Kind)
    requires
        0 <= i < s.len(),
    ensures
        count_kind(s.update(i, e), k) as int == count_kind(s, k) as int + (if e.kind == k {
            1int
        } else {
            0int
        }) - (if s[i].kind == k {
            1int
        } else {
            0int
        }),
{
    lemma_count_upto_update(s, i, e, k, s.len() as int);
}

/// Counts add up across a concatenation of tables.
pub proof fn lemma_count_concat(s: Seq<Entity>, t: Seq<Entity>, k: Kind)
    ensures
        count_kind(s + t, k) == count_kind(s, k) + count_kind(t, k),
    decreases t.len(),
{
    if t.len() == 0 {
        assert(s + t =~= s);
    } else {
        let t0 = t.drop_last();
        lemma_count_concat(s, t0, k);
        assert(s + t =~= (s + t0).push(t.last()));
        assert(t =~= t0.push(t.last()));
        lemma_count_push(s + t0, k, t.last());
        lemma_count_push(t0, k, t.last());
    }
}

/// Removing one row takes exactly that row's kind out of the counts.
pub proof fn lemma_count_remove(s: Seq<Entity>, i: int, k: Kind)
    requires
        0 <= i < s.len(),
    ensures
        count_kind(s.remove(i), k) as int == count_kind(s, k) as int - (if s[i].kind == k {
            1int
        } else {
            0int
        }),
    decreases s.len(),
{
    if i == s.len() - 1 {
        assert(s.remove(i) =~= s.drop_last());
        lemma_count_upto_agree(s.drop_last(), s, k, s.len() - 1);
    } else {
        let t = s.drop_last();
        lemma_count_remove(t, i, k);
        assert(s.remove(i) =~= t.remove(i).push(s.last()));
        lemma_count_push(t.remove(i), k, s.last());
        lemma_count_upto_agree(t, s, k, s.len() - 1);
    }
}

/// The whole simulation state: play-area size, the entity table, the two
/// singletons, and the tick clock.
pub struct Sim {
    pub win: WinSize,
    /// The entity table; rows are addressed by index within a tick.
    pub entities: Vec<Entity>,
    /// Enemy population, kept equal to the number of enemy rows.
    pub enemy_count: EnemyCount,
    /// Player lifecycle state, kept consistent with the player row.
    pub player: PlayerState,
    /// Ticks elapsed since startup.
    pub now: u64,
}

impl Sim {
    /// The invariant every system preserves: the window leaves room to
    /// spawn, the enemy counter matches the table and respects the cap,
    /// exactly one player row exists while the player is alive and none
    /// otherwise, every scale is positive, and no explosion outlives the
    /// sprite sheet.
    pub open spec fn wf(self) -> bool {
        &&& self.win.wf()
        &&& self.enemy_count.0 == count_kind(self.entities@, Kind::Enemy)
        &&& self.enemy_count.0 <= ENEMY_MAX
        &&& count_kind(self.entities@, Kind::Player) == (if self.player.alive {
            1nat
        } else {
            0nat
        })
        &&& forall|i: int|
            0 <= i < self.entities@.len() ==> (#[trigger] self.entities@[i]).scale > 0
        &&& forall|i: int|
            0 <= i < self.entities@.len() && (#[trigger] self.entities@[i]).kind
                == Kind::Explosion ==> self.entities@[i].frame < crate::EXPLOSION_LEN
        &&& forall|i: int|
            0 <= i < self.entities@.len() && ((#[trigger] self.entities@[i]).kind == Kind::Player
                || self.entities@[i].kind == Kind::Enemy)
                ==> !self.entities@[i].movable.auto_despawn
    }

    /// A fresh simulation over a window of `w` by `h` units: an empty
    /// table, no enemies, the player not yet spawned, at tick zero.
    pub fn new(w: i32, h: i32) -> (s: Sim)
        requires
            2 * crate::PLAY_MARGIN + 2 <= w,
            2 * crate::PLAY_MARGIN + 2 <= h,
        ensures
            s.wf(),
            s.win == (WinSize { w, h }),
            s.entities@.len() == 0,
            s.enemy_count.0 == 0,
            !s.player.alive,
            s.player.last_death_time is None,
            s.now == 0,
    {
        Sim {
            win: WinSize { w, h },
            entities: Vec::new(),
            enemy_count: EnemyCount(0),
            player: PlayerState::default(),
            now: 0,
        }
    }

    /// The enemy-population law: in a well-formed simulation the counter
    /// never leaves `[0, ENEMY_MAX]` and always equals the number of
    /// enemy rows — so after any run of spawns and destructions it reads
    /// exactly the spawns minus the destructions.
    pub proof fn lemma_enemy_count_invariant(self)
        requires
            self.wf(),
        ensures
            0 <= self.enemy_count.0 <= ENEMY_MAX,
            self.enemy_count.0 == count_kind(self.entities@, Kind::Enemy),
    {
    }

    /// Advance the tick clock; the host calls it once per simulation step.
    pub fn advance_clock(&mut self)
        requires
            old(self).wf(),
        ensures
            final(self).wf(),
            final(self).now as int == if old(self).now == u64::MAX {
                old(self).now as int
            } else {
                old(self).now + 1
            },
            final(self).entities == old(self).entities,
            final(self).enemy_count == old(self).enemy_count,
            final(self).player == old(self).player,
            final(self).win == old(self).win,
    {
        if self.now < u64::MAX {
            self.now = self.now + 1;
        }
    }
}

} // verus!
