use vstd::prelude::*;

use crate::config::{DEBRIS_SCORE, ENEMY_KILL_SCORE};
use crate::enemies::{unit_after_hit, unit_wf, EnemyUnit};
use crate::lasers::LaserSlot;
use crate::session::Session;

verus! {

/// A player laser that struck an enemy ship on this tick.
#[derive(Clone, Copy, Debug, PartialEq, Eq, Structural)]
pub struct EnemyStrike {
    pub laser: usize,
    pub enemy: usize,
    /// The strike destroyed the ship.
    pub destroyed: bool,
}

/// A player laser that shot down a piece of debris on this tick.
#[derive(Clone, Copy, Debug, PartialEq, Eq, Structural)]
pub struct DebrisStrike {
    pub debris: usize,
    pub laser: usize,
}

/// The slot after a hit took it out of flight.
pub open spec fn retired(s: LaserSlot) -> LaserSlot {
    LaserSlot { alive: false, age: s.age }
}

/// The lowest index below `n` of a flying ship that `row` marks as touched
/// by the laser, if any.
pub open spec fn first_ship_hit(enemies: Seq<EnemyUnit>, row: Seq<bool>, n: nat) -> Option<int>
    decreases n,
{
    if n == 0 {
        None
    } else {
        match first_ship_hit(enemies, row, (n - 1) as nat) {
            Some(t) => Some(t),
            None => {
                let i = n - 1;
                if i < enemies.len() && i < row.len() && enemies[i].alive && row[i] {
                    Some(i)
                } else {
                    None
                }
            },
        }
    }
}

/// The player's lasers, the ships, the score and the strikes after the first
/// `k` lasers have been checked against the ships, in order: a laser in
/// flight that touches flying ships strikes the first of them, leaves flight,
/// and scores for the kill if the strike destroys the ship.  `hits[l][e]`
/// says whether laser `l` touches ship `e`.
pub open spec fn enemy_pass(
    lasers: Seq<LaserSlot>,
    enemies: Seq<EnemyUnit>,
    score: int,
    hits: Seq<Seq<bool>>,
    k: nat,
) -> (Seq<LaserSlot>, Seq<EnemyUnit>, int, Seq<EnemyStrike>)
    decreases k,
{
    if k == 0 {
        (lasers, enemies, score, Seq::empty())
    } else {
        let (ls, es, sc, ev) = enemy_pass(lasers, enemies, score, hits, (k - 1) as nat);
        let l = k - 1;
        if l < ls.len() && ls[l].alive && l < hits.len() {
            match first_ship_hit(es, hits[l], es.len()) {
                Some(t) => {
                    let hit = unit_after_hit(es[t]);
                    (
                        ls.update(l, retired(ls[l])),
                        es.update(t, hit),
                        sc + if hit.alive { 0 } else { ENEMY_KILL_SCORE as int },
                        ev.push(EnemyStrike { laser: l as usize, enemy: t as usize, destroyed: !hit.alive }),
                    )
                },
                None => (ls, es, sc, ev),
            }
        } else {
            (ls, es, sc, ev)
        }
    }
}

/// The lowest index below `n` of a laser in flight that `row` marks as
/// touching the debris piece, if any.
pub open spec fn first_laser_hit(lasers: Seq<LaserSlot>, row: Seq<bool>, n: nat) -> Option<int>
    decreases n,
{
    if n == 0 {
        None
    } else {
        match first_laser_hit(lasers, row, (n - 1) as nat) {
            Some(t) => Some(t),
            None => {
                let i = n - 1;
                if i < lasers.len() && i < row.len() && lasers[i].alive && row[i] {
                    Some(i)
                } else {
                    None
                }
            },
        }
    }
}

/// The player's lasers, the score and the strikes after the first `k` debris
/// pieces have been checked, in order: a piece touched by lasers in flight
/// is shot down by the first of them, which leaves flight and scores.
/// `hits[d][l]` says whether laser `l` touches piece `d`.
pub open spec fn debris_pass(lasers: Seq<LaserSlot>, score: int, hits: Seq<Seq<bool>>, k: nat) -> (
    Seq<LaserSlot>,
    int,
    Seq<DebrisStrike>,
)
    decreases k,
{
    if k == 0 {
        (lasers, score, Seq::empty())
    } else {
        let (ls, sc, ev) = debris_pass(lasers, score, hits, (k - 1) as nat);
        let d = k - 1;
        if d < hits.len() {
            match first_laser_hit(ls, hits[d], ls.len()) {
                Some(l) => (
                    ls.update(l, retired(ls[l])),
                    sc + DEBRIS_SCORE as int,
                    ev.push(DebrisStrike { debris: d as usize, laser: l as usize }),
                ),
                None => (ls, sc, ev),
            }
        } else {
            (ls, sc, ev)
        }
    }
}

/// The rows of a hit table as sequences.
pub open spec fn table_view(hits: Seq<Vec<bool>>) -> Seq<Seq<bool>> {
    hits.map_values(|r: Vec<bool>| r@)
}

/// Scans `row` for the first flying ship it marks.
fn find_ship(enemies: &Vec<EnemyUnit>, row: &Vec<bool>) -> (t: Option<usize>)
    ensures
        match first_ship_hit(enemies@, row@, enemies@.len()) {
            Some(i) => t == Some(i as usize),
            None => t is None,
        },
{
    let n = enemies.len();
    let mut j: usize = 0;
    while j < n
        invariant
            n == enemies@.len(),
            j <= n,
            first_ship_hit(enemies@, row@, j as nat) is None,
        decreases n - j,
    {
        if j < row.len() && enemies[j].alive && row[j] {
            proof {
                lemma_first_ship_hit_stable(enemies@, row@, (j + 1) as nat, n as nat);
            }
            return Some(j);
        }
        j = j + 1;
    }
    None
}

/// Once found below `m`, the first hit stays the first hit below any `n >= m`.
proof fn lemma_first_ship_hit_stable(enemies: Seq<EnemyUnit>, row: Seq<bool>, m: nat, n: nat)
    requires
        m <= n,
        first_ship_hit(enemies, row, m) is Some,
    ensures
        first_ship_hit(enemies, row, n) == first_ship_hit(enemies, row, m),
    decreases n - m,
{
    if n > m {
        lemma_first_ship_hit_stable(enemies, row, m, (n - 1) as nat);
    }
}

/// Scans `row` for the first laser in flight it marks.
fn find_laser(lasers: &Vec<LaserSlot>, row: &Vec<bool>) -> (t: Option<usize>)
    ensures
        match first_laser_hit(lasers@, row@, lasers@.len()) {
            Some(i) => t == Some(i as usize),
            None => t is None,
        },
{
    let n = lasers.len();
    let mut j: usize = 0;
    while j < n
        invariant
            n == lasers@.len(),
            j <= n,
            first_laser_hit(lasers@, row@, j as nat) is None,
        decreases n - j,
    {
        if j < row.len() && lasers[j].alive && row[j] {
            proof {
                lemma_first_laser_hit_stable(lasers@, row@, (j + 1) as nat, n as nat);
            }
            return Some(j);
        }
        j = j + 1;
    }
    None
}

/// Once found below `m`, the first hit stays the first hit below any `n >= m`.
proof fn lemma_first_laser_hit_stable(lasers: Seq<LaserSlot>, row: Seq<bool>, m: nat, n: nat)
    requires
        m <= n,
        first_laser_hit(lasers, row, m) is Some,
    ensures
        first_laser_hit(lasers, row, n) == first_laser_hit(lasers, row, m),
    decreases n - m,
{
    if n > m {
        lemma_first_laser_hit_stable(lasers, row, m, (n - 1) as nat);
    }
}

/// What the first ship hit is: a flying ship the row marks.
proof fn lemma_first_ship_hit_props(enemies: Seq<EnemyUnit>, row: Seq<bool>, n: nat)
    ensures
        first_ship_hit(enemies, row, n) matches Some(t) ==> 0 <= t < n && t < enemies.len() && t < row.len()
            && enemies[t].alive && row[t],
    decreases n,
{
    if n > 0 {
        lemma_first_ship_hit_props(enemies, row, (n - 1) as nat);
    }
}

/// What the first laser hit is: a laser in flight the row marks.
proof fn lemma_first_laser_hit_props(lasers: Seq<LaserSlot>, row: Seq<bool>, n: nat)
    ensures
        first_laser_hit(lasers, row, n) matches Some(t) ==> 0 <= t < n && t < lasers.len() && t < row.len()
            && lasers[t].alive && row[t],
    decreases n,
{
    if n > 0 {
        lemma_first_laser_hit_props(lasers, row, (n - 1) as nat);
    }
}

/// The score only grows during the pass over the lasers.
proof fn lemma_enemy_pass_score_grows(
    lasers: Seq<LaserSlot>,
    enemies: Seq<EnemyUnit>,
    score: int,
    hits: Seq<Seq<bool>>,
    k: nat,
    n: nat,
)
    requires
        k <= n,
    ensures
        enemy_pass(lasers, enemies, score, hits, k).2 <= enemy_pass(lasers, enemies, score, hits, n).2,
    decreases n - k,
{
    if k < n {
        lemma_enemy_pass_score_grows(lasers, enemies, score, hits, k, (n - 1) as nat);
    }
}

/// The score only grows during the pass over the debris.
proof fn lemma_debris_pass_score_grows(lasers: Seq<LaserSlot>, score: int, hits: Seq<Seq<bool>>, k: nat, n: nat)
    requires
        k <= n,
    ensures
        debris_pass(lasers, score, hits, k).1 <= debris_pass(lasers, score, hits, n).1,
    decreases n - k,
{
    if k < n {
        lemma_debris_pass_score_grows(lasers, score, hits, k, (n - 1) as nat);
    }
}

impl Session {
    /// Checks the player's lasers against the enemy ships, laser by laser in
    /// slot order: a laser in flight that touches flying ships strikes the
    /// first of them, leaves flight, and a strike that destroys the ship
    /// scores `ENEMY_KILL_SCORE`.  `hits[l][e]` says whether laser `l`
    /// touches ship `e`.  Returns the strikes in order.
    #[verifier::spinoff_prover]
    pub fn resolve_enemy_strikes(&mut self, hits: &Vec<Vec<bool>>) -> (strikes: Vec<EnemyStrike>)
        requires
            old(self).wf(),
            enemy_pass(
                old(self).player_lasers.slots@,
                old(self).enemies@,
                old(self).score as int,
                table_view(hits@),
                old(self).player_lasers.slots@.len(),
            ).2 <= u64::MAX,
        ensures
            final(self).wf(),
            ({
                let r = enemy_pass(
                    old(self).player_lasers.slots@,
                    old(self).enemies@,
                    old(self).score as int,
                    table_view(hits@),
                    old(self).player_lasers.slots@.len(),
                );
                &&& final(self).player_lasers.slots@ == r.0
                &&& final(self).enemies@ == r.1
                &&& final(self).score == r.2
                &&& strikes@ == r.3
            }),
            final(self).flags == old(self).flags,
            final(self).fire_cooldown == old(self).fire_cooldown,
            final(self).shield_regen_timer == old(self).shield_regen_timer,
            final(self).ticks == old(self).ticks,
            final(self).enemy_lasers.slots@ == old(self).enemy_lasers.slots@,
    {
        let ghost l0 = self.player_lasers.slots@;
        let ghost e0 = self.enemies@;
        let ghost s0 = self.score as int;
        let ghost table = table_view(hits@);
        let n = self.player_lasers.slots.len();
        let mut strikes: Vec<EnemyStrike> = Vec::new();
        let mut l: usize = 0;
        while l < n
            invariant
                n == l0.len(),
                l <= n,
                table == table_view(hits@),
                self.wf(),
                enemy_pass(l0, e0, s0, table, n as nat).2 <= u64::MAX,
                ({
                    let r = enemy_pass(l0, e0, s0, table, l as nat);
                    &&& self.player_lasers.slots@ == r.0
                    &&& self.enemies@ == r.1
                    &&& self.score == r.2
                    &&& strikes@ == r.3
                }),
                self.flags == old(self).flags,
                self.fire_cooldown == old(self).fire_cooldown,
                self.shield_regen_timer == old(self).shield_regen_timer,
                self.ticks == old(self).ticks,
                self.enemy_lasers.slots@ == old(self).enemy_lasers.slots@,
            decreases n - l,
        {
            proof {
                lemma_enemy_pass_score_grows(l0, e0, s0, table, (l + 1) as nat, n as nat);
                lemma_enemy_pass_len(l0, e0, s0, table, l as nat);
            }
            if self.player_lasers.slots[l].alive && l < hits.len() {
                assert(table[l as int] == hits@[l as int]@);
                let found = find_ship(&self.enemies, &hits[l]);
                proof {
                    lemma_first_ship_hit_props(self.enemies@, hits@[l as int]@, self.enemies@.len());
                }
                match found {
                    Some(t) => {
                        assert(enemy_pass(l0, e0, s0, table, (l + 1) as nat).2 == self.score + if unit_after_hit(
                            self.enemies@[t as int],
                        ).alive {
                            0
                        } else {
                            ENEMY_KILL_SCORE as int
                        });
                        let destroyed = self.laser_hits_enemy(l, t);
                        strikes.push(EnemyStrike { laser: l, enemy: t, destroyed });
                    },
                    None => {},
                }
            }
            l = l + 1;
        }
        strikes
    }

    /// Checks the debris pieces against the player's lasers, piece by piece
    /// in order: a piece touched by lasers in flight is shot down by the
    /// first of them, which leaves flight, and each piece shot down scores
    /// `DEBRIS_SCORE`.  `hits[d][l]` says whether laser `l` touches piece
    /// `d`.  Returns the strikes in order.
    pub fn resolve_debris_strikes(&mut self, hits: &Vec<Vec<bool>>) -> (strikes: Vec<DebrisStrike>)
        requires
            old(self).wf(),
            debris_pass(old(self).player_lasers.slots@, old(self).score as int, table_view(hits@), hits@.len()).1
                <= u64::MAX,
        ensures
            final(self).wf(),
            ({
                let r = debris_pass(
                    old(self).player_lasers.slots@,
                    old(self).score as int,
                    table_view(hits@),
                    hits@.len(),
                );
                &&& final(self).player_lasers.slots@ == r.0
                &&& final(self).score == r.1
                &&& strikes@ == r.2
            }),
            final(self).flags == old(self).flags,
            final(self).fire_cooldown == old(self).fire_cooldown,
            final(self).shield_regen_timer == old(self).shield_regen_timer,
            final(self).ticks == old(self).ticks,
            final(self).enemy_lasers.slots@ == old(self).enemy_lasers.slots@,
            final(self).enemies@ == old(self).enemies@,
    {
        let ghost l0 = self.player_lasers.slots@;
        let ghost s0 = self.score as int;
        let ghost table = table_view(hits@);
        let n = hits.len();
        let mut strikes: Vec<DebrisStrike> = Vec::new();
        let mut d: usize = 0;
        while d < n
            invariant
                n == hits@.len(),
                d <= n,
                table == table_view(hits@),
                self.wf(),
                debris_pass(l0, s0, table, n as nat).1 <= u64::MAX,
                ({
                    let r = debris_pass(l0, s0, table, d as nat);
                    &&& self.player_lasers.slots@ == r.0
                    &&& self.score == r.1
                    &&& strikes@ == r.2
                }),
                self.flags == old(self).flags,
                self.fire_cooldown == old(self).fire_cooldown,
                self.shield_regen_timer == old(self).shield_regen_timer,
                self.ticks == old(self).ticks,
                self.enemy_lasers.slots@ == old(self).enemy_lasers.slots@,
                self.enemies@ == old(self).enemies@,
            decreases n - d,
        {
            proof {
                lemma_debris_pass_score_grows(l0, s0, table, (d + 1) as nat, n as nat);
            }
            assert(table[d as int] == hits@[d as int]@);
            let found = find_laser(&self.player_lasers.slots, &hits[d]);
            proof {
                lemma_first_laser_hit_props(self.player_lasers.slots@, hits@[d as int]@, self.player_lasers.slots@.len());
            }
            match found {
                Some(l) => {
                    self.laser_hits_debris(l);
                    strikes.push(DebrisStrike { debris: d, laser: l });
                },
                None => {},
            }
            d = d + 1;
        }
        strikes
    }
}

/// The pass over the lasers keeps the number of lasers and ships.
proof fn lemma_enemy_pass_len(
    lasers: Seq<LaserSlot>,
    enemies: Seq<EnemyUnit>,
    score: int,
    hits: Seq<Seq<bool>>,
    k: nat,
)
    ensures
        enemy_pass(lasers, enemies, score, hits, k).0.len() == lasers.len(),
        enemy_pass(lasers, enemies, score, hits, k).1.len() == enemies.len(),
    decreases k,
{
    if k > 0 {
        lemma_enemy_pass_len(lasers, enemies, score, hits, (k - 1) as nat);
        let (ls, es, sc, ev) = enemy_pass(lasers, enemies, score, hits, (k - 1) as nat);
        lemma_first_ship_hit_props(es, if k - 1 < hits.len() { hits[k - 1] } else { Seq::empty() }, es.len());
    }
}

/// The strikes among `strikes` that destroyed their ship.
pub open spec fn kills(strikes: Seq<EnemyStrike>) -> Seq<EnemyStrike> {
    strikes.filter(|s: EnemyStrike| s.destroyed)
}

/// Over a pass of the lasers against the ships, the score grows by exactly
/// `ENEMY_KILL_SCORE` for every strike that destroyed a ship, and by nothing
/// else.
pub proof fn law_enemy_score_counts_kills(
    lasers: Seq<LaserSlot>,
    enemies: Seq<EnemyUnit>,
    score: int,
    hits: Seq<Seq<bool>>,
    k: nat,
)
    ensures
        enemy_pass(lasers, enemies, score, hits, k).2 == score + ENEMY_KILL_SCORE * kills(
            enemy_pass(lasers, enemies, score, hits, k).3,
        ).len(),
    decreases k,
{
    broadcast use vstd::seq_lib::group_filter_ensures;
    reveal_with_fuel(Seq::<_>::filter, 1);
    if k > 0 {
        law_enemy_score_counts_kills(lasers, enemies, score, hits, (k - 1) as nat);
        let (ls, es, sc, ev) = enemy_pass(lasers, enemies, score, hits, (k - 1) as nat);
        let l = k - 1;
        if l < ls.len() && ls[l].alive && l < hits.len() {
            match first_ship_hit(es, hits[l], es.len()) {
                Some(t) => {
                    let hit = unit_after_hit(es[t]);
                    let strike = EnemyStrike { laser: l as usize, enemy: t as usize, destroyed: !hit.alive };
                    ev.lemma_filter_push(strike, |s: EnemyStrike| s.destroyed);
                },
                None => {},
            }
        }
    }
}

/// Over a pass of the debris against the lasers, the score grows by exactly
/// `DEBRIS_SCORE` for every piece shot down.
pub proof fn law_debris_score_counts_strikes(lasers: Seq<LaserSlot>, score: int, hits: Seq<Seq<bool>>, k: nat)
    ensures
        debris_pass(lasers, score, hits, k).1 == score + DEBRIS_SCORE * debris_pass(lasers, score, hits, k).2.len(),
    decreases k,
{
    if k > 0 {
        law_debris_score_counts_strikes(lasers, score, hits, (k - 1) as nat);
    }
}

/// In a pass of the lasers against the ships every strike comes from a
/// laser that was in flight, each laser strikes at most once, and the
/// strikes come in slot order.
pub proof fn law_one_strike_per_laser(
    lasers: Seq<LaserSlot>,
    enemies: Seq<EnemyUnit>,
    score: int,
    hits: Seq<Seq<bool>>,
    k: nat,
)
    requires
        lasers.len() <= usize::MAX,
    ensures
        forall|i: int, j: int|
            0 <= i < j < enemy_pass(lasers, enemies, score, hits, k).3.len() ==> (#[trigger] enemy_pass(
                lasers,
                enemies,
                score,
                hits,
                k,
            ).3[i]).laser < (#[trigger] enemy_pass(lasers, enemies, score, hits, k).3[j]).laser,
        forall|i: int|
            0 <= i < enemy_pass(lasers, enemies, score, hits, k).3.len() ==> {
                let st = #[trigger] enemy_pass(lasers, enemies, score, hits, k).3[i];
                &&& st.laser < k
                &&& st.laser < lasers.len()
                &&& lasers[st.laser as int].alive
            },
    decreases k,
{
    if k > 0 {
        law_one_strike_per_laser(lasers, enemies, score, hits, (k - 1) as nat);
        lemma_enemy_pass_untouched_above(lasers, enemies, score, hits, (k - 1) as nat);
        let (ls, es, sc, ev) = enemy_pass(lasers, enemies, score, hits, (k - 1) as nat);
        let l = k - 1;
        if l < ls.len() && ls[l].alive && l < hits.len() {
            match first_ship_hit(es, hits[l], es.len()) {
                Some(t) => {
                    let hit = unit_after_hit(es[t]);
                    let strike = EnemyStrike { laser: l as usize, enemy: t as usize, destroyed: !hit.alive };
                    let ev2 = ev.push(strike);
                    assert(enemy_pass(lasers, enemies, score, hits, k).3 == ev2);
                    assert(ls[l] == lasers[l]);
                    assert forall|i: int, j: int| 0 <= i < j < ev2.len() implies (#[trigger] ev2[i]).laser < (
                    #[trigger] ev2[j]).laser by {
                        if j == ev2.len() - 1 {
                            assert(ev2[i] == ev[i]);
                        } else {
                            assert(ev2[i] == ev[i] && ev2[j] == ev[j]);
                        }
                    }
                    assert forall|i: int| 0 <= i < ev2.len() implies {
                        let st = #[trigger] ev2[i];
                        &&& st.laser < k
                        &&& st.laser < lasers.len()
                        &&& lasers[st.laser as int].alive
                    } by {
                        if i < ev.len() {
                            assert(ev2[i] == ev[i]);
                        }
                    }
                },
                None => {},
            }
        }
    }
}

/// The pass over the first `k` lasers leaves the slots from `k` on as they
/// were.
proof fn lemma_enemy_pass_untouched_above(
    lasers: Seq<LaserSlot>,
    enemies: Seq<EnemyUnit>,
    score: int,
    hits: Seq<Seq<bool>>,
    k: nat,
)
    ensures
        enemy_pass(lasers, enemies, score, hits, k).0.len() == lasers.len(),
        forall|i: int| k <= i < lasers.len() ==> #[trigger] enemy_pass(lasers, enemies, score, hits, k).0[i] == lasers[i],
    decreases k,
{
    lemma_enemy_pass_len(lasers, enemies, score, hits, k);
    if k > 0 {
        lemma_enemy_pass_untouched_above(lasers, enemies, score, hits, (k - 1) as nat);
    }
}

/// Over the strikes of one tick, first the lasers against the ships and then
/// the debris against the lasers left in flight, the score never falls and
/// grows by exactly `ENEMY_KILL_SCORE` per destroyed ship plus `DEBRIS_SCORE`
/// per piece shot down.
pub proof fn law_tick_score(
    lasers: Seq<LaserSlot>,
    enemies: Seq<EnemyUnit>,
    score: int,
    ship_hits: Seq<Seq<bool>>,
    debris_hits: Seq<Seq<bool>>,
)
    ensures
        ({
            let r1 = enemy_pass(lasers, enemies, score, ship_hits, lasers.len());
            let r2 = debris_pass(r1.0, r1.2, debris_hits, debris_hits.len());
            &&& r2.1 == score + ENEMY_KILL_SCORE * kills(r1.3).len() + DEBRIS_SCORE * r2.2.len()
            &&& score <= r1.2 <= r2.1
        }),
{
    let r1 = enemy_pass(lasers, enemies, score, ship_hits, lasers.len());
    law_enemy_score_counts_kills(lasers, enemies, score, ship_hits, lasers.len());
    law_debris_score_counts_strikes(r1.0, r1.2, debris_hits, debris_hits.len());
}

/// A laser in flight that a row marks is found: the first laser hit of the
/// row is then some laser.
proof fn lemma_first_laser_hit_complete(lasers: Seq<LaserSlot>, row: Seq<bool>, n: nat, i: int)
    requires
        0 <= i < n,
        i < lasers.len(),
        i < row.len(),
        lasers[i].alive,
        row[i],
    ensures
        first_laser_hit(lasers, row, n) is Some,
    decreases n,
{
    if i < n - 1 {
        lemma_first_laser_hit_complete(lasers, row, (n - 1) as nat, i);
    }
}

/// One debris piece more: the lasers keep their number and can only leave
/// flight, and the strikes found so far stay, in front.
proof fn lemma_debris_pass_step(lasers: Seq<LaserSlot>, score: int, hits: Seq<Seq<bool>>, k: nat)
    requires
        k > 0,
    ensures
        ({
            let prev = debris_pass(lasers, score, hits, (k - 1) as nat);
            let cur = debris_pass(lasers, score, hits, k);
            &&& cur.0.len() == prev.0.len()
            &&& forall|l: int| 0 <= l < cur.0.len() && (#[trigger] cur.0[l]).alive ==> prev.0[l].alive
            &&& prev.2.len() <= cur.2.len()
            &&& forall|j: int| 0 <= j < prev.2.len() ==> #[trigger] cur.2[j] == prev.2[j]
        }),
{
    let prev = debris_pass(lasers, score, hits, (k - 1) as nat);
    let d = k - 1;
    if d < hits.len() {
        lemma_first_laser_hit_props(prev.0, hits[d], prev.0.len());
    }
}

/// The pass keeps the number of lasers, and a laser still in flight after it
/// was in flight before it.
proof fn lemma_debris_pass_keeps_lasers(lasers: Seq<LaserSlot>, score: int, hits: Seq<Seq<bool>>, k: nat)
    ensures
        debris_pass(lasers, score, hits, k).0.len() == lasers.len(),
        forall|l: int|
            0 <= l < lasers.len() && (#[trigger] debris_pass(lasers, score, hits, k).0[l]).alive
                ==> lasers[l].alive,
    decreases k,
{
    if k > 0 {
        lemma_debris_pass_keeps_lasers(lasers, score, hits, (k - 1) as nat);
        lemma_debris_pass_step(lasers, score, hits, k);
    }
}

/// No piece is missed: after the pass over the first `k` pieces, if a laser
/// still in flight touches one of those pieces, that piece was shot down
/// (by a laser earlier in the slot order).  Put otherwise, a piece touched
/// by any laser in flight is always shot down, whatever its place in the
/// table.
pub proof fn law_every_touched_piece_is_shot(lasers: Seq<LaserSlot>, score: int, hits: Seq<Seq<bool>>, k: nat)
    requires
        hits.len() <= usize::MAX,
    ensures
        ({
            let r = debris_pass(lasers, score, hits, k);
            forall|d: int, l: int|
                #![trigger hits[d][l], r.0[l]]
                0 <= d < k && d < hits.len() && 0 <= l < lasers.len() && l < hits[d].len() && hits[d][l]
                    && r.0[l].alive ==> exists|j: int| 0 <= j < r.2.len() && (#[trigger] r.2[j]).debris == d
        }),
    decreases k,
{
    if k > 0 {
        law_every_touched_piece_is_shot(lasers, score, hits, (k - 1) as nat);
        lemma_debris_pass_step(lasers, score, hits, k);
        lemma_debris_pass_keeps_lasers(lasers, score, hits, (k - 1) as nat);
        let prev = debris_pass(lasers, score, hits, (k - 1) as nat);
        let cur = debris_pass(lasers, score, hits, k);
        assert forall|d: int, l: int|
            #![trigger hits[d][l], cur.0[l]]
            0 <= d < k && d < hits.len() && 0 <= l < lasers.len() && l < hits[d].len() && hits[d][l]
                && cur.0[l].alive implies exists|j: int| 0 <= j < cur.2.len() && (#[trigger] cur.2[j]).debris == d by {
            assert(prev.0[l].alive);
            if d < k - 1 {
                let j = choose|j: int| 0 <= j < prev.2.len() && (#[trigger] prev.2[j]).debris == d;
                assert(cur.2[j] == prev.2[j]);
            } else {
                lemma_first_laser_hit_complete(prev.0, hits[d], prev.0.len(), l);
                let t = first_laser_hit(prev.0, hits[d], prev.0.len())->0;
                assert(cur.2 == prev.2.push(DebrisStrike { debris: d as usize, laser: t as usize }));
                assert(cur.2[prev.2.len() as int].debris == d);
            }
        }
    }
}

/// Every strike of the pass is a real one: the piece is among the first `k`
/// and comes later in the table than the pieces struck before it, the laser
/// was in flight when the pass began, the table marks it as touching the
/// piece, and it has left flight by the end.
pub proof fn law_debris_strikes_are_genuine(lasers: Seq<LaserSlot>, score: int, hits: Seq<Seq<bool>>, k: nat)
    requires
        hits.len() <= usize::MAX,
        lasers.len() <= usize::MAX,
    ensures
        ({
            let r = debris_pass(lasers, score, hits, k);
            &&& forall|j: int|
                0 <= j < r.2.len() ==> {
                    let st = #[trigger] r.2[j];
                    &&& st.debris < k
                    &&& st.debris < hits.len()
                    &&& st.laser < lasers.len()
                    &&& st.laser < hits[st.debris as int].len()
                    &&& hits[st.debris as int][st.laser as int]
                    &&& lasers[st.laser as int].alive
                    &&& !r.0[st.laser as int].alive
                }
            &&& forall|i: int, j: int| 0 <= i < j < r.2.len() ==> (#[trigger] r.2[i]).debris < (#[trigger] r.2[j]).debris
        }),
    decreases k,
{
    if k > 0 {
        law_debris_strikes_are_genuine(lasers, score, hits, (k - 1) as nat);
        lemma_debris_pass_step(lasers, score, hits, k);
        lemma_debris_pass_keeps_lasers(lasers, score, hits, (k - 1) as nat);
        let prev = debris_pass(lasers, score, hits, (k - 1) as nat);
        let cur = debris_pass(lasers, score, hits, k);
        let d = k - 1;
        if d < hits.len() {
            lemma_first_laser_hit_props(prev.0, hits[d], prev.0.len());
            match first_laser_hit(prev.0, hits[d], prev.0.len()) {
                Some(t) => {
                    let st = DebrisStrike { debris: d as usize, laser: t as usize };
                    assert(cur.2 == prev.2.push(st));
                    assert(cur.0 == prev.0.update(t, retired(prev.0[t])));
                    assert forall|j: int| 0 <= j < cur.2.len() implies {
                        let s2 = #[trigger] cur.2[j];
                        &&& s2.debris < k
                        &&& s2.debris < hits.len()
                        &&& s2.laser < lasers.len()
                        &&& s2.laser < hits[s2.debris as int].len()
                        &&& hits[s2.debris as int][s2.laser as int]
                        &&& lasers[s2.laser as int].alive
                        &&& !cur.0[s2.laser as int].alive
                    } by {
                        if j < prev.2.len() {
                            assert(cur.2[j] == prev.2[j]);
                            let s1 = prev.2[j];
                            assert(!prev.0[s1.laser as int].alive);
                        }
                    }
                    assert forall|i: int, j: int| 0 <= i < j < cur.2.len() implies (#[trigger] cur.2[i]).debris
                        < (#[trigger] cur.2[j]).debris by {
                        assert(cur.2[i] == prev.2[i]);
                        if j < prev.2.len() {
                            assert(cur.2[j] == prev.2[j]);
                        }
                    }
                },
                None => {},
            }
        }
    }
}

} // verus!
