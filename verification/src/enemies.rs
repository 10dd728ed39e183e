use vstd::prelude::*;

use crate::config::{ENEMY_FIRE_COOLDOWN, ENEMY_HULL, LASER_DAMAGE};

verus! {

/// The integer part of an enemy ship: whether it is still flying, its hull
/// points and the ticks left before it may fire.  Hull points are whole
/// numbers: the ship starts at `ENEMY_HULL` and every hit takes off
/// `LASER_DAMAGE`, so every value it goes through is an integer.  Its heading
/// lives with the rendering side.
#[derive(Clone, Copy, Debug, PartialEq, Eq, Structural)]
pub struct EnemyUnit {
    pub alive: bool,
    pub hull: i32,
    pub fire_cooldown: u32,
}

/// A ship that is still flying has hull left, and never more than a fresh one.
pub open spec fn unit_wf(u: EnemyUnit) -> bool {
    u.alive ==> 0 < u.hull <= ENEMY_HULL
}

/// A fresh ship that will first be able to fire after `cooldown` ticks.
pub open spec fn fresh_unit(cooldown: u32) -> EnemyUnit {
    EnemyUnit { alive: true, hull: ENEMY_HULL, fire_cooldown: cooldown }
}

/// The ship after one laser hit: the hull loses `LASER_DAMAGE` points and the
/// ship is destroyed once the hull is at or below zero.
pub open spec fn unit_after_hit(u: EnemyUnit) -> EnemyUnit {
    EnemyUnit {
        alive: u.hull - LASER_DAMAGE > 0,
        hull: (u.hull - LASER_DAMAGE) as i32,
        fire_cooldown: u.fire_cooldown,
    }
}

/// The fire-control countdown after one tick in pursuit: one tick less (not
/// below zero), and back to the full cooldown when the ship fires.
pub open spec fn cooldown_after_pursuit(cooldown: u32, fires: bool) -> u32 {
    if fires {
        ENEMY_FIRE_COOLDOWN
    } else if cooldown > 0 {
        (cooldown - 1) as u32
    } else {
        0
    }
}

/// Whether a ship in pursuit fires on this tick: its countdown reaches zero
/// while the player is within firing range.
pub open spec fn fires_in_pursuit(cooldown: u32, within_fire_range: bool) -> bool {
    cooldown <= 1 && within_fire_range
}

impl EnemyUnit {
    /// A fresh ship with a full hull.
    pub fn fresh(cooldown: u32) -> (u: EnemyUnit)
        ensures
            u == fresh_unit(cooldown),
            unit_wf(u),
    {
        EnemyUnit { alive: true, hull: ENEMY_HULL, fire_cooldown: cooldown }
    }

    /// Applies one laser hit to a flying ship; returns whether it destroyed it.
    pub fn take_hit(&mut self) -> (destroyed: bool)
        requires
            old(self).alive,
            unit_wf(*old(self)),
        ensures
            *final(self) == unit_after_hit(*old(self)),
            destroyed == !final(self).alive,
            unit_wf(*final(self)),
    {
        self.hull = self.hull - LASER_DAMAGE;
        let destroyed = self.hull <= 0;
        if destroyed {
            self.alive = false;
        }
        destroyed
    }

    /// One tick of fire control while the ship pursues the player: the
    /// countdown goes down by one, and when it has reached zero and the
    /// player is within firing range the ship fires and the countdown starts
    /// over.  Returns whether the ship fires.
    pub fn pursue(&mut self, within_fire_range: bool) -> (fires: bool)
        ensures
            fires == fires_in_pursuit(old(self).fire_cooldown, within_fire_range),
            final(self).fire_cooldown == cooldown_after_pursuit(old(self).fire_cooldown, fires),
            final(self).alive == old(self).alive,
            final(self).hull == old(self).hull,
    {
        self.fire_cooldown = self.fire_cooldown.saturating_sub(1);
        if self.fire_cooldown == 0 && within_fire_range {
            self.fire_cooldown = ENEMY_FIRE_COOLDOWN;
            true
        } else {
            false
        }
    }
}

/// The ship after `k` hits.
pub open spec fn unit_after_hits(u: EnemyUnit, k: nat) -> EnemyUnit
    decreases k,
{
    if k == 0 {
        u
    } else {
        unit_after_hit(unit_after_hits(u, (k - 1) as nat))
    }
}

/// Number of hits a ship with `hull` points takes before it is destroyed.
pub open spec fn hits_to_destroy(hull: int) -> int {
    (hull + LASER_DAMAGE - 1) / (LASER_DAMAGE as int)
}

/// Hits take a ship's hull down by `LASER_DAMAGE` each.
pub proof fn lemma_hull_after_hits(u: EnemyUnit, k: nat)
    requires
        unit_wf(u),
        u.alive,
        k <= hits_to_destroy(u.hull as int),
    ensures
        unit_after_hits(u, k).hull == u.hull - LASER_DAMAGE * k,
        unit_after_hits(u, k).fire_cooldown == u.fire_cooldown,
    decreases k,
{
    if k > 0 {
        lemma_hull_after_hits(u, (k - 1) as nat);
    }
}

/// A flying ship survives every hit before the `hits_to_destroy`-th and is
/// destroyed by that one.
pub proof fn law_ship_destroyed_by_exact_hit_count(u: EnemyUnit, k: nat)
    requires
        unit_wf(u),
        u.alive,
        1 <= k <= hits_to_destroy(u.hull as int),
    ensures
        unit_after_hits(u, k).alive <==> k < hits_to_destroy(u.hull as int),
{
    lemma_hull_after_hits(u, k);
    assert(unit_after_hits(u, k) == unit_after_hit(unit_after_hits(u, (k - 1) as nat)));
    lemma_hull_after_hits(u, (k - 1) as nat);
    let h = u.hull as int;
    assert((k as int) < hits_to_destroy(h) ==> h - 12 * (k as int) > 0) by (nonlinear_arith)
        requires
            0 < h,
            hits_to_destroy(h) == (h + 11) / 12,
    ;
    assert((k as int) == hits_to_destroy(h) ==> h - 12 * (k as int) <= 0) by (nonlinear_arith)
        requires
            0 < h,
            hits_to_destroy(h) == (h + 11) / 12,
    ;
}

/// A fresh ship is destroyed by exactly the fourth hit.
pub proof fn law_fresh_ship_takes_four_hits(cooldown: u32)
    ensures
        hits_to_destroy(ENEMY_HULL as int) == 4,
        unit_after_hits(fresh_unit(cooldown), 3).alive,
        !unit_after_hits(fresh_unit(cooldown), 4).alive,
{
    law_ship_destroyed_by_exact_hit_count(fresh_unit(cooldown), 3);
    law_ship_destroyed_by_exact_hit_count(fresh_unit(cooldown), 4);
}

/// Countdown and "fired at least once" after a run of pursuit ticks, where
/// `in_range[j]` says whether the player was within firing range on tick `j`.
pub open spec fn pursuit_run(cooldown: u32, in_range: Seq<bool>) -> (u32, bool)
    decreases in_range.len(),
{
    if in_range.len() == 0 {
        (cooldown, false)
    } else {
        let (c, fired) = pursuit_run(cooldown, in_range.drop_last());
        let f = fires_in_pursuit(c, in_range.last());
        (cooldown_after_pursuit(c, f), fired || f)
    }
}

/// A ship whose countdown stands at `cooldown` cannot fire during the next
/// `cooldown - 1` pursuit ticks, whatever the range; in particular a ship that
/// has just fired holds fire for `ENEMY_FIRE_COOLDOWN - 1` ticks.
pub proof fn law_no_shot_before_cooldown(cooldown: u32, in_range: Seq<bool>)
    requires
        1 <= cooldown,
        in_range.len() < cooldown,
    ensures
        pursuit_run(cooldown, in_range) == ((cooldown - in_range.len()) as u32, false),
    decreases in_range.len(),
{
    if in_range.len() > 0 {
        law_no_shot_before_cooldown(cooldown, in_range.drop_last());
    }
}

} // verus!
