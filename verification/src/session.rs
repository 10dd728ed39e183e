use vstd::prelude::*;

use crate::config::{
    DEBRIS_SCORE, ENEMY_HULL, ENEMY_KILL_SCORE, ENEMY_LASER_POOL_SIZE, LASER_LIFETIME, LASER_POOL_SIZE,
    SHIELD_REGEN_DELAY,
};
use crate::controls::{effects_of, flags_after, flags_wf, fresh_flags, restarts, Command, Effect, Flags};
use crate::enemies::{
    cooldown_after_pursuit, fires_in_pursuit, fresh_unit, unit_after_hit, unit_wf, EnemyUnit,
};
use crate::lasers::{expired_indices, slot_after_tick, slot_wf, LaserPool, LaserSlot};

verus! {

/// The whole-number state of one game: the switches, the tick and weapon
/// counters, the score, both laser pools and the enemy ships, and the fire
/// countdowns the ships start every game with.
pub struct Session {
    pub flags: Flags,
    /// Ticks until the player's gun is ready again.
    pub fire_cooldown: u32,
    /// Ticks the shield has spent below full since it was last hit.
    pub shield_regen_timer: u32,
    pub score: u64,
    /// Ticks simulated so far.
    pub ticks: u64,
    pub player_lasers: LaserPool,
    pub enemy_lasers: LaserPool,
    pub enemies: Vec<EnemyUnit>,
    /// The fire countdown of each ship at the start of a game.
    pub start_cooldowns: Vec<u32>,
}

/// A session at the start of a game whose ships start with the fire
/// countdowns `cooldowns`: switches off, counters and score at zero, both
/// laser pools full-sized and idle, and one ship at full hull per countdown.
pub open spec fn fresh_game(s: Session, cooldowns: Seq<u32>) -> bool {
    &&& s.flags == fresh_flags()
    &&& s.fire_cooldown == 0
    &&& s.shield_regen_timer == 0
    &&& s.score == 0
    &&& s.ticks == 0
    &&& s.player_lasers.slots@.len() == LASER_POOL_SIZE
    &&& s.enemy_lasers.slots@.len() == ENEMY_LASER_POOL_SIZE
    &&& forall|i: int| 0 <= i < LASER_POOL_SIZE ==> #[trigger] s.player_lasers.slots@[i] == (LaserSlot { alive: false, age: 0 })
    &&& forall|i: int| 0 <= i < ENEMY_LASER_POOL_SIZE ==> #[trigger] s.enemy_lasers.slots@[i] == (LaserSlot { alive: false, age: 0 })
    &&& s.enemies@.len() == cooldowns.len()
    &&& forall|i: int| 0 <= i < cooldowns.len() ==> #[trigger] s.enemies@[i] == fresh_unit(cooldowns[i])
    &&& s.start_cooldowns@ == cooldowns
}

/// Whether a session may advance on this tick: neither paused nor over.
pub open spec fn runs(f: Flags) -> bool {
    !f.paused && !f.game_over
}

/// The shield timer after one tick: it counts the ticks spent below full.
pub open spec fn regen_timer_after(timer: u32, below_full: bool) -> u32 {
    if below_full {
        (timer + 1) as u32
    } else {
        timer
    }
}

/// Whether the shield regenerates on this tick: it is below full and the
/// timer, counted on, has reached the regeneration delay.
pub open spec fn regenerates(timer: u32, below_full: bool) -> bool {
    below_full && timer + 1 >= SHIELD_REGEN_DELAY
}

/// Checks at run time that no laser of the pool in flight has outlived the
/// lifetime.
pub fn pool_is_wf(pool: &LaserPool) -> (b: bool)
    ensures
        b == pool.wf(),
{
    let n = pool.slots.len();
    let mut i: usize = 0;
    while i < n
        invariant
            n == pool.slots@.len(),
            i <= n,
            forall|j: int| 0 <= j < i ==> slot_wf(#[trigger] pool.slots@[j]),
        decreases n - i,
    {
        let s = pool.slots[i];
        if s.alive && s.age > LASER_LIFETIME {
            assert(!slot_wf(pool.slots@[i as int]));
            return false;
        }
        i = i + 1;
    }
    true
}

impl Session {
    pub open spec fn wf(&self) -> bool {
        &&& flags_wf(self.flags)
        &&& self.player_lasers.wf()
        &&& self.enemy_lasers.wf()
        &&& forall|i: int| 0 <= i < self.enemies.len() ==> unit_wf(#[trigger] self.enemies@[i])
    }

    /// Checks at run time that the session is well formed: the controls panel
    /// only shows while paused, no laser in flight has outlived the lifetime,
    /// and every flying ship has hull points left, no more than a fresh one.
    pub fn is_wf(&self) -> (b: bool)
        ensures
            b == self.wf(),
    {
        if self.flags.show_controls && !self.flags.paused {
            return false;
        }
        if !pool_is_wf(&self.player_lasers) || !pool_is_wf(&self.enemy_lasers) {
            return false;
        }
        let n = self.enemies.len();
        let mut i: usize = 0;
        while i < n
            invariant
                n == self.enemies@.len(),
                i <= n,
                forall|j: int| 0 <= j < i ==> unit_wf(#[trigger] self.enemies@[j]),
            decreases n - i,
        {
            let u = self.enemies[i];
            if u.alive && (u.hull <= 0 || u.hull > ENEMY_HULL) {
                assert(!unit_wf(self.enemies@[i as int]));
                return false;
            }
            i = i + 1;
        }
        true
    }

    /// A fresh game: switches off, counters and score at zero, both laser
    /// pools idle, and one ship at full hull for each given fire countdown.
    pub fn new(enemy_cooldowns: &Vec<u32>) -> (s: Session)
        ensures
            s.wf(),
            fresh_game(s, enemy_cooldowns@),
    {
        let mut enemies: Vec<EnemyUnit> = Vec::new();
        let mut start_cooldowns: Vec<u32> = Vec::new();
        let n = enemy_cooldowns.len();
        let mut k: usize = 0;
        while k < n
            invariant
                n == enemy_cooldowns@.len(),
                k <= n,
                enemies@.len() == k,
                forall|i: int| 0 <= i < k ==> #[trigger] enemies@[i] == fresh_unit(enemy_cooldowns@[i]),
                start_cooldowns@ == enemy_cooldowns@.subrange(0, k as int),
            decreases n - k,
        {
            enemies.push(EnemyUnit::fresh(enemy_cooldowns[k]));
            start_cooldowns.push(enemy_cooldowns[k]);
            k = k + 1;
        }
        assert(start_cooldowns@ =~= enemy_cooldowns@);
        Session {
            flags: Flags::new(),
            fire_cooldown: 0,
            shield_regen_timer: 0,
            score: 0,
            ticks: 0,
            player_lasers: LaserPool::new(LASER_POOL_SIZE),
            enemy_lasers: LaserPool::new(ENEMY_LASER_POOL_SIZE),
            enemies,
            start_cooldowns,
        }
    }

    /// Carries out a keyboard or mouse command and returns the engine work
    /// it calls for.  The restart key, once the game is over, starts a fresh
    /// game with the ships' starting fire countdowns; every other command
    /// changes nothing but the switches.
    pub fn apply(&mut self, cmd: Command) -> (effects: Vec<Effect>)
        requires
            old(self).wf(),
        ensures
            final(self).wf(),
            final(self).flags == flags_after(old(self).flags, cmd),
            effects@ == effects_of(old(self).flags, cmd),
            final(self).start_cooldowns@ == old(self).start_cooldowns@,
            restarts(old(self).flags, cmd) ==> fresh_game(*final(self), old(self).start_cooldowns@),
            !restarts(old(self).flags, cmd) ==> {
                &&& final(self).fire_cooldown == old(self).fire_cooldown
                &&& final(self).shield_regen_timer == old(self).shield_regen_timer
                &&& final(self).score == old(self).score
                &&& final(self).ticks == old(self).ticks
                &&& final(self).player_lasers.slots@ == old(self).player_lasers.slots@
                &&& final(self).enemy_lasers.slots@ == old(self).enemy_lasers.slots@
                &&& final(self).enemies@ == old(self).enemies@
            },
    {
        let over = self.flags.game_over;
        let effects = self.flags.apply(cmd);
        if over {
            if let Command::Restart = cmd {
                *self = Session::new(&self.start_cooldowns);
            }
        }
        effects
    }

    /// Opens a tick: a paused or finished game stays exactly as it is and
    /// reports `false`; a running one counts the tick and reports `true`.
    pub fn begin_tick(&mut self) -> (running: bool)
        requires
            runs(old(self).flags) ==> old(self).ticks < u64::MAX,
        ensures
            running == runs(old(self).flags),
            final(self).ticks == (if running { (old(self).ticks + 1) as u64 } else { old(self).ticks }),
            final(self).flags == old(self).flags,
            final(self).fire_cooldown == old(self).fire_cooldown,
            final(self).shield_regen_timer == old(self).shield_regen_timer,
            final(self).score == old(self).score,
            final(self).player_lasers.slots@ == old(self).player_lasers.slots@,
            final(self).enemy_lasers.slots@ == old(self).enemy_lasers.slots@,
            final(self).enemies@ == old(self).enemies@,
    {
        if self.flags.game_over || self.flags.paused {
            return false;
        }
        self.ticks = self.ticks + 1;
        true
    }

    /// One tick of the player's gun cooling down, to zero at the least.
    pub fn cool_gun(&mut self)
        ensures
            final(self).fire_cooldown == (if old(self).fire_cooldown > 0 {
                (old(self).fire_cooldown - 1) as u32
            } else {
                0
            }),
            final(self).flags == old(self).flags,
            final(self).shield_regen_timer == old(self).shield_regen_timer,
            final(self).score == old(self).score,
            final(self).ticks == old(self).ticks,
            final(self).player_lasers.slots@ == old(self).player_lasers.slots@,
            final(self).enemy_lasers.slots@ == old(self).enemy_lasers.slots@,
            final(self).enemies@ == old(self).enemies@,
    {
        if self.fire_cooldown > 0 {
            self.fire_cooldown = self.fire_cooldown - 1;
        }
    }

    /// One tick of the shield timer; `below_full` says whether the shield is
    /// below its maximum.  Returns whether the shield regenerates this tick.
    pub fn tick_shield(&mut self, below_full: bool) -> (regen: bool)
        requires
            below_full ==> old(self).shield_regen_timer < u32::MAX,
        ensures
            regen == regenerates(old(self).shield_regen_timer, below_full),
            final(self).shield_regen_timer == regen_timer_after(old(self).shield_regen_timer, below_full),
            final(self).flags == old(self).flags,
            final(self).fire_cooldown == old(self).fire_cooldown,
            final(self).score == old(self).score,
            final(self).ticks == old(self).ticks,
            final(self).player_lasers.slots@ == old(self).player_lasers.slots@,
            final(self).enemy_lasers.slots@ == old(self).enemy_lasers.slots@,
            final(self).enemies@ == old(self).enemies@,
    {
        if below_full {
            self.shield_regen_timer = self.shield_regen_timer + 1;
            self.shield_regen_timer >= SHIELD_REGEN_DELAY
        } else {
            false
        }
    }

    /// Ages the player's lasers by a tick; returns the slots that expired.
    pub fn advance_player_lasers(&mut self) -> (expired: Vec<usize>)
        requires
            old(self).wf(),
        ensures
            final(self).wf(),
            final(self).player_lasers.slots@.len() == old(self).player_lasers.slots@.len(),
            forall|i: int| 0 <= i < old(self).player_lasers.slots@.len() ==>
                #[trigger] final(self).player_lasers.slots@[i] == slot_after_tick(old(self).player_lasers.slots@[i]),
            expired@ == expired_indices(old(self).player_lasers.slots@),
            forall|k: int| 0 <= k < expired@.len() ==> {
                &&& expired@[k] < old(self).player_lasers.slots@.len()
                &&& #[trigger] old(self).player_lasers.slots@[expired@[k] as int].alive
                &&& !final(self).player_lasers.slots@[expired@[k] as int].alive
            },
            forall|i: int| 0 <= i < old(self).player_lasers.slots@.len()
                && old(self).player_lasers.slots@[i].alive
                && !(#[trigger] final(self).player_lasers.slots@[i]).alive ==> expired@.contains(i as usize),
            final(self).flags == old(self).flags,
            final(self).fire_cooldown == old(self).fire_cooldown,
            final(self).shield_regen_timer == old(self).shield_regen_timer,
            final(self).score == old(self).score,
            final(self).ticks == old(self).ticks,
            final(self).enemy_lasers.slots@ == old(self).enemy_lasers.slots@,
            final(self).enemies@ == old(self).enemies@,
    {
        let expired = self.player_lasers.advance();
        proof {
            crate::lasers::lemma_expired_members(old(self).player_lasers.slots@, expired@);
        }
        expired
    }

    /// Ages the enemies' lasers by a tick; returns the slots that expired.
    pub fn advance_enemy_lasers(&mut self) -> (expired: Vec<usize>)
        requires
            old(self).wf(),
        ensures
            final(self).wf(),
            final(self).enemy_lasers.slots@.len() == old(self).enemy_lasers.slots@.len(),
            forall|i: int| 0 <= i < old(self).enemy_lasers.slots@.len() ==>
                #[trigger] final(self).enemy_lasers.slots@[i] == slot_after_tick(old(self).enemy_lasers.slots@[i]),
            expired@ == expired_indices(old(self).enemy_lasers.slots@),
            forall|k: int| 0 <= k < expired@.len() ==> {
                &&& expired@[k] < old(self).enemy_lasers.slots@.len()
                &&& #[trigger] old(self).enemy_lasers.slots@[expired@[k] as int].alive
                &&& !final(self).enemy_lasers.slots@[expired@[k] as int].alive
            },
            forall|i: int| 0 <= i < old(self).enemy_lasers.slots@.len()
                && old(self).enemy_lasers.slots@[i].alive
                && !(#[trigger] final(self).enemy_lasers.slots@[i]).alive ==> expired@.contains(i as usize),
            final(self).flags == old(self).flags,
            final(self).fire_cooldown == old(self).fire_cooldown,
            final(self).shield_regen_timer == old(self).shield_regen_timer,
            final(self).score == old(self).score,
            final(self).ticks == old(self).ticks,
            final(self).player_lasers.slots@ == old(self).player_lasers.slots@,
            final(self).enemies@ == old(self).enemies@,
    {
        let expired = self.enemy_lasers.advance();
        proof {
            crate::lasers::lemma_expired_members(old(self).enemy_lasers.slots@, expired@);
        }
        expired
    }

    /// One tick of fire control for ship `e` while it pursues the player;
    /// `within_fire_range` says whether the player is close enough to shoot
    /// at.  Returns whether the ship fires.
    pub fn pursue(&mut self, e: usize, within_fire_range: bool) -> (fires: bool)
        requires
            old(self).wf(),
            e < old(self).enemies@.len(),
        ensures
            final(self).wf(),
            fires == fires_in_pursuit(old(self).enemies@[e as int].fire_cooldown, within_fire_range),
            final(self).enemies@ == old(self).enemies@.update(
                e as int,
                EnemyUnit {
                    fire_cooldown: cooldown_after_pursuit(old(self).enemies@[e as int].fire_cooldown, fires),
                    ..old(self).enemies@[e as int]
                },
            ),
            final(self).flags == old(self).flags,
            final(self).fire_cooldown == old(self).fire_cooldown,
            final(self).shield_regen_timer == old(self).shield_regen_timer,
            final(self).score == old(self).score,
            final(self).ticks == old(self).ticks,
            final(self).player_lasers.slots@ == old(self).player_lasers.slots@,
            final(self).enemy_lasers.slots@ == old(self).enemy_lasers.slots@,
    {
        let mut u = self.enemies[e];
        let fires = u.pursue(within_fire_range);
        self.enemies.set(e, u);
        fires
    }

    /// Player laser `l` strikes flying ship `e`: the laser leaves flight, the
    /// ship takes a hit, and destroying it scores `ENEMY_KILL_SCORE`.
    /// Returns whether the ship was destroyed.
    pub fn laser_hits_enemy(&mut self, l: usize, e: usize) -> (destroyed: bool)
        requires
            old(self).wf(),
            l < old(self).player_lasers.slots@.len(),
            e < old(self).enemies@.len(),
            old(self).enemies@[e as int].alive,
            !unit_after_hit(old(self).enemies@[e as int]).alive ==> old(self).score + ENEMY_KILL_SCORE
                <= u64::MAX,
        ensures
            final(self).wf(),
            final(self).enemies@ == old(self).enemies@.update(e as int, unit_after_hit(old(self).enemies@[e as int])),
            destroyed == !unit_after_hit(old(self).enemies@[e as int]).alive,
            final(self).score == old(self).score + (if destroyed { ENEMY_KILL_SCORE } else { 0 }),
            final(self).player_lasers.slots@ == old(self).player_lasers.slots@.update(
                l as int,
                LaserSlot { alive: false, age: old(self).player_lasers.slots@[l as int].age },
            ),
            final(self).flags == old(self).flags,
            final(self).fire_cooldown == old(self).fire_cooldown,
            final(self).shield_regen_timer == old(self).shield_regen_timer,
            final(self).ticks == old(self).ticks,
            final(self).enemy_lasers.slots@ == old(self).enemy_lasers.slots@,
    {
        self.player_lasers.retire(l);
        let mut u = self.enemies[e];
        let destroyed = u.take_hit();
        self.enemies.set(e, u);
        if destroyed {
            self.score = self.score + ENEMY_KILL_SCORE;
        }
        destroyed
    }

    /// Player laser `l` shoots down a piece of debris: the laser leaves
    /// flight and the player scores `DEBRIS_SCORE`.
    pub fn laser_hits_debris(&mut self, l: usize)
        requires
            old(self).wf(),
            l < old(self).player_lasers.slots@.len(),
            old(self).score + DEBRIS_SCORE <= u64::MAX,
        ensures
            final(self).wf(),
            final(self).score == old(self).score + DEBRIS_SCORE,
            final(self).player_lasers.slots@ == old(self).player_lasers.slots@.update(
                l as int,
                LaserSlot { alive: false, age: old(self).player_lasers.slots@[l as int].age },
            ),
            final(self).flags == old(self).flags,
            final(self).fire_cooldown == old(self).fire_cooldown,
            final(self).shield_regen_timer == old(self).shield_regen_timer,
            final(self).ticks == old(self).ticks,
            final(self).enemy_lasers.slots@ == old(self).enemy_lasers.slots@,
            final(self).enemies@ == old(self).enemies@,
    {
        self.player_lasers.retire(l);
        self.score = self.score + DEBRIS_SCORE;
    }

    /// Enemy laser `l` strikes the player: the laser leaves flight and the
    /// shield timer starts over.
    pub fn laser_hits_player(&mut self, l: usize)
        requires
            old(self).wf(),
            l < old(self).enemy_lasers.slots@.len(),
        ensures
            final(self).wf(),
            final(self).shield_regen_timer == 0,
            final(self).enemy_lasers.slots@ == old(self).enemy_lasers.slots@.update(
                l as int,
                LaserSlot { alive: false, age: old(self).enemy_lasers.slots@[l as int].age },
            ),
            final(self).flags == old(self).flags,
            final(self).fire_cooldown == old(self).fire_cooldown,
            final(self).score == old(self).score,
            final(self).ticks == old(self).ticks,
            final(self).player_lasers.slots@ == old(self).player_lasers.slots@,
            final(self).enemies@ == old(self).enemies@,
    {
        self.enemy_lasers.retire(l);
        self.shield_regen_timer = 0;
    }

    /// A piece of debris rams the player: the shield timer starts over.
    pub fn debris_hits_player(&mut self)
        ensures
            final(self).shield_regen_timer == 0,
            final(self).flags == old(self).flags,
            final(self).fire_cooldown == old(self).fire_cooldown,
            final(self).score == old(self).score,
            final(self).ticks == old(self).ticks,
            final(self).player_lasers.slots@ == old(self).player_lasers.slots@,
            final(self).enemy_lasers.slots@ == old(self).enemy_lasers.slots@,
            final(self).enemies@ == old(self).enemies@,
    {
        self.shield_regen_timer = 0;
    }

    /// The player's ship is destroyed: the game is over.
    pub fn end_game(&mut self)
        requires
            old(self).wf(),
        ensures
            final(self).wf(),
            final(self).flags == (Flags { game_over: true, ..old(self).flags }),
            final(self).fire_cooldown == old(self).fire_cooldown,
            final(self).shield_regen_timer == old(self).shield_regen_timer,
            final(self).score == old(self).score,
            final(self).ticks == old(self).ticks,
            final(self).player_lasers.slots@ == old(self).player_lasers.slots@,
            final(self).enemy_lasers.slots@ == old(self).enemy_lasers.slots@,
            final(self).enemies@ == old(self).enemies@,
    {
        self.flags.game_over = true;
    }
}

/// A finished game stands still until the restart key is pressed; the key
/// reloads the scene and the very next tick runs again.
pub proof fn law_restart_resumes_ticks(f: Flags)
    requires
        f.game_over,
    ensures
        !runs(f),
        effects_of(f, Command::Restart) == seq![Effect::ReloadScene],
        runs(flags_after(f, Command::Restart)),
{
}

/// The shield timer and "regenerated at least once" after a run of ticks,
/// where `below_full[j]` says whether the shield was below full on tick `j`.
pub open spec fn shield_run(timer: u32, below_full: Seq<bool>) -> (u32, bool)
    decreases below_full.len(),
{
    if below_full.len() == 0 {
        (timer, false)
    } else {
        let (t, regen) = shield_run(timer, below_full.drop_last());
        (regen_timer_after(t, below_full.last()), regen || regenerates(t, below_full.last()))
    }
}

/// After a hit resets the timer, the shield stays down for at least
/// `SHIELD_REGEN_DELAY - 1` ticks, whatever happens meanwhile; more generally
/// it cannot regenerate before the timer has counted up to the delay.
pub proof fn law_shield_waits_after_hit(timer: u32, below_full: Seq<bool>)
    requires
        timer + below_full.len() < SHIELD_REGEN_DELAY,
    ensures
        !shield_run(timer, below_full).1,
        shield_run(timer, below_full).0 <= timer + below_full.len(),
    decreases below_full.len(),
{
    if below_full.len() > 0 {
        law_shield_waits_after_hit(timer, below_full.drop_last());
    }
}

/// Once the shield has waited out the delay below full, it regenerates on
/// every further tick on which it is still below full.
pub proof fn law_shield_regenerates_after_delay(timer: u32)
    requires
        timer + 1 >= SHIELD_REGEN_DELAY,
    ensures
        regenerates(timer, true),
        !regenerates(timer, false),
{
}

/// How many ticks of a run regenerate the shield, where `below_full[j]` says
/// whether the shield was below full on tick `j`.
pub open spec fn shield_regens(timer: u32, below_full: Seq<bool>) -> nat
    decreases below_full.len(),
{
    if below_full.len() == 0 {
        0
    } else {
        let before = shield_run(timer, below_full.drop_last()).0;
        shield_regens(timer, below_full.drop_last()) + if regenerates(before, below_full.last()) {
            1nat
        } else {
            0nat
        }
    }
}

/// A run of `n` ticks with the shield below full throughout.
pub open spec fn drained(n: nat) -> Seq<bool> {
    Seq::new(n, |j: int| true)
}

/// Over `n` ticks below full the timer counts up by `n`, and the shield
/// regenerates on every tick on which the count has reached the delay.
proof fn lemma_drained_run(timer: u32, n: nat)
    requires
        timer + n <= u32::MAX,
    ensures
        shield_run(timer, drained(n)).0 == timer + n,
        shield_regens(timer, drained(n)) == (if timer + n + 1 >= SHIELD_REGEN_DELAY {
            (timer + n + 1 - SHIELD_REGEN_DELAY) as nat
        } else {
            0nat
        }) - (if timer + 1 >= SHIELD_REGEN_DELAY {
            (timer + 1 - SHIELD_REGEN_DELAY) as nat
        } else {
            0nat
        }),
    decreases n,
{
    if n > 0 {
        assert(drained(n).drop_last() =~= drained((n - 1) as nat));
        lemma_drained_run(timer, (n - 1) as nat);
    }
}

/// After a hit resets the timer, `n` ticks with the shield below full
/// regenerate it on exactly `n - (SHIELD_REGEN_DELAY - 1)` of them, or on
/// none when `n` is shorter than that.
pub proof fn law_shield_regen_count(n: nat)
    requires
        n <= u32::MAX,
    ensures
        shield_regens(0, drained(n)) == (if n + 1 >= SHIELD_REGEN_DELAY {
            (n + 1 - SHIELD_REGEN_DELAY) as nat
        } else {
            0nat
        }),
{
    lemma_drained_run(0, n);
}

} // verus!
