use vstd::prelude::*;

use crate::config::LASER_LIFETIME;

verus! {

/// The integer part of one laser slot: whether it is in flight and how many
/// ticks it has flown.  Its heading lives with the rendering side.
#[derive(Clone, Copy, Debug, PartialEq, Eq, Structural)]
pub struct LaserSlot {
    pub alive: bool,
    pub age: u32,
}

/// A fixed-size pool of laser slots, reused round after round.
pub struct LaserPool {
    pub slots: Vec<LaserSlot>,
}

/// A slot in flight never outlives the laser lifetime.
pub open spec fn slot_wf(s: LaserSlot) -> bool {
    s.alive ==> s.age <= LASER_LIFETIME
}

/// One tick of a slot: a slot in flight grows one tick older and drops out of
/// flight once its age exceeds the lifetime; an idle slot is left as it is.
pub open spec fn slot_after_tick(s: LaserSlot) -> LaserSlot {
    if s.alive {
        LaserSlot { alive: s.age + 1 <= LASER_LIFETIME, age: (s.age + 1) as u32 }
    } else {
        s
    }
}

/// Whether the slot drops out of flight on this tick.
pub open spec fn expires_on_tick(s: LaserSlot) -> bool {
    s.alive && s.age + 1 > LASER_LIFETIME
}

/// The indices, in increasing order, of the slots of `slots` that drop out of
/// flight on the next tick.
pub open spec fn expired_indices(slots: Seq<LaserSlot>) -> Seq<usize> {
    Seq::new(slots.len() as nat, |i: int| i as usize).filter(
        |i: usize| expires_on_tick(slots[i as int]),
    )
}

/// The expired indices are exactly the slots that were in flight and drop
/// out on this tick.
pub proof fn lemma_expired_members(slots: Seq<LaserSlot>, expired: Seq<usize>)
    requires
        expired == expired_indices(slots),
        slots.len() <= usize::MAX,
    ensures
        forall|k: int| 0 <= k < expired.len() ==> {
            &&& expired[k] < slots.len()
            &&& #[trigger] expires_on_tick(slots[expired[k] as int])
        },
        forall|i: int| 0 <= i < slots.len() && expires_on_tick(slots[i]) ==> #[trigger] expired.contains(i as usize),
{
    let idx = Seq::new(slots.len() as nat, |i: int| i as usize);
    let pred = |i: usize| expires_on_tick(slots[i as int]);
    assert forall|k: int| 0 <= k < expired.len() implies {
        &&& expired[k] < slots.len()
        &&& #[trigger] expires_on_tick(slots[expired[k] as int])
    } by {
        idx.lemma_filter_pred(pred, k);
        assert(expired.contains(expired[k]));
        idx.lemma_filter_contains_rev(pred, expired[k]);
        let j = choose|j: int| 0 <= j < idx.len() && idx[j] == expired[k];
        assert(idx[j] == j as usize);
    }
    assert forall|i: int| 0 <= i < slots.len() && expires_on_tick(slots[i]) implies #[trigger] expired.contains(i as usize) by {
        assert(idx[i] == i as usize);
        assert(pred(idx[i]));
        idx.lemma_filter_contains(pred, i);
    }
}

impl LaserPool {
    pub open spec fn wf(&self) -> bool {
        forall|i: int| 0 <= i < self.slots.len() ==> slot_wf(#[trigger] self.slots@[i])
    }

    /// A pool of `n` idle slots.
    pub fn new(n: usize) -> (pool: LaserPool)
        ensures
            pool.wf(),
            pool.slots@.len() == n,
            forall|i: int| 0 <= i < n ==> #[trigger] pool.slots@[i] == (LaserSlot { alive: false, age: 0 }),
    {
        let mut slots: Vec<LaserSlot> = Vec::new();
        let mut k: usize = 0;
        while k < n
            invariant
                k <= n,
                slots@.len() == k,
                forall|i: int| 0 <= i < k ==> #[trigger] slots@[i] == (LaserSlot { alive: false, age: 0 }),
            decreases n - k,
        {
            slots.push(LaserSlot { alive: false, age: 0 });
            k = k + 1;
        }
        LaserPool { slots }
    }

    /// Ages every slot in flight by one tick and retires those that outlived
    /// the lifetime.  Returns the indices of the slots retired on this tick,
    /// in increasing order.
    pub fn advance(&mut self) -> (expired: Vec<usize>)
        requires
            old(self).wf(),
        ensures
            final(self).wf(),
            final(self).slots@.len() == old(self).slots@.len(),
            old(self).slots@.len() <= usize::MAX,
            forall|i: int| 0 <= i < old(self).slots@.len() ==>
                #[trigger] final(self).slots@[i] == slot_after_tick(old(self).slots@[i]),
            expired@ == expired_indices(old(self).slots@),
    {
        let ghost before = self.slots@;
        let ghost idx = Seq::new(before.len() as nat, |i: int| i as usize);
        let ghost pred = |i: usize| expires_on_tick(before[i as int]);
        let mut expired: Vec<usize> = Vec::new();
        let n = self.slots.len();
        let mut k: usize = 0;
        while k < n
            invariant
                n == before.len(),
                k <= n,
                self.slots@.len() == n,
                idx == Seq::new(before.len() as nat, |i: int| i as usize),
                pred == (|i: usize| expires_on_tick(before[i as int])),
                forall|i: int| 0 <= i < n ==> slot_wf(#[trigger] before[i]),
                forall|i: int| 0 <= i < k ==> #[trigger] self.slots@[i] == slot_after_tick(before[i]),
                forall|i: int| k <= i < n ==> #[trigger] self.slots@[i] == before[i],
                expired@ == idx.take(k as int).filter(pred),
            decreases n - k,
        {
            let s = self.slots[k];
            proof {
                reveal_with_fuel(Seq::<_>::filter, 1);
                assert(idx.take(k as int + 1).drop_last() =~= idx.take(k as int));
            }
            if s.alive {
                let age = s.age + 1;
                let alive = age <= LASER_LIFETIME;
                self.slots.set(k, LaserSlot { alive, age });
                if !alive {
                    expired.push(k);
                }
            }
            k = k + 1;
        }
        proof {
            assert(idx.take(n as int) =~= idx);
            assert(expired@ == expired_indices(before));
        }
        expired
    }

    /// Takes slot `i` out of flight, as a hit does; its age is kept.
    pub fn retire(&mut self, i: usize)
        requires
            old(self).wf(),
            i < old(self).slots@.len(),
        ensures
            final(self).wf(),
            final(self).slots@ == old(self).slots@.update(
                i as int,
                LaserSlot { alive: false, age: old(self).slots@[i as int].age },
            ),
    {
        let age = self.slots[i].age;
        self.slots.set(i, LaserSlot { alive: false, age });
    }

    /// Whether slot `i` is in flight.
    pub fn is_alive(&self, i: usize) -> (b: bool)
        requires
            i < self.slots@.len(),
        ensures
            b == self.slots@[i as int].alive,
    {
        self.slots[i].alive
    }
}

/// The slot after `n` ticks.
pub open spec fn slot_after_ticks(s: LaserSlot, n: nat) -> LaserSlot
    decreases n,
{
    if n == 0 {
        s
    } else {
        slot_after_tick(slot_after_ticks(s, (n - 1) as nat))
    }
}

/// A freshly launched laser flies for exactly `LASER_LIFETIME` ticks: it is
/// still in flight after `n` ticks when `n <= LASER_LIFETIME`, with age `n`,
/// and has dropped out once `n` exceeds the lifetime.
pub proof fn law_laser_flies_for_lifetime(n: nat)
    ensures
        slot_after_ticks(LaserSlot { alive: true, age: 0 }, n).alive <==> n <= LASER_LIFETIME,
        n <= LASER_LIFETIME ==> slot_after_ticks(LaserSlot { alive: true, age: 0 }, n).age == n,
        n > LASER_LIFETIME ==> slot_after_ticks(LaserSlot { alive: true, age: 0 }, n).age == LASER_LIFETIME + 1,
    decreases n,
{
    if n > 0 {
        law_laser_flies_for_lifetime((n - 1) as nat);
    }
}

/// An idle slot stays idle, and keeps its age, however many ticks pass.
pub proof fn law_idle_slot_stays_idle(s: LaserSlot, n: nat)
    requires
        !s.alive,
    ensures
        slot_after_ticks(s, n) == s,
    decreases n,
{
    if n > 0 {
        law_idle_slot_stays_idle(s, (n - 1) as nat);
    }
}

} // verus!
