use vstd::prelude::*;

verus! {

/// Number of slots in the player's laser pool.
pub const LASER_POOL_SIZE: usize = 30;

/// Number of slots in the enemies' shared laser pool.
pub const ENEMY_LASER_POOL_SIZE: usize = 20;

/// Ticks a laser stays in flight; it expires on the tick its age exceeds this.
pub const LASER_LIFETIME: u32 = 90;

/// Ticks between two shots of the player.
pub const FIRE_COOLDOWN: u32 = 6;

/// Ticks an enemy waits after firing before it may fire again.
pub const ENEMY_FIRE_COOLDOWN: u32 = 40;

/// Ticks the shield must go unhit before it starts to regenerate.
pub const SHIELD_REGEN_DELAY: u32 = 180;

/// Number of enemy ships in a fresh game.
pub const ENEMY_COUNT: usize = 5;

/// Number of debris pieces in a fresh game.
pub const DEBRIS_COUNT: usize = 40;

/// Hull points of a fresh enemy ship (whole points).
pub const ENEMY_HULL: i32 = 40;

/// Hull points one player laser takes off an enemy ship.
pub const LASER_DAMAGE: i32 = 12;

/// Points for destroying an enemy ship.
pub const ENEMY_KILL_SCORE: u64 = 100;

/// Points for shooting down a piece of debris.
pub const DEBRIS_SCORE: u64 = 10;

/// The way a piece of debris reacts to collisions.
#[derive(Clone, Copy, Debug, PartialEq, Eq, Structural)]
pub enum DebrisKind {
    Bouncy,
    Heavy,
    Slippery,
}

/// Debris pieces cycle through the kinds by number: bouncy, heavy, slippery.
pub open spec fn debris_kind_of(i: nat) -> DebrisKind {
    if i % 3 == 1 {
        DebrisKind::Heavy
    } else if i % 3 == 2 {
        DebrisKind::Slippery
    } else {
        DebrisKind::Bouncy
    }
}

/// The kind of debris piece number `i`.
pub fn debris_kind(i: usize) -> (kind: DebrisKind)
    ensures
        kind == debris_kind_of(i as nat),
{
    match i % 3 {
        1 => DebrisKind::Heavy,
        2 => DebrisKind::Slippery,
        _ => DebrisKind::Bouncy,
    }
}

} // verus!
