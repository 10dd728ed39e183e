use vstd::prelude::*;

verus! {

/// The particle bursts the game spawns.
#[derive(Clone, Copy, Debug, PartialEq, Eq, Structural)]
pub enum BurstKind {
    Explosion,
    DamageBurst,
    Sparks,
    AsteroidDebris,
}

/// A burst of `particles` particles of one kind.
#[derive(Clone, Copy, Debug, PartialEq, Eq, Structural)]
pub struct Burst {
    pub kind: BurstKind,
    pub particles: u32,
}

/// Every burst is drawn on this layer, above the ships.
pub const BURST_LAYER: u32 = 6;

/// A player laser strikes a ship: a large explosion when the strike destroys
/// it, otherwise a damage burst and sparks.
pub open spec fn ship_strike_bursts_of(destroyed: bool) -> Seq<Burst> {
    if destroyed {
        seq![Burst { kind: BurstKind::Explosion, particles: 40 }]
    } else {
        seq![Burst { kind: BurstKind::DamageBurst, particles: 15 }, Burst { kind: BurstKind::Sparks, particles: 8 }]
    }
}

/// Bursts where a player laser strikes a ship.
pub fn ship_strike_bursts(destroyed: bool) -> (b: Vec<Burst>)
    ensures
        b@ == ship_strike_bursts_of(destroyed),
{
    let b = if destroyed {
        vec![Burst { kind: BurstKind::Explosion, particles: 40 }]
    } else {
        vec![Burst { kind: BurstKind::DamageBurst, particles: 15 }, Burst { kind: BurstKind::Sparks, particles: 8 }]
    };
    assert(b@ =~= ship_strike_bursts_of(destroyed));
    b
}

/// Bursts where a player laser shoots down a piece of debris.
pub fn debris_shot_bursts() -> (b: Vec<Burst>)
    ensures
        b@ == seq![
            Burst { kind: BurstKind::AsteroidDebris, particles: 12 },
            Burst { kind: BurstKind::DamageBurst, particles: 15 },
        ],
{
    let b = vec![
        Burst { kind: BurstKind::AsteroidDebris, particles: 12 },
        Burst { kind: BurstKind::DamageBurst, particles: 15 },
    ];
    assert(b@ =~= seq![
        Burst { kind: BurstKind::AsteroidDebris, particles: 12 },
        Burst { kind: BurstKind::DamageBurst, particles: 15 },
    ]);
    b
}

/// Bursts on the player's ship when an enemy laser strikes it.
pub fn player_hit_bursts() -> (b: Vec<Burst>)
    ensures
        b@ == seq![Burst { kind: BurstKind::DamageBurst, particles: 15 }, Burst { kind: BurstKind::Sparks, particles: 8 }],
{
    let b = vec![Burst { kind: BurstKind::DamageBurst, particles: 15 }, Burst { kind: BurstKind::Sparks, particles: 8 }];
    assert(b@ =~= seq![Burst { kind: BurstKind::DamageBurst, particles: 15 }, Burst { kind: BurstKind::Sparks, particles: 8 }]);
    b
}

/// Bursts on the player's ship when debris rams it.
pub fn debris_collision_bursts() -> (b: Vec<Burst>)
    ensures
        b@ == seq![Burst { kind: BurstKind::Sparks, particles: 6 }],
{
    let b = vec![Burst { kind: BurstKind::Sparks, particles: 6 }];
    assert(b@ =~= seq![Burst { kind: BurstKind::Sparks, particles: 6 }]);
    b
}

/// Bursts where the player's ship is destroyed.
pub fn player_destroyed_bursts() -> (b: Vec<Burst>)
    ensures
        b@ == seq![Burst { kind: BurstKind::Explosion, particles: 40 }],
{
    let b = vec![Burst { kind: BurstKind::Explosion, particles: 40 }];
    assert(b@ =~= seq![Burst { kind: BurstKind::Explosion, particles: 40 }]);
    b
}

} // verus!
