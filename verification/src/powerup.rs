//! Pickup kinds that can sit on a tile and be consumed by an actor.

use vstd::prelude::*;

verus! {

/// A one-time consumable effect attached to a tile. `NoPowerup` stands for
/// the absence of a pickup.
#[derive(Clone, Copy, Debug, PartialEq, Eq, Structural)]
pub enum PowerupType {
    NoPowerup,
    HealingPotion,
    SpeedBoost,
    WallBreaker,
}

impl PowerupType {
    /// The numeric identifier of this pickup kind.
    pub open spec fn spec_id(self) -> u8 {
        match self {
            PowerupType::NoPowerup => 0,
            PowerupType::HealingPotion => 1,
            PowerupType::SpeedBoost => 2,
            PowerupType::WallBreaker => 3,
        }
    }

    /// Numeric identifier of the pickup kind, as stored by the snapshot codec.
    pub fn to_id(&self) -> (r: u8)
        ensures
            r == self.spec_id(),
    {
        match self {
            PowerupType::NoPowerup => 0,
            PowerupType::HealingPotion => 1,
            PowerupType::SpeedBoost => 2,
            PowerupType::WallBreaker => 3,
        }
    }

    /// Whether a pickup is actually present.
    pub fn is_some(&self) -> (r: bool)
        ensures
            r == (self !is NoPowerup),
    {
        match self {
            PowerupType::NoPowerup => false,
            _ => true,
        }
    }

    /// Removes the pickup, leaving `NoPowerup` behind, and returns what was
    /// there.
    pub fn take(&mut self) -> (r: PowerupType)
        ensures
            r == *old(self),
            *final(self) is NoPowerup,
    {
        let p = *self;
        *self = PowerupType::NoPowerup;
        p
    }
}

} // verus!
