//! An actor record: identity, position, resources, team and status flags.

use vstd::prelude::*;
use crate::position::MapPosition;

verus! {

/// The identity of an actor, unique within a world and never reused.
pub type EntityID = u32;

/// The longest name an actor keeps; longer names are truncated.
pub const NAME_CAP: usize = 32;

/// The mathematical model of an actor: every attribute, with the name as a
/// byte sequence.
pub ghost struct EntityV {
    pub id: EntityID,
    pub symbol: char,
    pub name: Seq<u8>,
    pub max_health: u32,
    pub max_energy: u32,
    pub position: MapPosition,
    pub health: u32,
    pub energy: u32,
    pub team: u32,
    pub stunned_for_turns: u32,
    pub is_selected: bool,
    pub is_ai: bool,
}

impl EntityV {
    /// Resources never exceed their maxima and the name respects the cap.
    pub open spec fn wf(self) -> bool {
        &&& self.health <= self.max_health
        &&& self.energy <= self.max_energy
        &&& self.name.len() <= NAME_CAP
    }

    /// The record a fresh actor starts from: full resources, no stun, no
    /// flags set.
    pub open spec fn spec_new(
        id: EntityID,
        symbol: char,
        name: Seq<u8>,
        position: MapPosition,
        team: u32,
        max_health: u32,
        max_energy: u32,
    ) -> EntityV {
        EntityV {
            id,
            symbol,
            name: if name.len() <= NAME_CAP {
                name
            } else {
                name.take(NAME_CAP as int)
            },
            max_health,
            max_energy,
            position,
            health: max_health,
            energy: max_energy,
            team,
            stunned_for_turns: 0,
            is_selected: false,
            is_ai: false,
        }
    }

    /// One turn boundary seen by a single actor: the stun counter moves
    /// toward zero, and an actor that is no longer stunned has its energy
    /// refilled.
    pub open spec fn spec_advance_turn(self) -> EntityV {
        let stunned: u32 = if self.stunned_for_turns > 0 {
            (self.stunned_for_turns - 1) as u32
        } else {
            0
        };
        EntityV {
            stunned_for_turns: stunned,
            energy: if stunned == 0 {
                self.max_energy
            } else {
                self.energy
            },
            ..self
        }
    }
}

/// An actor. Identity is assigned by the world; the position must always
/// agree with the tile that records the actor as its occupant.
#[derive(Debug, Clone, PartialEq, Eq)]
pub struct Entity {
    pub id: EntityID,
    pub symbol: char,
    pub name: Vec<u8>,
    pub max_health: u32,
    pub max_energy: u32,
    pub position: MapPosition,
    pub health: u32,
    pub energy: u32,
    pub team: u32,
    pub stunned_for_turns: u32,
    pub is_selected: bool,
    pub is_ai: bool,
}

impl View for Entity {
    type V = EntityV;

    open spec fn view(&self) -> EntityV {
        EntityV {
            id: self.id,
            symbol: self.symbol,
            name: self.name@,
            max_health: self.max_health,
            max_energy: self.max_energy,
            position: self.position,
            health: self.health,
            energy: self.energy,
            team: self.team,
            stunned_for_turns: self.stunned_for_turns,
            is_selected: self.is_selected,
            is_ai: self.is_ai,
        }
    }
}

impl Entity {
    /// Creates an actor with full resources, no stun and no flags set. A
    /// name longer than the cap is truncated.
    pub fn new(
        id: EntityID,
        symbol: char,
        name: Vec<u8>,
        position: MapPosition,
        team: u32,
        max_health: u32,
        max_energy: u32,
    ) -> (r: Entity)
        ensures
            r@ == EntityV::spec_new(id, symbol, name@, position, team, max_health, max_energy),
            r@.wf(),
    {
        let mut name = name;
        if name.len() > NAME_CAP {
            name.truncate(NAME_CAP);
        }
        Entity {
            id,
            symbol,
            name,
            max_health,
            max_energy,
            position,
            health: max_health,
            energy: max_energy,
            team,
            stunned_for_turns: 0,
            is_selected: false,
            is_ai: false,
        }
    }

    /// The actor's unique identity.
    pub fn id(&self) -> (r: EntityID)
        ensures
            r == self@.id,
    {
        self.id
    }

    /// The actor's display glyph.
    pub fn symbol(&self) -> (r: char)
        ensures
            r == self@.symbol,
    {
        self.symbol
    }

    /// The actor's immutable health maximum.
    pub fn max_health(&self) -> (r: u32)
        ensures
            r == self@.max_health,
    {
        self.max_health
    }

    /// The actor's immutable energy maximum.
    pub fn max_energy(&self) -> (r: u32)
        ensures
            r == self@.max_energy,
    {
        self.max_energy
    }

    /// The bytes of the actor's display name.
    pub fn name_bytes(&self) -> (r: &Vec<u8>)
        ensures
            r@ == self@.name,
    {
        &self.name
    }

    /// The actor's current grid position.
    pub fn position(&self) -> (r: MapPosition)
        ensures
            r == self@.position,
    {
        self.position
    }

    /// The actor's current health.
    pub fn health(&self) -> (r: u32)
        ensures
            r == self@.health,
    {
        self.health
    }

    /// The actor's current energy.
    pub fn energy(&self) -> (r: u32)
        ensures
            r == self@.energy,
    {
        self.energy
    }

    /// The actor's team.
    pub fn team(&self) -> (r: u32)
        ensures
            r == self@.team,
    {
        self.team
    }

    /// How many turns of stun remain.
    pub fn stunned_turns(&self) -> (r: u32)
        ensures
            r == self@.stunned_for_turns,
    {
        self.stunned_for_turns
    }

    /// Whether the actor is currently selected in the interface.
    pub fn is_selected(&self) -> (r: bool)
        ensures
            r == self@.is_selected,
    {
        self.is_selected
    }

    /// Whether the actor is machine-controlled.
    pub fn is_ai(&self) -> (r: bool)
        ensures
            r == self@.is_ai,
    {
        self.is_ai
    }

    /// Whether the actor may take actions: not stunned.
    pub fn is_active(&self) -> (r: bool)
        ensures
            r == (self@.stunned_for_turns == 0),
    {
        self.stunned_for_turns == 0
    }

    /// Whether the actor is stunned.
    pub fn is_stunned(&self) -> (r: bool)
        ensures
            r == (self@.stunned_for_turns > 0),
    {
        self.stunned_for_turns > 0
    }

    /// Whether the actor's health has reached zero.
    pub fn is_dead(&self) -> (r: bool)
        ensures
            r == (self@.health == 0),
    {
        self.health == 0
    }

    /// Whether the actor can pay an action cost: active and with enough
    /// energy.
    pub fn can_act(&self, cost: u32) -> (r: bool)
        ensures
            r == (self@.stunned_for_turns == 0 && self@.energy >= cost),
    {
        self.is_active() && self.energy >= cost
    }

    /// Moves the actor's recorded position.
    pub fn set_position(&mut self, pos: MapPosition)
        ensures
            final(self)@ == (EntityV { position: pos, ..old(self)@ }),
    {
        self.position = pos;
    }

    /// Changes the actor's team.
    pub fn set_team(&mut self, team: u32)
        ensures
            final(self)@ == (EntityV { team, ..old(self)@ }),
    {
        self.team = team;
    }

    /// Marks or unmarks the actor as selected.
    pub fn set_selected(&mut self, b: bool)
        ensures
            final(self)@ == (EntityV { is_selected: b, ..old(self)@ }),
    {
        self.is_selected = b;
    }

    /// Puts the actor under or releases it from machine control.
    pub fn set_ai(&mut self, b: bool)
        ensures
            final(self)@ == (EntityV { is_ai: b, ..old(self)@ }),
    {
        self.is_ai = b;
    }

    /// Stuns the actor for the given number of turns.
    pub fn set_stunned(&mut self, turns: u32)
        ensures
            final(self)@ == (EntityV { stunned_for_turns: turns, ..old(self)@ }),
    {
        self.stunned_for_turns = turns;
    }

    /// Moves the stun counter one step toward zero, never below it.
    pub fn reduce_stun(&mut self)
        ensures
            final(self)@ == (EntityV {
                stunned_for_turns: if old(self)@.stunned_for_turns > 0 {
                    (old(self)@.stunned_for_turns - 1) as u32
                } else {
                    0
                },
                ..old(self)@
            }),
    {
        if self.stunned_for_turns > 0 {
            self.stunned_for_turns = self.stunned_for_turns - 1;
        }
    }

    /// Pays an action cost out of the actor's energy. Returns whether the
    /// actor could act and pay; otherwise nothing changes.
    pub fn consume_energy(&mut self, cost: u32) -> (r: bool)
        ensures
            r == (old(self)@.stunned_for_turns == 0 && old(self)@.energy >= cost),
            r ==> final(self)@ == (EntityV {
                energy: (old(self)@.energy - cost) as u32,
                ..old(self)@
            }),
            !r ==> *final(self) == *old(self),
    {
        if self.can_act(cost) {
            self.energy = self.energy - cost;
            true
        } else {
            false
        }
    }

    /// Refills energy to its maximum, but only for an actor that is not
    /// stunned.
    pub fn refill_energy(&mut self)
        ensures
            final(self)@ == (EntityV {
                energy: if old(self)@.stunned_for_turns == 0 {
                    old(self)@.max_energy
                } else {
                    old(self)@.energy
                },
                ..old(self)@
            }),
    {
        if self.is_active() {
            self.energy = self.max_energy;
        }
    }

    /// Applies damage, saturating at zero, and reports whether the actor is
    /// now dead.
    pub fn take_damage(&mut self, amount: u32) -> (r: bool)
        ensures
            final(self)@ == (EntityV {
                health: if old(self)@.health >= amount {
                    (old(self)@.health - amount) as u32
                } else {
                    0
                },
                ..old(self)@
            }),
            r == (final(self)@.health == 0),
    {
        if self.health >= amount {
            self.health = self.health - amount;
        } else {
            self.health = 0;
        }
        self.health == 0
    }

    /// Heals the actor, capping health at its maximum. A dead actor is
    /// immune to healing.
    pub fn heal(&mut self, amount: u32)
        requires
            old(self)@.health <= old(self)@.max_health,
        ensures
            final(self)@ == (EntityV { health: spec_healed(old(self)@, amount), ..old(self)@ }),
    {
        if self.is_dead() {
            return ;
        }
        if amount >= self.max_health - self.health {
            self.health = self.max_health;
        } else {
            self.health = self.health + amount;
        }
    }

    /// Heals the actor up to its maximum and returns the amount that did not
    /// fit. A dead actor is immune and the whole amount is returned as zero.
    pub fn overheal(&mut self, amount: u32) -> (r: u32)
        requires
            old(self)@.wf(),
        ensures
            final(self)@ == (EntityV { health: spec_healed(old(self)@, amount), ..old(self)@ }),
            old(self)@.health == 0 ==> r == 0,
            old(self)@.health > 0 ==> r == if old(self)@.health + amount
                > old(self)@.max_health {
                old(self)@.health + amount - old(self)@.max_health
            } else {
                0
            },
    {
        if self.is_dead() {
            return 0;
        }
        if amount >= self.max_health - self.health {
            let excess = amount - (self.max_health - self.health);
            self.health = self.max_health;
            excess
        } else {
            self.health = self.health + amount;
            0
        }
    }
}

/// The health an actor ends with after being healed by `amount`: unchanged
/// when dead, otherwise raised and capped at the maximum.
pub open spec fn spec_healed(e: EntityV, amount: u32) -> u32 {
    if e.health == 0 {
        e.health
    } else if e.health + amount > e.max_health {
        e.max_health
    } else {
        (e.health + amount) as u32
    }
}

} // verus!
