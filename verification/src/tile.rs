//! A single grid cell: its terrain kind, display glyph, optional occupant and
//! optional pickup.

use vstd::prelude::*;
use crate::powerup::PowerupType;

verus! {

/// The terrain kind of a tile.
#[derive(Clone, Copy, Debug, PartialEq, Eq, Structural)]
pub enum TileType {
    WalkableGeneric,
    Wall,
}

/// The display glyph that belongs to a terrain kind.
pub open spec fn spec_glyph(t: TileType) -> char {
    match t {
        TileType::WalkableGeneric => '.',
        TileType::Wall => '\u{2588}',
    }
}

/// One grid cell. The map owns all tiles; a tile whose kind is `Wall` holds
/// neither an occupant nor a pickup.
#[derive(Clone, Copy, Debug, PartialEq, Eq, Structural)]
pub struct Tile {
    pub tile_type: TileType,
    pub symbol: char,
    pub entity_id: Option<u32>,
    pub powerup: PowerupType,
}

impl Tile {
    /// A solid tile may not carry dynamic content, and the glyph is derived
    /// from the kind. Every tile stored in a map satisfies this.
    pub open spec fn wf(self) -> bool {
        &&& self.tile_type is Wall ==> self.entity_id is None && self.powerup is NoPowerup
        &&& self.symbol == spec_glyph(self.tile_type)
    }

    /// The default walkable tile every map cell starts as.
    pub open spec fn spec_walkable() -> Tile {
        Tile {
            tile_type: TileType::WalkableGeneric,
            symbol: '.',
            entity_id: None,
            powerup: PowerupType::NoPowerup,
        }
    }

    /// The bare wall tile that `set_type` produces.
    pub open spec fn spec_wall() -> Tile {
        Tile {
            tile_type: TileType::Wall,
            symbol: '\u{2588}',
            entity_id: None,
            powerup: PowerupType::NoPowerup,
        }
    }

    /// Creates a tile of the given kind and glyph, with no occupant and no
    /// pickup.
    pub fn new(tile_type: TileType, symbol: char) -> (r: Tile)
        ensures
            r == (Tile { tile_type, symbol, entity_id: None, powerup: PowerupType::NoPowerup }),
    {
        Tile { tile_type, symbol, entity_id: None, powerup: PowerupType::NoPowerup }
    }

    /// A fresh walkable tile.
    pub fn new_walkable() -> (r: Tile)
        ensures
            r == Tile::spec_walkable(),
    {
        Tile::new(TileType::WalkableGeneric, '.')
    }

    /// A fresh wall tile.
    pub fn new_wall() -> (r: Tile)
        ensures
            r == Tile::spec_wall(),
    {
        Tile::new(TileType::Wall, '\u{2588}')
    }

    /// The terrain kind of the tile.
    pub fn tile_type(&self) -> (r: TileType)
        ensures
            r == self.tile_type,
    {
        self.tile_type
    }

    /// The glyph used to draw the tile.
    pub fn symbol(&self) -> (r: char)
        ensures
            r == self.symbol,
    {
        self.symbol
    }

    /// The identity of the actor standing on the tile, if any.
    pub fn entity_id(&self) -> (r: Option<u32>)
        ensures
            r == self.entity_id,
    {
        self.entity_id
    }

    /// Whether an actor may move across this tile.
    pub fn is_walkable(&self) -> (r: bool)
        ensures
            r == (self.tile_type is WalkableGeneric),
    {
        matches!(self.tile_type, TileType::WalkableGeneric)
    }

    /// Whether the tile is physically solid.
    pub fn is_solid(&self) -> (r: bool)
        ensures
            r == (self.tile_type is Wall),
    {
        matches!(self.tile_type, TileType::Wall)
    }

    /// Whether an actor currently stands on the tile.
    pub fn is_entity_occupied(&self) -> (r: bool)
        ensures
            r == (self.entity_id is Some),
    {
        self.entity_id.is_some()
    }

    /// Whether the tile is standable: walkable and unoccupied.
    pub open spec fn spec_standable(self) -> bool {
        self.tile_type is WalkableGeneric && self.entity_id is None
    }

    /// Whether an actor may be placed here: walkable and unoccupied.
    pub fn is_standable(&self) -> (r: bool)
        ensures
            r == self.spec_standable(),
    {
        self.is_walkable() && !self.is_entity_occupied()
    }

    /// Whether the tile carries a pickup.
    pub fn has_powerup(&self) -> (r: bool)
        ensures
            r == (self.powerup !is NoPowerup),
    {
        self.powerup.is_some()
    }

    /// Records which actor stands on the tile.
    pub fn set_entity_id(&mut self, id: Option<u32>)
        ensures
            *final(self) == (Tile { entity_id: id, ..*old(self) }),
    {
        self.entity_id = id;
    }

    /// Places (or clears) a pickup on the tile.
    pub fn set_powerup(&mut self, powerup: PowerupType)
        ensures
            *final(self) == (Tile { powerup, ..*old(self) }),
    {
        self.powerup = powerup;
    }

    /// Changes the terrain kind, refreshing the glyph and clearing the
    /// dynamic content when the tile becomes solid. This is the only
    /// sanctioned way to change the kind.
    pub fn set_type(&mut self, new_type: TileType)
        ensures
            new_type is Wall ==> *final(self) == Tile::spec_wall(),
            new_type is WalkableGeneric ==> *final(self) == (Tile {
                tile_type: new_type,
                symbol: '.',
                ..*old(self)
            }),
    {
        self.tile_type = new_type;
        self.symbol = match new_type {
            TileType::WalkableGeneric => '.',
            TileType::Wall => '\u{2588}',
        };
        if self.is_solid() {
            self.entity_id = None;
            self.powerup = PowerupType::NoPowerup;
        }
    }

    /// Removes the pickup from the tile and returns it.
    pub fn take_powerup(&mut self) -> (r: PowerupType)
        ensures
            r == old(self).powerup,
            *final(self) == (Tile { powerup: PowerupType::NoPowerup, ..*old(self) }),
    {
        self.powerup.take()
    }
}

} // verus!
