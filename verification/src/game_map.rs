//! A fixed-size rectangular grid of tiles, stored densely in row-major
//! order.

use vstd::prelude::*;
use crate::position::MapPosition;
use crate::tile::{Tile, TileType};

verus! {

/// The mathematical model of a map: its dimensions and the row-major tile
/// sequence.
pub ghost struct GameMapV {
    pub width: int,
    pub height: int,
    pub tiles: Seq<Tile>,
}

impl GameMapV {
    /// Whether the coordinates fall inside the grid.
    pub open spec fn in_bounds(self, x: int, y: int) -> bool {
        0 <= x < self.width && 0 <= y < self.height
    }

    /// Whether the position falls inside the grid.
    pub open spec fn in_bounds_pos(self, pos: MapPosition) -> bool {
        self.in_bounds(pos.x as int, pos.y as int)
    }

    /// The row-major index of the coordinates.
    pub open spec fn index_of(self, x: int, y: int) -> int {
        y * self.width + x
    }

    /// The tile at the position (meaningful only in bounds).
    pub open spec fn tile_at(self, pos: MapPosition) -> Tile {
        self.tiles[self.index_of(pos.x as int, pos.y as int)]
    }

    /// Whether the tile at the position exists and may be walked across.
    pub open spec fn walkable_at(self, pos: MapPosition) -> bool {
        self.in_bounds_pos(pos) && self.tile_at(pos).tile_type is WalkableGeneric
    }

    /// Whether the tile at the position exists and an actor may be placed on
    /// it: walkable and unoccupied.
    pub open spec fn standable_at(self, pos: MapPosition) -> bool {
        self.in_bounds_pos(pos) && self.tile_at(pos).spec_standable()
    }

    /// The same map with the tile at the position replaced.
    pub open spec fn with_tile(self, pos: MapPosition, t: Tile) -> GameMapV {
        GameMapV {
            tiles: self.tiles.update(self.index_of(pos.x as int, pos.y as int), t),
            ..self
        }
    }

    /// Positive dimensions that fit the index arithmetic, a dense tile
    /// sequence of matching length, and every tile well-formed.
    pub open spec fn wf(self) -> bool {
        &&& 0 < self.width
        &&& 0 < self.height
        &&& self.width * self.height <= i32::MAX
        &&& self.tiles.len() == self.width * self.height
        &&& forall|i: int| 0 <= i < self.tiles.len() ==> (#[trigger] self.tiles[i]).wf()
    }
}

/// Inside a `w` by `h` grid the row-major index stays within the tile
/// sequence.
pub proof fn lemma_index_in_range(w: int, h: int, x: int, y: int)
    by (nonlinear_arith)
    requires
        0 <= x < w,
        0 <= y < h,
    ensures
        0 <= y * w + x < w * h,
{
}

/// Distinct in-bounds coordinates have distinct row-major indexes.
pub proof fn lemma_index_injective(w: int, h: int, x1: int, y1: int, x2: int, y2: int)
    by (nonlinear_arith)
    requires
        0 <= x1 < w,
        0 <= y1 < h,
        0 <= x2 < w,
        0 <= y2 < h,
    ensures
        y1 * w + x1 == y2 * w + x2 ==> x1 == x2 && y1 == y2,
{
}

/// A rectangular grid of tiles. The map owns all tile storage; coordinates
/// outside the grid resolve to "no tile" rather than an error.
#[derive(Debug, Clone, PartialEq, Eq)]
pub struct GameMap {
    pub width: i32,
    pub height: i32,
    pub tiles: Vec<Tile>,
}

impl View for GameMap {
    type V = GameMapV;

    open spec fn view(&self) -> GameMapV {
        GameMapV { width: self.width as int, height: self.height as int, tiles: self.tiles@ }
    }
}

impl GameMap {
    /// Creates a map of the given dimensions with every tile walkable,
    /// unoccupied and without a pickup.
    pub fn new(width: i32, height: i32) -> (r: GameMap)
        requires
            0 < width,
            0 < height,
            width * height <= i32::MAX,
        ensures
            r@.wf(),
            r@.width == width,
            r@.height == height,
            forall|i: int| 0 <= i < r@.tiles.len() ==> r@.tiles[i] == Tile::spec_walkable(),
    {
        proof {
            lemma_index_in_range(width as int, height as int, 0, 0);
        }
        let size = (width * height) as usize;
        let mut tiles: Vec<Tile> = Vec::new();
        let mut i: usize = 0;
        while i < size
            invariant
                i <= size,
                tiles@.len() == i,
                forall|j: int| 0 <= j < i ==> tiles@[j] == Tile::spec_walkable(),
            decreases size - i,
        {
            tiles.push(Tile::new_walkable());
            i = i + 1;
        }
        GameMap { width, height, tiles }
    }

    /// The width of the map.
    pub fn width(&self) -> (r: i32)
        ensures
            r == self@.width,
    {
        self.width
    }

    /// The height of the map.
    pub fn height(&self) -> (r: i32)
        ensures
            r == self@.height,
    {
        self.height
    }

    /// The row-major index of the coordinates, when they are in bounds.
    pub fn get_index_i32(&self, x: i32, y: i32) -> (r: Option<usize>)
        requires
            self@.wf(),
        ensures
            r is Some <==> self@.in_bounds(x as int, y as int),
            r matches Some(i) ==> i == self@.index_of(x as int, y as int)
                && i < self@.tiles.len(),
    {
        if x >= 0 && x < self.width && y >= 0 && y < self.height {
            proof {
                lemma_index_in_range(self@.width, self@.height, x as int, y as int);
            }
            Some((y * self.width + x) as usize)
        } else {
            None
        }
    }

    /// The tile at the coordinates, if they are in bounds.
    pub fn get_tile_i32(&self, x: i32, y: i32) -> (r: Option<&Tile>)
        requires
            self@.wf(),
        ensures
            r is Some <==> self@.in_bounds(x as int, y as int),
            r matches Some(t) ==> *t == self@.tiles[self@.index_of(x as int, y as int)],
    {
        match self.get_index_i32(x, y) {
            Some(index) => Some(&self.tiles[index]),
            None => None,
        }
    }

    /// The tile at the position, if it is in bounds.
    pub fn get_tile(&self, pos: &MapPosition) -> (r: Option<&Tile>)
        requires
            self@.wf(),
        ensures
            r is Some <==> self@.in_bounds_pos(*pos),
            r matches Some(t) ==> *t == self@.tile_at(*pos),
    {
        self.get_tile_i32(pos.x(), pos.y())
    }

    /// Whether the tile at the position exists and may be walked across.
    pub fn is_walkable(&self, pos: &MapPosition) -> (r: bool)
        requires
            self@.wf(),
        ensures
            r == self@.walkable_at(*pos),
    {
        if let Some(tile) = self.get_tile(pos) {
            tile.is_walkable()
        } else {
            false
        }
    }

    /// Whether an actor may be placed at the position: in bounds, walkable
    /// and unoccupied.
    pub fn is_standable(&self, pos: &MapPosition) -> (r: bool)
        requires
            self@.wf(),
        ensures
            r == self@.standable_at(*pos),
    {
        if let Some(tile) = self.get_tile(pos) {
            tile.is_standable()
        } else {
            false
        }
    }

    /// A mutable borrow of the tile at the coordinates, if they are in
    /// bounds. The map afterwards holds whatever the caller leaves behind
    /// the borrow.
    pub fn get_tile_mut_i32(&mut self, x: i32, y: i32) -> (r: Option<&mut Tile>)
        requires
            old(self)@.wf(),
        ensures
            r is Some <==> old(self)@.in_bounds(x as int, y as int),
            r matches Some(t) ==> *t == old(self)@.tiles[old(self)@.index_of(x as int, y as int)]
                && final(self)@ == old(self)@.with_tile(MapPosition { x, y }, *final(t)),
            r is None ==> *final(self) == *old(self),
    {
        match self.get_index_i32(x, y) {
            Some(index) => Some(&mut self.tiles[index]),
            None => None,
        }
    }

    /// A mutable borrow of the tile at the position, if it is in bounds.
    pub fn get_tile_mut(&mut self, pos: &MapPosition) -> (r: Option<&mut Tile>)
        requires
            old(self)@.wf(),
        ensures
            r is Some <==> old(self)@.in_bounds_pos(*pos),
            r matches Some(t) ==> *t == old(self)@.tile_at(*pos) && final(self)@ == old(
                self,
            )@.with_tile(*pos, *final(t)),
            r is None ==> *final(self) == *old(self),
    {
        self.get_tile_mut_i32(pos.x, pos.y)
    }

    /// Replaces the tile at an in-bounds position.
    pub(crate) fn set_tile(&mut self, pos: &MapPosition, t: Tile)
        requires
            old(self)@.wf(),
            old(self)@.in_bounds_pos(*pos),
        ensures
            final(self)@ == old(self)@.with_tile(*pos, t),
    {
        let index = self.get_index_i32(pos.x(), pos.y()).unwrap();
        self.tiles[index] = t;
    }

    /// Converts the tile at the position into a bare wall, clearing its
    /// occupant and pickup, when the position is in bounds and currently
    /// walkable. Returns whether the wall was built; on failure the map is
    /// unchanged.
    pub fn build_wall(&mut self, pos: &MapPosition) -> (r: bool)
        requires
            old(self)@.wf(),
        ensures
            r == old(self)@.walkable_at(*pos),
            r ==> final(self)@ == old(self)@.with_tile(*pos, Tile::spec_wall()),
            !r ==> *final(self) == *old(self),
            final(self)@.wf(),
    {
        let walkable = self.is_walkable(pos);
        if walkable {
            self.set_tile(pos, Tile::new_wall());
            proof {
                let idx = old(self)@.index_of(pos.x as int, pos.y as int);
                lemma_index_in_range(old(self)@.width, old(self)@.height, pos.x as int, pos.y as int);
                assert forall|i: int| 0 <= i < self@.tiles.len() implies
                    (#[trigger] self@.tiles[i]).wf() by {
                    if i == idx {
                        assert(self@.tiles[i] == Tile::spec_wall());
                    } else {
                        assert(self@.tiles[i] == old(self)@.tiles[i]);
                        assert(old(self)@.tiles[i].wf());
                    }
                }
            }
            true
        } else {
            false
        }
    }
}

} // verus!
