//! An integer grid coordinate.

use vstd::prelude::*;

verus! {

/// A position on the map grid. Coordinates may be negative; the map resolves
/// out-of-range coordinates to "no tile".
#[derive(Clone, Copy, Debug, PartialEq, Eq, Structural)]
pub struct MapPosition {
    pub x: i32,
    pub y: i32,
}

impl MapPosition {
    /// Creates a position from its coordinates.
    pub fn new(x: i32, y: i32) -> (r: MapPosition)
        ensures
            r == (MapPosition { x, y }),
    {
        MapPosition { x, y }
    }

    /// The horizontal coordinate.
    pub fn x(&self) -> (r: i32)
        ensures
            r == self.x,
    {
        self.x
    }

    /// The vertical coordinate.
    pub fn y(&self) -> (r: i32)
        ensures
            r == self.y,
    {
        self.y
    }

    /// The position `distance` cells above this one.
    pub fn up(&self, distance: u32) -> (r: MapPosition)
        requires
            distance <= i32::MAX,
            i32::MIN <= self.y - distance,
        ensures
            r == (MapPosition { x: self.x, y: (self.y - distance) as i32 }),
    {
        MapPosition { x: self.x, y: self.y - distance as i32 }
    }

    /// The position `distance` cells below this one.
    pub fn down(&self, distance: u32) -> (r: MapPosition)
        requires
            distance <= i32::MAX,
            self.y + distance <= i32::MAX,
        ensures
            r == (MapPosition { x: self.x, y: (self.y + distance) as i32 }),
    {
        MapPosition { x: self.x, y: self.y + distance as i32 }
    }

    /// The position `distance` cells to the left of this one.
    pub fn left(&self, distance: u32) -> (r: MapPosition)
        requires
            distance <= i32::MAX,
            i32::MIN <= self.x - distance,
        ensures
            r == (MapPosition { x: (self.x - distance) as i32, y: self.y }),
    {
        MapPosition { x: self.x - distance as i32, y: self.y }
    }

    /// The position `distance` cells to the right of this one.
    pub fn right(&self, distance: u32) -> (r: MapPosition)
        requires
            distance <= i32::MAX,
            self.x + distance <= i32::MAX,
        ensures
            r == (MapPosition { x: (self.x + distance) as i32, y: self.y }),
    {
        MapPosition { x: self.x + distance as i32, y: self.y }
    }

    /// The coordinates as unsigned screen cells, when both are non-negative
    /// and small enough to fit.
    pub fn as_u16(&self) -> (r: Option<(u16, u16)>)
        ensures
            r is Some <==> 0 <= self.x <= u16::MAX && 0 <= self.y <= u16::MAX,
            r matches Some(p) ==> p.0 == self.x && p.1 == self.y,
    {
        if self.x >= 0 && self.x <= u16::MAX as i32 && self.y >= 0 && self.y <= u16::MAX as i32 {
            Some((self.x as u16, self.y as u16))
        } else {
            None
        }
    }

    /// The walking distance between two positions along the grid axes.
    pub fn manhattan_distance(&self, other: &MapPosition) -> (r: u32)
        requires
            i32::MIN < self.x - other.x <= i32::MAX,
            i32::MIN < self.y - other.y <= i32::MAX,
            abs_of(self.x - other.x) + abs_of(self.y - other.y) <= i32::MAX,
        ensures
            r == abs_of(self.x - other.x) + abs_of(self.y - other.y),
    {
        let dx = if self.x >= other.x {
            self.x - other.x
        } else {
            other.x - self.x
        };
        let dy = if self.y >= other.y {
            self.y - other.y
        } else {
            other.y - self.y
        };
        (dx + dy) as u32
    }

    /// The four orthogonally adjacent positions, in the order up, down,
    /// left, right.
    pub fn neighbors(&self) -> (r: [MapPosition; 4])
        requires
            i32::MIN < self.x,
            self.x < i32::MAX,
            i32::MIN < self.y,
            self.y < i32::MAX,
        ensures
            r@ == seq![
                MapPosition { x: self.x, y: (self.y - 1) as i32 },
                MapPosition { x: self.x, y: (self.y + 1) as i32 },
                MapPosition { x: (self.x - 1) as i32, y: self.y },
                MapPosition { x: (self.x + 1) as i32, y: self.y },
            ],
    {
        let r = [self.up(1), self.down(1), self.left(1), self.right(1)];
        proof {
            assert(r@ =~= seq![
                MapPosition { x: self.x, y: (self.y - 1) as i32 },
                MapPosition { x: self.x, y: (self.y + 1) as i32 },
                MapPosition { x: (self.x - 1) as i32, y: self.y },
                MapPosition { x: (self.x + 1) as i32, y: self.y },
            ]);
        }
        r
    }
}

/// The absolute value of a mathematical integer.
pub open spec fn abs_of(v: int) -> int {
    if v < 0 {
        -v
    } else {
        v
    }
}

} // verus!
