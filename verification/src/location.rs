//! Locations on the hex map and the six hex directions.

use vstd::prelude::*;

verus! {

/// Greatest coordinate magnitude the world uses; keeps offset arithmetic in range.
pub const MAP_BOUND: i32 = 0x40_0000;

/// Width of one overland sector; doubles as the overland sight radius.
pub const SECTOR_WIDTH: i32 = 40;

/// A cell of the hex map: axial x/y coordinates plus a z-level
/// (zero is the overland surface, anything else is a dungeon level).
#[derive(Clone, Copy, PartialEq, Eq, Structural, Hash, Debug, PartialOrd, Ord)]
pub struct Location {
    pub x: i32,
    pub y: i32,
    pub z: i32,
}

pub open spec fn iabs(a: int) -> int {
    if a < 0 { -a } else { a }
}

pub open spec fn imax(a: int, b: int) -> int {
    if a < b { b } else { a }
}

/// Hex distance between two cells expressed as a coordinate difference.
/// With the axial layout used here, steps where x and y move together
/// are single moves, opposed steps cost one per axis.
pub open spec fn hexd(dx: int, dy: int) -> int {
    if (dx >= 0 && dy >= 0) || (dx <= 0 && dy <= 0) {
        imax(iabs(dx), iabs(dy))
    } else {
        iabs(dx) + iabs(dy)
    }
}

impl Location {
    /// Coordinates stay well inside `i32`, so every offset the engine
    /// takes (sight radii, ability ranges) is free of overflow.
    pub open spec fn in_bounds(self) -> bool {
        -MAP_BOUND <= self.x && self.x <= MAP_BOUND && -MAP_BOUND <= self.y && self.y
            <= MAP_BOUND
    }

    /// The cell moved by a coordinate delta on the same z-level.
    pub open spec fn shifted(self, dx: int, dy: int) -> Location {
        Location { x: (self.x + dx) as i32, y: (self.y + dy) as i32, z: self.z }
    }

    /// Loose bound under which coordinate differences cannot overflow.
    pub open spec fn arith_ok(self) -> bool {
        -0x1800_0000 <= self.x && self.x <= 0x1800_0000 && -0x1800_0000 <= self.y && self.y
            <= 0x1800_0000
    }

    /// Hex distance to another cell on the same z-level.
    pub open spec fn dist(self, other: Location) -> int {
        hexd(other.x - self.x, other.y - self.y)
    }

    pub fn new(x: i32, y: i32, z: i32) -> (r: Location)
        ensures
            r == (Location { x, y, z }),
    {
        Location { x, y, z }
    }

    /// Dungeon levels have corridor-limited sight, the surface does not.
    pub fn is_underground(self) -> (r: bool)
        ensures
            r == (self.z != 0),
    {
        self.z != 0
    }

    pub fn offset(self, dx: i32, dy: i32) -> (r: Location)
        requires
            self.in_bounds(),
            iabs(dx as int) <= 0x10000,
            iabs(dy as int) <= 0x10000,
        ensures
            r == self.shifted(dx as int, dy as int),
            r.x == self.x + dx && r.y == self.y + dy && r.z == self.z,
    {
        Location { x: self.x + dx, y: self.y + dy, z: self.z }
    }

    /// Hex distance between two cells.
    pub fn distance(self, other: Location) -> (r: i32)
        requires
            self.arith_ok(),
            other.arith_ok(),
        ensures
            r == self.dist(other),
            r >= 0,
    {
        let dx = other.x - self.x;
        let dy = other.y - self.y;
        if (dx >= 0 && dy >= 0) || (dx <= 0 && dy <= 0) {
            let ax = if dx < 0 {
                -dx
            } else {
                dx
            };
            let ay = if dy < 0 {
                -dy
            } else {
                dy
            };
            if ax < ay {
                ay
            } else {
                ax
            }
        } else {
            let ax = if dx < 0 {
                -dx
            } else {
                dx
            };
            let ay = if dy < 0 {
                -dy
            } else {
                dy
            };
            ax + ay
        }
    }
}

/// The six hex directions, clockwise from north.
#[derive(Clone, Copy, PartialEq, Eq, Structural, Hash, Debug)]
pub enum Dir6 {
    North,
    NorthEast,
    SouthEast,
    South,
    SouthWest,
    NorthWest,
}

impl Dir6 {
    /// Coordinate delta of one step in this direction.
    pub open spec fn delta_s(self) -> (int, int) {
        match self {
            Dir6::North => (-1int, -1int),
            Dir6::NorthEast => (0int, -1int),
            Dir6::SouthEast => (1int, 0int),
            Dir6::South => (1int, 1int),
            Dir6::SouthWest => (0int, 1int),
            Dir6::NorthWest => (-1int, 0int),
        }
    }

    pub fn delta(self) -> (r: (i32, i32))
        ensures
            r.0 == self.delta_s().0,
            r.1 == self.delta_s().1,
    {
        match self {
            Dir6::North => (-1, -1),
            Dir6::NorthEast => (0, -1),
            Dir6::SouthEast => (1, 0),
            Dir6::South => (1, 1),
            Dir6::SouthWest => (0, 1),
            Dir6::NorthWest => (-1, 0),
        }
    }

    /// All six directions, clockwise from north.
    pub fn all() -> (r: Vec<Dir6>)
        ensures
            r@ =~= seq![
                Dir6::North,
                Dir6::NorthEast,
                Dir6::SouthEast,
                Dir6::South,
                Dir6::SouthWest,
                Dir6::NorthWest,
            ],
    {
        let mut v: Vec<Dir6> = Vec::new();
        v.push(Dir6::North);
        v.push(Dir6::NorthEast);
        v.push(Dir6::SouthEast);
        v.push(Dir6::South);
        v.push(Dir6::SouthWest);
        v.push(Dir6::NorthWest);
        v
    }
}

} // verus!

use crate::assoc::KeyEq;

verus! {

impl KeyEq for Location {
    fn keq(&self, other: &Self) -> (r: bool)
        ensures
            r == (*self == *other),
    {
        self.x == other.x && self.y == other.y && self.z == other.z
    }
}

} // verus!
