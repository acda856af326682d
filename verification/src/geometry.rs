//! Integer world geometry: positions, directions and axis-aligned regions.

use vstd::prelude::*;

verus! {

/// Largest magnitude a world coordinate may have.  Keeping every coordinate
/// inside this range lets the movement arithmetic stay within `i64`.
pub const COORD_LIMIT: i64 = 1_000_000_000;

/// Largest magnitude a per-tick velocity component may have.
pub const SPEED_LIMIT: i64 = 1_000_000;

/// A point in integer world units.
#[derive(Clone, Copy, PartialEq, Eq, Structural, Debug)]
pub struct Position {
    pub x: i64,
    pub y: i64,
    pub z: i64,
}

impl Position {
    /// Every coordinate within the world's coordinate range.
    pub open spec fn in_bounds(self) -> bool {
        &&& -COORD_LIMIT <= self.x <= COORD_LIMIT
        &&& -COORD_LIMIT <= self.y <= COORD_LIMIT
        &&& -COORD_LIMIT <= self.z <= COORD_LIMIT
    }

    pub fn new(x: i64, y: i64, z: i64) -> (p: Position)
        ensures
            p == (Position { x, y, z }),
    {
        Position { x, y, z }
    }
}

/// A directional movement intent, as carried by a movement message.
#[derive(Clone, Copy, PartialEq, Eq, Structural, Debug)]
pub enum Direction {
    Left,
    Up,
    Right,
    Down,
}

/// An axis-aligned rectangle, `x1 <= x <= x2`, `y1 <= y <= y2`.
#[derive(Clone, Copy, PartialEq, Eq, Structural, Debug)]
pub struct Rect {
    pub x1: i64,
    pub x2: i64,
    pub y1: i64,
    pub y2: i64,
}

impl Rect {
    /// The rectangle's corners are ordered and within the coordinate range.
    pub open spec fn wf(self) -> bool {
        &&& -COORD_LIMIT <= self.x1 <= self.x2 <= COORD_LIMIT
        &&& -COORD_LIMIT <= self.y1 <= self.y2 <= COORD_LIMIT
    }

    pub open spec fn spec_contains(self, x: int, y: int) -> bool {
        self.x1 <= x <= self.x2 && self.y1 <= y <= self.y2
    }

    /// Whether the point `(x, y)` lies inside the rectangle, borders included.
    pub fn contains(&self, x: i64, y: i64) -> (r: bool)
        ensures
            r == self.spec_contains(x as int, y as int),
    {
        self.x1 <= x && x <= self.x2 && self.y1 <= y && y <= self.y2
    }
}

} // verus!
