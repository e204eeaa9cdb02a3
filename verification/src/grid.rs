//! Playfield geometry: cells, directions and the bounded, origin-centred grid.

use vstd::prelude::*;

verus! {

/// A discrete position on the grid. A plain value without identity.
#[derive(Clone, Copy, Debug, PartialEq, Eq, Structural)]
pub struct Cell {
    pub x: i32,
    pub y: i32,
}

/// One of the four directions the snake can travel in.
#[derive(Clone, Copy, Debug, PartialEq, Eq, Structural)]
pub enum Direction {
    Up,
    Down,
    Left,
    Right,
}

/// The cell with the given coordinates, for use in contracts.
pub open spec fn cell_at_xy(x: int, y: int) -> Cell
    recommends
        i32::MIN <= x <= i32::MAX,
        i32::MIN <= y <= i32::MAX,
{
    Cell { x: x as i32, y: y as i32 }
}

/// Distance between two integers.
pub open spec fn gap(a: int, b: int) -> int {
    if a >= b {
        a - b
    } else {
        b - a
    }
}

impl Direction {
    /// Horizontal component of the unit vector of this direction.
    pub open spec fn dx(self) -> int {
        match self {
            Direction::Left => -1,
            Direction::Right => 1,
            _ => 0,
        }
    }

    /// Vertical component of the unit vector of this direction.
    pub open spec fn dy(self) -> int {
        match self {
            Direction::Up => 1,
            Direction::Down => -1,
            _ => 0,
        }
    }

    /// The direction pointing the other way.
    pub open spec fn spec_opposite(self) -> Direction {
        match self {
            Direction::Up => Direction::Down,
            Direction::Down => Direction::Up,
            Direction::Left => Direction::Right,
            Direction::Right => Direction::Left,
        }
    }

    /// The direction pointing the other way.
    #[verifier::when_used_as_spec(spec_opposite)]
    pub fn opposite(self) -> (r: Direction)
        ensures
            r == self.spec_opposite(),
    {
        match self {
            Direction::Up => Direction::Down,
            Direction::Down => Direction::Up,
            Direction::Left => Direction::Right,
            Direction::Right => Direction::Left,
        }
    }

    /// The unit vector of this direction as `(dx, dy)`; `Up` is positive `y`.
    pub fn unit_vector(self) -> (v: (i32, i32))
        ensures
            v.0 == self.dx(),
            v.1 == self.dy(),
    {
        match self {
            Direction::Up => (0, 1),
            Direction::Down => (0, -1),
            Direction::Left => (-1, 0),
            Direction::Right => (1, 0),
        }
    }
}

impl Cell {
    pub fn new(x: i32, y: i32) -> (c: Cell)
        ensures
            c.x == x,
            c.y == y,
    {
        Cell { x, y }
    }

    /// Manhattan distance between two cells.
    pub open spec fn manhattan(self, other: Cell) -> int {
        gap(self.x as int, other.x as int) + gap(self.y as int, other.y as int)
    }

    /// Two cells are adjacent when they are exactly one step apart.
    pub open spec fn adjacent(self, other: Cell) -> bool {
        self.manhattan(other) == 1
    }

    /// Whether `self` moved one step in direction `d` is still a cell.
    pub open spec fn can_step(self, d: Direction) -> bool {
        i32::MIN <= self.x + d.dx() <= i32::MAX && i32::MIN <= self.y + d.dy() <= i32::MAX
    }

    /// The cell one step away in direction `d`.
    pub open spec fn neighbor(self, d: Direction) -> Cell
        recommends
            self.can_step(d),
    {
        Cell { x: (self.x + d.dx()) as i32, y: (self.y + d.dy()) as i32 }
    }

    /// Executable test of adjacency.
    pub fn is_adjacent(self, other: Cell) -> (b: bool)
        ensures
            b == self.adjacent(other),
    {
        let dx: i64 = if self.x >= other.x {
            self.x as i64 - other.x as i64
        } else {
            other.x as i64 - self.x as i64
        };
        let dy: i64 = if self.y >= other.y {
            self.y as i64 - other.y as i64
        } else {
            other.y as i64 - self.y as i64
        };
        dx + dy == 1
    }

    /// The cell one step away in direction `d`.
    pub fn step(self, d: Direction) -> (c: Cell)
        requires
            self.can_step(d),
        ensures
            c == self.neighbor(d),
            c.adjacent(self),
    {
        let (dx, dy) = d.unit_vector();
        Cell { x: self.x + dx, y: self.y + dy }
    }
}

/// Every step lands on an adjacent cell.
pub proof fn lemma_neighbor_adjacent(c: Cell, d: Direction)
    requires
        c.can_step(d),
    ensures
        c.adjacent(c.neighbor(d)),
        c.neighbor(d).adjacent(c),
{
}

} // verus!
