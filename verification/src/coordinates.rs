//! A point on the 2D grid, with the pure geometry helpers the game uses:
//! the four neighbouring cells, Manhattan distance, and stepping toward a
//! target one axis cell at a time.

use vstd::prelude::*;
use crate::events::Direction;

verus! {

/// The cell one step from `c` toward `d`. Meaningful only while the cell
/// in that direction exists, which the game's wall ring guarantees for
/// every interior cell.
pub open spec fn spec_step(c: Coordinates, d: Direction) -> Coordinates {
    match d {
        Direction::Up => Coordinates { x: c.x, y: (c.y - 1) as usize },
        Direction::Down => Coordinates { x: c.x, y: (c.y + 1) as usize },
        Direction::Left => Coordinates { x: (c.x - 1) as usize, y: c.y },
        Direction::Right => Coordinates { x: (c.x + 1) as usize, y: c.y },
    }
}

/// A `Coordinates` value represents a point in the maze grid.
#[derive(Clone, Copy, Debug, PartialEq, Eq, Structural)]
pub struct Coordinates {
    /// The position on the horizontal axis.
    pub x: usize,

    /// The position on the vertical axis.
    pub y: usize,
}

/// The absolute difference of two coordinates, as a mathematical integer.
pub open spec fn spec_abs_sub(x: int, y: int) -> int {
    if x > y {
        x - y
    } else {
        y - x
    }
}

/// The Manhattan distance between two points:
/// `|x1 - x2| + |y1 - y2|`.
pub open spec fn spec_manhattan(a: Coordinates, b: Coordinates) -> int {
    spec_abs_sub(a.x as int, b.x as int) + spec_abs_sub(a.y as int, b.y as int)
}

/// Compute the absolute difference (with no negative values) between
/// `x` and `y`.
pub fn abs_sub(x: usize, y: usize) -> (r: usize)
    ensures
        r == spec_abs_sub(x as int, y as int),
{
    if x > y {
        x - y
    } else {
        y - x
    }
}

impl Coordinates {
    /// Compute the Manhattan distance between two `Coordinates`.
    pub fn manhattan_distance(&self, other: &Coordinates) -> (r: usize)
        requires
            spec_manhattan(*self, *other) <= usize::MAX,
        ensures
            r == spec_manhattan(*self, *other),
    {
        let dx: usize = abs_sub(self.x, other.x);
        let dy: usize = abs_sub(self.y, other.y);

        dx + dy
    }

    /// Get the next coordinate closer to `target` in both the x and y
    /// axis.
    pub fn target_to(&self, target: &Coordinates) -> (r: Coordinates)
        ensures
            r.x == spec_next_to(self.x as int, target.x as int),
            r.y == spec_next_to(self.y as int, target.y as int),
    {
        let x: usize = Coordinates::next_to(self.x, target.x);
        let y: usize = Coordinates::next_to(self.y, target.y);

        Coordinates { x, y }
    }

    /// Get the next coordinate closer to `target` in the x axis.
    pub fn target_x_to(&self, target: &Coordinates) -> (r: Coordinates)
        ensures
            r.x == spec_next_to(self.x as int, target.x as int),
            r.y == self.y,
    {
        let x: usize = Coordinates::next_to(self.x, target.x);

        Coordinates { x, y: self.y }
    }

    /// Get the next coordinate closer to `target` in the y axis.
    pub fn target_y_to(&self, target: &Coordinates) -> (r: Coordinates)
        ensures
            r.x == self.x,
            r.y == spec_next_to(self.y as int, target.y as int),
    {
        let y: usize = Coordinates::next_to(self.y, target.y);

        Coordinates { x: self.x, y }
    }

    /// Compute the next coordinate on one axis to get closer to `target`.
    pub fn next_to(current: usize, target: usize) -> (r: usize)
        ensures
            r == spec_next_to(current as int, target as int),
    {
        if current > target {
            current - 1
        } else if current < target {
            current + 1
        } else {
            current
        }
    }

    /// Compute the `Coordinates` one cell above the current one.
    pub fn up(&self) -> (r: Coordinates)
        requires
            self.y >= 1,
        ensures
            r == (Coordinates { x: self.x, y: (self.y - 1) as usize }),
    {
        Coordinates { x: self.x, y: self.y - 1 }
    }

    /// Compute the `Coordinates` one cell below the current one.
    pub fn down(&self) -> (r: Coordinates)
        requires
            self.y + 1 <= usize::MAX,
        ensures
            r == (Coordinates { x: self.x, y: (self.y + 1) as usize }),
    {
        Coordinates { x: self.x, y: self.y + 1 }
    }

    /// Compute the `Coordinates` one cell to the left of the current one.
    pub fn left(&self) -> (r: Coordinates)
        requires
            self.x >= 1,
        ensures
            r == (Coordinates { x: (self.x - 1) as usize, y: self.y }),
    {
        Coordinates { x: self.x - 1, y: self.y }
    }

    /// Compute the `Coordinates` one cell to the right of the current one.
    pub fn right(&self) -> (r: Coordinates)
        requires
            self.x + 1 <= usize::MAX,
        ensures
            r == (Coordinates { x: (self.x + 1) as usize, y: self.y }),
    {
        Coordinates { x: self.x + 1, y: self.y }
    }
}

/// The next value on one axis when stepping from `current` toward `target`.
pub open spec fn spec_next_to(current: int, target: int) -> int {
    if current > target {
        current - 1
    } else if current < target {
        current + 1
    } else {
        current
    }
}

} // verus!
