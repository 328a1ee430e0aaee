//! Grid coordinates and the four directions of travel.

use vstd::prelude::*;

verus! {

/// One of the four axis-aligned directions of travel.
#[derive(Debug, Clone, Copy, PartialEq, Eq, Structural)]
pub enum Direction {
    Up,
    Down,
    Left,
    Right,
}

impl Direction {
    /// The direction that points exactly the other way.
    pub open spec fn opposite(self) -> Direction {
        match self {
            Direction::Up => Direction::Down,
            Direction::Down => Direction::Up,
            Direction::Left => Direction::Right,
            Direction::Right => Direction::Left,
        }
    }

    /// Two directions are compatible unless one is the exact reverse of the other.
    pub open spec fn compatible(self, other: Direction) -> bool {
        other != self.opposite()
    }

    /// The direction a snake takes when `requested` is asked of it while it
    /// travels in direction `self`: a request to reverse is ignored.
    pub open spec fn arbitrate(self, requested: Direction) -> Direction {
        if requested.compatible(self) {
            requested
        } else {
            self
        }
    }

    /// Tells whether `other` may follow `self` without reversing.
    pub fn is_compatible_with(&self, other: Direction) -> (r: bool)
        ensures
            r == self.compatible(other),
    {
        match (*self, other) {
            (Direction::Up, Direction::Down) => false,
            (Direction::Down, Direction::Up) => false,
            (Direction::Left, Direction::Right) => false,
            (Direction::Right, Direction::Left) => false,
            _ => true,
        }
    }
}

/// A cell of the grid. `x` grows to the right and `y` grows upwards.
#[derive(Debug, Clone, Copy, PartialEq, Eq, Structural)]
pub struct Point {
    pub x: usize,
    pub y: usize,
}

impl Point {
    /// Whether the point lies on a board of the given size.
    pub open spec fn within(self, width: nat, height: nat) -> bool {
        self.x < width && self.y < height
    }

    /// The neighbouring cell in `direction` on a board that wraps around at
    /// every edge.
    pub open spec fn step(self, direction: Direction, width: nat, height: nat) -> Point {
        match direction {
            Direction::Up => Point { x: self.x, y: ((self.y + 1) % (height as int)) as usize },
            Direction::Down => Point {
                x: self.x,
                y: if self.y == 0 {
                    (height - 1) as usize
                } else {
                    (self.y - 1) as usize
                },
            },
            Direction::Right => Point { x: ((self.x + 1) % (width as int)) as usize, y: self.y },
            Direction::Left => Point {
                x: if self.x == 0 {
                    (width - 1) as usize
                } else {
                    (self.x - 1) as usize
                },
                y: self.y,
            },
        }
    }

    /// A step never leaves the board.
    pub proof fn lemma_step_within(self, direction: Direction, width: nat, height: nat)
        requires
            self.within(width, height),
            width <= usize::MAX,
            height <= usize::MAX,
        ensures
            self.step(direction, width, height).within(width, height),
    {
    }
}

/// The cell at position `index` of a board of width `w` that is read row by
/// row, each row from left to right.
pub open spec fn cell_at(index: nat, w: nat) -> Point {
    Point { x: (index % w) as usize, y: (index / w) as usize }
}

/// Turns a position in row-by-row reading order into a cell.
pub fn index_to_coordinate(index: usize, w: usize) -> (p: Point)
    requires
        w > 0,
    ensures
        p == cell_at(index as nat, w as nat),
{
    Point { x: index % w, y: index / w }
}

} // verus!
