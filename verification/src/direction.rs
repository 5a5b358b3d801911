//! Headings on the board and their unit movement vectors.

use vstd::prelude::*;

verus! {

/// One of the four headings a snake can have.
#[derive(Debug, Clone, Copy, PartialEq, Eq, Structural)]
pub enum Direction {
    Up,
    Down,
    Left,
    Right,
}

impl Direction {
    /// The unit movement vector of this heading, as a mathematical pair.
    /// The vertical axis grows downwards.
    pub open spec fn vec2(self) -> (int, int) {
        match self {
            Direction::Up => (0, -1),
            Direction::Down => (0, 1),
            Direction::Left => (-1, 0),
            Direction::Right => (1, 0),
        }
    }

    /// The heading that points the other way.
    pub open spec fn reversed(self) -> Direction {
        match self {
            Direction::Up => Direction::Down,
            Direction::Down => Direction::Up,
            Direction::Left => Direction::Right,
            Direction::Right => Direction::Left,
        }
    }

    /// Returns the unit movement vector of this heading.
    pub fn get_vec2(&self) -> (v: (i16, i16))
        ensures
            v.0 == self.vec2().0,
            v.1 == self.vec2().1,
    {
        match self {
            Direction::Up => (0, -1),
            Direction::Down => (0, 1),
            Direction::Left => (-1, 0),
            Direction::Right => (1, 0),
        }
    }

    /// Returns the opposite heading.
    pub fn opposite(&self) -> (d: Direction)
        ensures
            d == self.reversed(),
    {
        match self {
            Direction::Up => Direction::Down,
            Direction::Down => Direction::Up,
            Direction::Left => Direction::Right,
            Direction::Right => Direction::Left,
        }
    }
}

/// The opposite of a heading moves the other way, and the opposite of the
/// opposite is the heading itself.
pub proof fn lemma_reversed(d: Direction)
    ensures
        d.reversed() != d,
        d.reversed().reversed() == d,
        d.reversed().vec2() == (-d.vec2().0, -d.vec2().1),
{
}

/// The movement vector of a heading is one step along exactly one axis.
pub proof fn lemma_unit_vector(d: Direction)
    ensures
        (d.vec2().0 == 0 && (d.vec2().1 == 1 || d.vec2().1 == -1)) || (d.vec2().1 == 0 && (d.vec2().0
            == 1 || d.vec2().0 == -1)),
{
}

} // verus!
