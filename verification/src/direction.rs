//! Headings of the snake and the keys that steer it.
use vstd::prelude::*;

verus! {

/// One of the four headings on the grid. Rows grow downwards, so `Up` leads
/// to smaller rows.
#[derive(Clone, Copy, Debug, PartialEq, Eq, Structural)]
pub enum Direction {
    Right,
    Left,
    Up,
    Down,
}

/// A key press as the simulation sees it: one of the four arrow keys, or
/// anything else.
#[derive(Clone, Copy, Debug, PartialEq, Eq, Structural)]
pub enum Key {
    Up,
    Down,
    Left,
    Right,
    Other,
}

impl Direction {
    /// The heading that points the other way.
    pub open spec fn opposite(self) -> Direction {
        match self {
            Direction::Right => Direction::Left,
            Direction::Left => Direction::Right,
            Direction::Up => Direction::Down,
            Direction::Down => Direction::Up,
        }
    }

    /// The cell one step from `from` in this heading.
    pub open spec fn step(self, from: (int, int)) -> (int, int) {
        match self {
            Direction::Right => (from.0 + 1, from.1),
            Direction::Left => (from.0 - 1, from.1),
            Direction::Up => (from.0, from.1 - 1),
            Direction::Down => (from.0, from.1 + 1),
        }
    }

    /// The heading that `key` obtains from a snake heading `self`, if any:
    /// an arrow key is honoured unless it asks for the current heading or for
    /// its opposite.
    pub open spec fn spec_turn(self, key: Key) -> Option<Direction> {
        match key.direction() {
            Some(wanted) if wanted != self && wanted != self.opposite() => Some(wanted),
            _ => None,
        }
    }

    /// Decides what a key press does to a snake heading `self`: the new
    /// heading, or `None` where the key changes nothing.
    #[verifier::when_used_as_spec(spec_turn)]
    pub fn turn(self, key: Key) -> (turned: Option<Direction>)
        ensures
            turned == self.spec_turn(key),
    {
        match key {
            Key::Up if self != Direction::Down && self != Direction::Up => Some(Direction::Up),
            Key::Down if self != Direction::Up && self != Direction::Down => Some(Direction::Down),
            Key::Left if self != Direction::Right && self != Direction::Left => Some(
                Direction::Left,
            ),
            Key::Right if self != Direction::Left && self != Direction::Right => Some(
                Direction::Right,
            ),
            _ => None,
        }
    }

    /// The clockwise rotation, in degrees, that turns a figure drawn heading
    /// up into this heading.
    pub fn degrees(self) -> (angle: u16)
        ensures
            angle == match self {
                Direction::Up => 0int,
                Direction::Right => 90int,
                Direction::Down => 180int,
                Direction::Left => 270int,
            },
    {
        match self {
            Direction::Up => 0,
            Direction::Right => 90,
            Direction::Down => 180,
            Direction::Left => 270,
        }
    }
}

impl Key {
    /// The heading that this key asks for, if it is an arrow key.
    pub open spec fn direction(self) -> Option<Direction> {
        match self {
            Key::Up => Some(Direction::Up),
            Key::Down => Some(Direction::Down),
            Key::Left => Some(Direction::Left),
            Key::Right => Some(Direction::Right),
            Key::Other => None,
        }
    }
}

} // verus!
