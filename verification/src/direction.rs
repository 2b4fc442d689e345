//! The four directions of play and the key codes that stand for them.

use vstd::prelude::*;

verus! {

/// A direction the player can ask for.
#[derive(Clone, Copy, Debug, PartialEq, Eq, Structural)]
pub enum Direction {
    Up,
    Down,
    Left,
    Right,
}

/// The direction that a key code stands for, if any. Each direction has three
/// codes: the terminal's arrow key, and the capital and the small letter of
/// the H, J, K, L convention (H left, J down, K up, L right).
pub open spec fn key_direction(key: i32) -> Option<Direction> {
    if key == 259 || key == 75 || key == 107 {
        Some(Direction::Up)
    } else if key == 258 || key == 74 || key == 106 {
        Some(Direction::Down)
    } else if key == 260 || key == 72 || key == 104 {
        Some(Direction::Left)
    } else if key == 261 || key == 76 || key == 108 {
        Some(Direction::Right)
    } else {
        None
    }
}

impl Direction {
    /// The direction that undoes this one.
    pub open spec fn opposite(self) -> Direction {
        match self {
            Direction::Up => Direction::Down,
            Direction::Down => Direction::Up,
            Direction::Left => Direction::Right,
            Direction::Right => Direction::Left,
        }
    }

    /// Whether `value` is one of the twelve key codes that stand for a
    /// direction.
    pub fn is_direction(value: i32) -> (known: bool)
        ensures
            known == key_direction(value).is_some(),
    {
        match value {
            258 | 259 | 260 | 261 | 72 | 74 | 75 | 76 | 104 | 106 | 107 | 108 => true,
            _ => false,
        }
    }

    /// The direction that the key code `value` stands for. Only a code that
    /// `is_direction` accepts has one, so callers test with it first.
    pub fn from(value: i32) -> (direction: Direction)
        requires
            key_direction(value).is_some(),
        ensures
            Some(direction) == key_direction(value),
    {
        match value {
            259 | 75 | 107 => Direction::Up,
            258 | 74 | 106 => Direction::Down,
            260 | 72 | 104 => Direction::Left,
            _ => Direction::Right,
        }
    }
}

} // verus!
