//! The direction of travel and how key presses turn it.

use vstd::prelude::*;

verus! {

/// The direction in which the head travels.
#[derive(Clone, Copy, Debug, PartialEq, Eq)]
pub enum Direction {
    Left,
    Right,
    Up,
    Down,
}

impl Direction {
    /// The direction that points the other way.
    pub open spec fn opposite(self) -> Direction {
        match self {
            Direction::Left => Direction::Right,
            Direction::Right => Direction::Left,
            Direction::Up => Direction::Down,
            Direction::Down => Direction::Up,
        }
    }

    /// The direction that points the other way.
    pub fn reversed(&self) -> (d: Direction)
        ensures
            d == self.opposite(),
    {
        match self {
            Direction::Left => Direction::Right,
            Direction::Right => Direction::Left,
            Direction::Up => Direction::Down,
            Direction::Down => Direction::Up,
        }
    }

    /// Whether two directions are the same.
    pub fn same(&self, other: &Direction) -> (b: bool)
        ensures
            b == (*self == *other),
    {
        match (self, other) {
            (Direction::Left, Direction::Left) => true,
            (Direction::Right, Direction::Right) => true,
            (Direction::Up, Direction::Up) => true,
            (Direction::Down, Direction::Down) => true,
            _ => false,
        }
    }
}

/// The direction that a key code asks for: W or arrow up, D or arrow right,
/// S or arrow down, A or arrow left; any other code asks for none.
pub open spec fn key_direction(key_code: u32) -> Option<Direction> {
    if key_code == 87 || key_code == 38 {
        Some(Direction::Up)
    } else if key_code == 68 || key_code == 39 {
        Some(Direction::Right)
    } else if key_code == 83 || key_code == 40 {
        Some(Direction::Down)
    } else if key_code == 65 || key_code == 37 {
        Some(Direction::Left)
    } else {
        None
    }
}

/// The direction after a key press: the one asked for, unless the key asks
/// for none or for a turn straight back.
pub open spec fn turned(current: Direction, key_code: u32) -> Direction {
    match key_direction(key_code) {
        Some(d) => if d == current.opposite() {
            current
        } else {
            d
        },
        None => current,
    }
}

/// Decodes a key code into the direction it asks for.
pub fn decode_key(key_code: u32) -> (wanted: Option<Direction>)
    ensures
        wanted == key_direction(key_code),
{
    match key_code {
        87 | 38 => Some(Direction::Up),
        68 | 39 => Some(Direction::Right),
        83 | 40 => Some(Direction::Down),
        65 | 37 => Some(Direction::Left),
        _ => None,
    }
}

/// Applies a key press to the current direction.
pub fn turn(current: Direction, key_code: u32) -> (next: Direction)
    ensures
        next == turned(current, key_code),
        next != current.opposite(),
{
    match decode_key(key_code) {
        Some(d) => {
            if d.same(&current.reversed()) {
                current
            } else {
                d
            }
        },
        None => current,
    }
}

/// A key that asks for the opposite of the current direction leaves the
/// direction as it is.
pub proof fn lemma_reversal_rejected(current: Direction, key_code: u32)
    requires
        key_direction(key_code) == Some(current.opposite()),
    ensures
        turned(current, key_code) == current,
{
}

/// No key press turns a direction into its opposite.
pub proof fn lemma_never_reverses(current: Direction, key_code: u32)
    ensures
        turned(current, key_code) != current.opposite(),
{
}

} // verus!
