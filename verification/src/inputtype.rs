//! What a player can ask for between two ticks.

use crate::direction::Direction;
use vstd::prelude::*;

verus! {

/// One poll of the input source.
#[derive(PartialEq, Eq, Debug, Copy, Clone, Structural)]
pub enum InputType {
    Nothing,
    Up,
    Right,
    Down,
    Left,
    Quit,
}

impl InputType {
    /// The heading an input asks for; `None` for `Nothing` and `Quit`.
    pub open spec fn direction(self) -> Option<Direction> {
        match self {
            InputType::Up => Some(Direction::Up),
            InputType::Right => Some(Direction::Right),
            InputType::Down => Some(Direction::Down),
            InputType::Left => Some(Direction::Left),
            InputType::Nothing => None,
            InputType::Quit => None,
        }
    }

    /// The heading an input asks for; `None` for `Nothing` and `Quit`.
    pub fn get_direction(&self) -> (r: Option<Direction>)
        ensures
            r == self.direction(),
    {
        match self {
            Self::Up => Some(Direction::Up),
            Self::Right => Some(Direction::Right),
            Self::Down => Some(Direction::Down),
            Self::Left => Some(Direction::Left),
            _ => None,
        }
    }
}

} // verus!
