//! From keys to inputs: which key asks the game for what.

use crate::inputtype::InputType;
use vstd::prelude::*;

verus! {

/// A key press, or the request to close the window, as a front end reports
/// it.
#[derive(PartialEq, Eq, Debug, Copy, Clone)]
pub enum Key {
    Up,
    Right,
    Down,
    Left,
    /// A key that stands for a character.
    Char(char),
    Escape,
    /// The window is being closed.
    Close,
    /// Any other key or event.
    Other,
}

/// The input that a key asks for in the terminal: the arrow keys steer, and
/// `q` quits.
pub open spec fn terminal_meaning(key: Key) -> InputType {
    match key {
        Key::Up => InputType::Up,
        Key::Right => InputType::Right,
        Key::Down => InputType::Down,
        Key::Left => InputType::Left,
        Key::Char(c) => if c == 'q' {
            InputType::Quit
        } else {
            InputType::Nothing
        },
        _ => InputType::Nothing,
    }
}

/// The input that a key asks for in a window: as in the terminal, and the
/// escape key and closing the window quit too.
pub open spec fn window_meaning(key: Key) -> InputType {
    match key {
        Key::Escape => InputType::Quit,
        Key::Close => InputType::Quit,
        _ => terminal_meaning(key),
    }
}

/// The input that `key` asks for in the terminal.
pub fn terminal_input(key: &Key) -> (r: InputType)
    ensures
        r == terminal_meaning(*key),
{
    match key {
        Key::Up => InputType::Up,
        Key::Right => InputType::Right,
        Key::Down => InputType::Down,
        Key::Left => InputType::Left,
        Key::Char(c) => {
            if *c == 'q' {
                InputType::Quit
            } else {
                InputType::Nothing
            }
        },
        _ => InputType::Nothing,
    }
}

/// The input that `key` asks for in a window.
pub fn window_input(key: &Key) -> (r: InputType)
    ensures
        r == window_meaning(*key),
{
    match key {
        Key::Escape => InputType::Quit,
        Key::Close => InputType::Quit,
        _ => terminal_input(key),
    }
}

} // verus!
