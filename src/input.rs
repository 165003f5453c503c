use vstd::prelude::*;

use crate::direction::Direction;

verus! {

/// A command for the game, decoded from a key press.
#[derive(Debug, Clone, Copy)]
pub enum Input {
    Quit,
    D(Direction),
}

/// A key press as the terminal reports it, reduced to what the game reads.
#[derive(Debug, Clone, Copy)]
pub enum Key {
    Char(char),
    Up,
    Down,
    Left,
    Right,
    Esc,
    /// Any other key, or an event that is not a key press.
    Other,
}

/// The command that a key stands for, if any: the arrow keys and
/// `w`/`a`/`s`/`d` (either case) steer, `Esc` and `q`/`Q` quit.
pub open spec fn decoded(key: Key) -> Option<Input> {
    match key {
        Key::Char(c) => if c == 'w' || c == 'W' {
            Some(Input::D(Direction::Up))
        } else if c == 'a' || c == 'A' {
            Some(Input::D(Direction::Left))
        } else if c == 's' || c == 'S' {
            Some(Input::D(Direction::Down))
        } else if c == 'd' || c == 'D' {
            Some(Input::D(Direction::Right))
        } else if c == 'q' || c == 'Q' {
            Some(Input::Quit)
        } else {
            None
        },
        Key::Up => Some(Input::D(Direction::Up)),
        Key::Left => Some(Input::D(Direction::Left)),
        Key::Down => Some(Input::D(Direction::Down)),
        Key::Right => Some(Input::D(Direction::Right)),
        Key::Esc => Some(Input::Quit),
        Key::Other => None,
    }
}

/// Decodes one key press; keys that mean nothing to the game give `None`.
pub fn handle_keyevent(key: Key) -> (r: Option<Input>)
    ensures
        r == decoded(key),
{
    match key {
        Key::Char(c) => match c {
            'w' | 'W' => Some(Input::D(Direction::Up)),
            'a' | 'A' => Some(Input::D(Direction::Left)),
            's' | 'S' => Some(Input::D(Direction::Down)),
            'd' | 'D' => Some(Input::D(Direction::Right)),
            'q' | 'Q' => Some(Input::Quit),
            _ => None,
        },
        Key::Up => Some(Input::D(Direction::Up)),
        Key::Left => Some(Input::D(Direction::Left)),
        Key::Down => Some(Input::D(Direction::Down)),
        Key::Right => Some(Input::D(Direction::Right)),
        Key::Esc => Some(Input::Quit),
        Key::Other => None,
    }
}

/// What one poll makes of the commands that arrived since the last one:
/// nothing when none arrived, `Quit` when any of them quits, and otherwise
/// the most recent one.
pub open spec fn polled(pending: Seq<Input>) -> Option<Input> {
    if exists|i: int| 0 <= i < pending.len() && #[trigger] pending[i] is Quit {
        Some(Input::Quit)
    } else if pending.len() == 0 {
        None
    } else {
        Some(pending.last())
    }
}

/// Reduces the commands that arrived since the last tick to the one the
/// tick applies (see `polled`).
pub fn latest_input(pending: &[Input]) -> (r: Option<Input>)
    ensures
        r == polled(pending@),
{
    let mut latest: Option<Input> = None;
    let mut i: usize = 0;
    while i < pending.len()
        invariant
            i <= pending@.len(),
            forall|j: int| 0 <= j < i ==> !(#[trigger] pending@[j] is Quit),
            i == 0 ==> latest is None,
            i > 0 ==> latest == Some(pending@[i - 1]),
        decreases pending@.len() - i,
    {
        if let Input::Quit = pending[i] {
            return Some(Input::Quit);
        }
        latest = Some(pending[i]);
        i = i + 1;
    }
    latest
}

} // verus!
