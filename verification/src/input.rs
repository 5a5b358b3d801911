//! Keyboard input as the game sees it, and what each key asks for.

use vstd::prelude::*;
use crate::direction::Direction;

verus! {

/// The code of a key.
#[derive(Debug, Clone, Copy, PartialEq, Eq, Structural)]
pub enum Key {
    Up,
    Down,
    Left,
    Right,
    Char(char),
    /// Any key the game has no use for.
    Other,
}

/// How a key event came about.
#[derive(Debug, Clone, Copy, PartialEq, Eq, Structural)]
pub enum KeyKind {
    Press,
    Repeat,
    Release,
}

/// One event read from the input source.
#[derive(Debug, Clone, Copy, PartialEq, Eq, Structural)]
pub enum Event {
    Key { code: Key, kind: KeyKind },
    /// Anything that is not a key event.
    Other,
}

/// What an input event asks of the game.
#[derive(Debug, Clone, Copy, PartialEq, Eq, Structural)]
pub enum Command {
    /// Change the heading, if the turn is allowed.
    Turn(Direction),
    /// End the run.
    Quit,
    /// Nothing at all.
    Ignore,
}

impl Key {
    /// The command bound to this key: arrows and `w`, `s`, `a`, `d` turn,
    /// `q` quits, every other key does nothing.
    pub open spec fn bound_command(self) -> Command {
        match self {
            Key::Up => Command::Turn(Direction::Up),
            Key::Down => Command::Turn(Direction::Down),
            Key::Left => Command::Turn(Direction::Left),
            Key::Right => Command::Turn(Direction::Right),
            Key::Char(c) => if c == 'w' {
                Command::Turn(Direction::Up)
            } else if c == 's' {
                Command::Turn(Direction::Down)
            } else if c == 'a' {
                Command::Turn(Direction::Left)
            } else if c == 'd' {
                Command::Turn(Direction::Right)
            } else if c == 'q' {
                Command::Quit
            } else {
                Command::Ignore
            },
            Key::Other => Command::Ignore,
        }
    }

    /// Returns the command bound to this key.
    pub fn command(&self) -> (c: Command)
        ensures
            c == self.bound_command(),
    {
        match self {
            Key::Up => Command::Turn(Direction::Up),
            Key::Down => Command::Turn(Direction::Down),
            Key::Left => Command::Turn(Direction::Left),
            Key::Right => Command::Turn(Direction::Right),
            Key::Char(c) => {
                let c: char = *c;
                if c == 'w' {
                    Command::Turn(Direction::Up)
                } else if c == 's' {
                    Command::Turn(Direction::Down)
                } else if c == 'a' {
                    Command::Turn(Direction::Left)
                } else if c == 'd' {
                    Command::Turn(Direction::Right)
                } else if c == 'q' {
                    Command::Quit
                } else {
                    Command::Ignore
                }
            },
            Key::Other => Command::Ignore,
        }
    }
}

impl Event {
    /// The command of an event: that of its key when the key was pressed,
    /// nothing for a repeat, a release or an event that is no key event.
    pub open spec fn bound_command(self) -> Command {
        match self {
            Event::Key { code, kind: KeyKind::Press } => code.bound_command(),
            _ => Command::Ignore,
        }
    }

    /// Returns the command of this event.
    pub fn command(&self) -> (c: Command)
        ensures
            c == self.bound_command(),
    {
        match self {
            Event::Key { code, kind: KeyKind::Press } => code.command(),
            _ => Command::Ignore,
        }
    }
}

} // verus!
