//! The commands of a turn and the tokens that stand for them.

use vstd::prelude::*;

verus! {

/// What the player may ask for in a turn.
#[derive(Debug, Clone, Copy, PartialEq, Eq, Structural)]
pub enum Command {
    /// Stand still and let the robots come.
    Wait,
    /// End the session.
    Quit,
    /// Step one row up, then let the robots move.
    Up,
    /// Step one column to the left, then let the robots move.
    Left,
    /// Step one row down, then let the robots move.
    Down,
    /// Step one column to the right, then let the robots move.
    Right,
    /// Jump to a random cell. The robots stay where they are.
    Teleport,
}

impl Command {
    /// The command that a token stands for: a token is a single character,
    /// one of `.`, `q`, `w`, `a`, `s`, `d` and `t`. Anything else stands for
    /// nothing.
    pub open spec fn of_token(token: Seq<char>) -> Option<Command> {
        if token.len() != 1 {
            None
        } else if token[0] == '.' {
            Some(Command::Wait)
        } else if token[0] == 'q' {
            Some(Command::Quit)
        } else if token[0] == 'w' {
            Some(Command::Up)
        } else if token[0] == 'a' {
            Some(Command::Left)
        } else if token[0] == 's' {
            Some(Command::Down)
        } else if token[0] == 'd' {
            Some(Command::Right)
        } else if token[0] == 't' {
            Some(Command::Teleport)
        } else {
            None
        }
    }

    /// The step of the player that the command begins with, for the four
    /// commands that begin with one. Rows are counted from the top.
    pub open spec fn step(self) -> Option<(int, int)> {
        match self {
            Command::Up => Some((0, -1)),
            Command::Left => Some((-1, 0)),
            Command::Down => Some((0, 1)),
            Command::Right => Some((1, 0)),
            _ => None,
        }
    }

    /// Reads the command that `token` stands for, or `None` where it stands
    /// for none. The token is taken as it is: blanks around it are for the
    /// caller to strip.
    pub fn parse(token: &str) -> (command: Option<Command>)
        ensures
            command == Command::of_token(token@),
    {
        if token.unicode_len() != 1 {
            return None;
        }
        let c: char = token.get_char(0);
        if c == '.' {
            Some(Command::Wait)
        } else if c == 'q' {
            Some(Command::Quit)
        } else if c == 'w' {
            Some(Command::Up)
        } else if c == 'a' {
            Some(Command::Left)
        } else if c == 's' {
            Some(Command::Down)
        } else if c == 'd' {
            Some(Command::Right)
        } else if c == 't' {
            Some(Command::Teleport)
        } else {
            None
        }
    }
}

} // verus!
