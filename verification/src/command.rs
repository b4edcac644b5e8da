//! The closed command set and its decoding from program characters.

use vstd::prelude::*;
use vstd::std_specs::convert::FromSpecImpl;

verus! {

/// One of the eight commands of the language, or `Invalid` for any other
/// character. Invalid characters occupy a slot in the program and are inert.
#[derive(Debug, Clone, Copy, PartialEq, Eq, Structural)]
pub enum Command {
    MovRight,
    MovLeft,
    Inc,
    Dec,
    Print,
    Read,
    JumpForward,
    JumpBackward,
    Invalid,
}

/// The command that a program character stands for.
pub open spec fn decode(c: char) -> Command {
    if c == '>' {
        Command::MovRight
    } else if c == '<' {
        Command::MovLeft
    } else if c == '+' {
        Command::Inc
    } else if c == '-' {
        Command::Dec
    } else if c == '.' {
        Command::Print
    } else if c == ',' {
        Command::Read
    } else if c == '[' {
        Command::JumpForward
    } else if c == ']' {
        Command::JumpBackward
    } else {
        Command::Invalid
    }
}

impl From<char> for Command {
    fn from(c: char) -> (r: Command) {
        match c {
            '>' => Command::MovRight,
            '<' => Command::MovLeft,
            '+' => Command::Inc,
            '-' => Command::Dec,
            '.' => Command::Print,
            ',' => Command::Read,
            '[' => Command::JumpForward,
            ']' => Command::JumpBackward,
            _ => Command::Invalid,
        }
    }
}

impl FromSpecImpl<char> for Command {
    open spec fn obeys_from_spec() -> bool {
        true
    }

    open spec fn from_spec(c: char) -> Command {
        decode(c)
    }
}

} // verus!
