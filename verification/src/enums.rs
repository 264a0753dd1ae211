//! Small vocabularies shared by the terminal and its caller.

use vstd::prelude::*;

verus! {

/// A step of the blinking cursor along the input line.
#[derive(PartialEq, Eq, Structural, Clone, Copy, Debug)]
pub enum Direction {
    Right,
    Left,
}

/// What an entered line turned out to be, once all outside work for it
/// is done: a statement added to the program, an expression with the
/// output of running it, or a command of the REPL itself.
#[derive(Debug, PartialEq, Eq)]
pub enum Kind {
    Statement,
    Expression(String),
    Cmd,
}

/// A step through the history.
#[derive(PartialEq, Eq, Structural, Clone, Copy, Debug)]
pub enum Arrow {
    Up,
    Down,
}

/// The commands that the REPL recognises in an entered line.
#[derive(PartialEq, Eq, Structural, Clone, Copy, Debug)]
pub enum KeyWords {
    Reset,
    Code,
    Show,
    Add,
}

} // verus!
