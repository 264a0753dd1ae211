//! The verified core of an interactive Rust REPL: input history, the
//! program under construction, the command classifier and the screen
//! state of the terminal front end.

pub mod cargo_cmds;
pub mod enums;
pub mod eval;
pub mod eval_ref;
pub mod helper_fns;
pub mod history;
pub mod repl;
pub mod terminal;
pub mod text;
