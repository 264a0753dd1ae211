//! The terminal front end of the REPL, as a state machine: each key the
//! user presses changes the input line, the history, the scroll state and
//! the lines shown, and queues the drawing commands that the caller then
//! carries out on the real screen.

use vstd::prelude::*;
use crate::enums::Kind;
use crate::history::History;
use self::model::{DrawModel, TerminalModel};

pub mod event_handler;
pub mod laws;
pub mod model;
pub mod parser;
pub mod wrappers;
pub mod writer;

verus! {

/// The colours the terminal draws in.
#[derive(PartialEq, Eq, Structural, Clone, Copy, Debug)]
pub enum ScreenColor {
    Default,
    Yellow,
    LightRed,
    Blue,
    LightBlue,
}

/// A drawing command for the real screen.
#[derive(Debug, PartialEq, Eq)]
pub enum DrawOp {
    /// Clear the screen's buffer.
    Clear,
    /// Show what has been drawn.
    Present,
    /// Print `text` from `(row, col)` in `color`.
    Print { row: usize, col: usize, text: String, color: ScreenColor },
    /// Put the blinking cursor at `(row, col)`.
    SetCursor { row: usize, col: usize },
}

impl View for DrawOp {
    type V = DrawModel;

    open spec fn view(&self) -> DrawModel {
        match self {
            DrawOp::Clear => DrawModel::Clear,
            DrawOp::Present => DrawModel::Present,
            DrawOp::Print { row, col, text, color } => DrawModel::Print {
                row: *row as int,
                col: *col as int,
                text: text@,
                color: *color,
            },
            DrawOp::SetCursor { row, col } => DrawModel::SetCursor { row: *row as int, col: *col as int },
        }
    }
}

/// What is left to do with an entered line once the terminal has looked
/// at it.
#[derive(Debug, PartialEq, Eq)]
pub enum Step {
    /// Nothing outside: finish with `complete_enter` and this kind.
    Complete(Kind),
    /// Run this program in the playground, then finish with
    /// `complete_enter` and `Kind::Expression` of what it showed.
    Run(String),
    /// Recreate the playground, then `finish_reset` and `complete_enter`
    /// with `Kind::Cmd`.
    Reset,
    /// Ask cargo to add a dependency with this request line (it has at
    /// least two words), then `finish_add` and `complete_enter` with
    /// `Kind::Cmd`.
    Add(String),
}

/// A key that the terminal reacts to; every other key or event is `Other`.
#[derive(PartialEq, Eq, Structural, Clone, Copy, Debug)]
pub enum KeyEvent {
    Up,
    Down,
    Right,
    Left,
    Enter,
    PageUp,
    PageDown,
    Backspace,
    CtrlLeft,
    Ctrl(char),
    Char(char),
    Other,
}

/// What the caller has to do after a key.
#[derive(Debug, PartialEq, Eq)]
pub enum Reaction {
    /// Nothing more than drawing the queued commands.
    Done,
    /// A line was entered; this is what is left to do with it.
    Entered(Step),
    /// Draw the queued commands, then end the program.
    Exit,
}

/// The views of shown lines.
pub open spec fn screen_view(s: Seq<(String, ScreenColor)>) -> Seq<(Seq<char>, ScreenColor)> {
    s.map_values(|e: (String, ScreenColor)| (e.0@, e.1))
}

/// The views of drawing commands.
pub open spec fn ops_view(s: Seq<DrawOp>) -> Seq<DrawModel> {
    s.map_values(|o: DrawOp| o@)
}

/// The largest value any counter of the terminal may start an operation
/// with: an eighth of the address space, so that no operation overflows.
pub open spec fn counter_bound() -> int {
    usize::MAX as int / 8
}

/// The terminal: the input being typed, the writing cursor `(row, col)`,
/// the history, the blinking cursor `(row, col)`, the lines shown so far
/// with their colours, the width of the prompt, the scroll offsets
/// `(current, end)`, and the drawing commands not yet carried out.
pub struct Terminal {
    pub buffer: String,
    pub cursor: (usize, usize),
    pub history: History,
    pub blinking_cursor: (usize, usize),
    pub terminal_screen: Vec<(String, ScreenColor)>,
    pub left_margin: usize,
    pub screen_cursor: (usize, usize),
    pub ops: Vec<DrawOp>,
}

impl View for Terminal {
    type V = TerminalModel;

    open spec fn view(&self) -> TerminalModel {
        TerminalModel {
            buffer: self.buffer@,
            cursor: (self.cursor.0 as int, self.cursor.1 as int),
            history: self.history@,
            blinking_cursor: (self.blinking_cursor.0 as int, self.blinking_cursor.1 as int),
            screen: screen_view(self.terminal_screen@),
            left_margin: self.left_margin as int,
            screen_cursor: (self.screen_cursor.0 as int, self.screen_cursor.1 as int),
            ops: ops_view(self.ops@),
        }
    }
}

impl TerminalModel {
    /// The prompt is at least eight columns wide, the blinking cursor never
    /// left of that, and the scroll offsets are ordered, the current one
    /// within the shown lines.
    pub open spec fn well_formed(self) -> bool {
        &&& self.left_margin >= 8
        &&& self.blinking_cursor.1 >= 8
        &&& 0 <= self.screen_cursor.0 <= self.screen_cursor.1
        &&& self.screen_cursor.0 <= self.screen.len()
    }

    /// Every counter and length is within `counter_bound()`.
    pub open spec fn bounded(self) -> bool {
        &&& self.cursor.0 <= counter_bound()
        &&& self.cursor.1 <= counter_bound()
        &&& self.blinking_cursor.0 <= counter_bound()
        &&& self.blinking_cursor.1 <= counter_bound()
        &&& self.left_margin <= counter_bound()
        &&& self.screen_cursor.1 <= counter_bound()
        &&& self.screen.len() <= counter_bound()
        &&& self.history.entries.len() <= counter_bound()
        &&& crate::text::byte_len(self.buffer) <= counter_bound()
    }
}

impl Terminal {
    /// The history is well formed and so is the view.
    pub open spec fn wf(&self) -> bool {
        &&& self.history.wf()
        &&& self@.well_formed()
    }

    /// A terminal with an empty input, nothing shown and nothing to draw.
    pub fn new() -> (t: Self)
        ensures
            t.wf(),
            t@ == TerminalModel::initial(),
    {
        let t = Terminal {
            buffer: String::new(),
            cursor: (0, 0),
            blinking_cursor: (0, 8),
            history: History::default(),
            terminal_screen: Vec::new(),
            left_margin: 8,
            screen_cursor: (0, 0),
            ops: Vec::new(),
        };
        assert(t@ =~= TerminalModel::initial());
        t
    }

    /// Hands over the drawing commands queued so far, leaving none.
    pub fn take_ops(&mut self) -> (ops: Vec<DrawOp>)
        ensures
            ops_view(ops@) == old(self)@.ops,
            final(self)@ == (TerminalModel { ops: Seq::empty(), ..old(self)@ }),
            final(self).history == old(self).history,
    {
        let mut ops: Vec<DrawOp> = Vec::new();
        std::mem::swap(&mut ops, &mut self.ops);
        assert(final(self)@ =~= (TerminalModel { ops: Seq::empty(), ..old(self)@ }));
        ops
    }

    pub(crate) fn emit(&mut self, op: DrawOp)
        ensures
            final(self)@ == old(self)@.emit(op@),
            final(self).history == old(self).history,
    {
        let ghost before = ops_view(self.ops@);
        self.ops.push(op);
        assert(ops_view(self.ops@) =~= before.push(op@));
        assert(self@ =~= old(self)@.emit(op@));
    }
}

} // verus!
