//! Clearing and blank rows.

use vstd::prelude::*;
use crate::repl::{Repl, ReplModel};
use crate::text::repeat_string;
use super::{DrawOp, ScreenColor, Terminal};
use super::laws::lemma_clear_wipes_first;
use super::model::{DrawModel, TerminalModel, blank_line, lemma_new_lines};

verus! {

impl Terminal {
    /// Clears the screen and shows it.
    pub fn clear(&mut self)
        ensures
            final(self)@ == old(self)@.clear(),
            final(self).history == old(self).history,
    {
        self.emit(DrawOp::Clear);
        self.emit(DrawOp::Present);
    }

    /// Drops everything shown and remembered, writes `msg` if there is one,
    /// then a fresh prompt.
    pub fn custom_clear(&mut self, msg: &str)
        ensures
            final(self)@ == old(self)@.custom_clear(msg@),
            final(self).wf(),
            final(self)@.ops.len() >= old(self)@.ops.len() + 2,
            final(self)@.ops.subrange(0, (old(self)@.ops.len() + 2) as int) == old(self)@.ops + seq![
                DrawModel::Clear,
                DrawModel::Present,
            ],
    {
        proof {
            lemma_clear_wipes_first(old(self)@, msg@);
        }
        self.left_margin = 8;
        self.clear();
        self.history.reset();
        self.reset_cursors();
        self.blinking_cursor.1 = self.left_margin;
        self.terminal_screen.clear();
        self.screen_cursor = (0, 0);
        let ghost t = self@;
        assert(t =~= (TerminalModel {
            history: crate::history::HistoryModel::initial(),
            cursor: (0, 0),
            blinking_cursor: (old(self)@.clear().blinking_cursor.0, 8),
            screen: Seq::empty(),
            screen_cursor: (0, 0),
            ..(TerminalModel { left_margin: 8, ..old(self)@ }).clear()
        }));
        if msg.unicode_len() > 0 {
            self.writeln(msg);
        }
        let ghost before_lines = self@;
        self.empty_new_line(1);
        proof {
            lemma_new_lines(before_lines, 2);
        }
        self.buffer = String::new();
        let ghost u = self@;
        self.write_input();
        assert(u.write_input() =~= (TerminalModel { buffer: Seq::empty(), ..u }).write_input()) by {
            assert(u.buffer =~= Seq::<char>::empty());
        }
    }

    /// Starts the program over and clears the terminal, writing `msg`.
    pub fn reset(&mut self, repl: &mut Repl, msg: &str)
        ensures
            final(repl)@ == ReplModel::initial(),
            final(self)@ == old(self)@.custom_clear(msg@),
            final(self).wf(),
    {
        repl.reset();
        self.custom_clear(msg);
    }

    /// With `n == 0`, an empty write in place; otherwise `n + 1` empty rows.
    pub fn empty_new_line(&mut self, n: usize)
        requires
            n < usize::MAX,
            old(self).cursor.0 + n + 1 <= usize::MAX,
        ensures
            final(self)@ == old(self)@.empty_new_line(n as nat),
            final(self).history == old(self).history,
    {
        if n == 0 {
            self.write("", ScreenColor::Default);
            assert(""@ =~= Seq::<char>::empty()) by {
                reveal_strlit("");
            }
        } else {
            let ghost start = self@;
            let mut i: usize = 0;
            while i <= n
                invariant
                    n < usize::MAX,
                    i <= n + 1,
                    start.cursor.0 + n + 1 <= usize::MAX,
                    self@ == start.new_lines(i as nat),
                    self.history == old(self).history,
                decreases n + 1 - i,
            {
                proof {
                    lemma_new_lines(start, i as nat);
                    reveal_strlit("");
                }
                self.writeln("");
                assert(""@ =~= Seq::<char>::empty());
                i = i + 1;
            }
        }
    }

    /// Blanks the input row.
    pub fn empty_input_line(&mut self)
        ensures
            final(self)@ == old(self)@.empty_input_line(),
            final(self).history == old(self).history,
    {
        let spaces = repeat_string(' ', 500);
        assert(spaces@ =~= blank_line());
        self.write(spaces.as_str(), ScreenColor::LightBlue);
    }
}

} // verus!
