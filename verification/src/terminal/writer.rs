//! Writing to the screen and moving the cursors.

use vstd::prelude::*;
use crate::enums::Direction;
use crate::text::{at_char_boundary, byte_len, byte_length, chars_of, decimal_string, remove_at_byte, repeat_string, split_chars, split_seq, string_of, views_of};
use crate::text::decimal;
use super::{DrawOp, ScreenColor, Terminal};
use super::laws::lemma_backspace_blanks_row;
use super::model::{
    DrawModel, TerminalModel, lemma_new_lines, lemma_output_lines, lemma_print_screen_lines, output_line, prompt_text,
};

verus! {

impl Terminal {
    /// Prints `message` at the writing cursor in `color`, with the blinking
    /// cursor on the same row.
    pub fn write(&mut self, message: &str, color: ScreenColor)
        ensures
            final(self)@ == old(self)@.write(message@, color),
            final(self).history == old(self).history,
    {
        self.correct_blinking_cursor_row();
        let text = String::from_str(message);
        self.emit(DrawOp::Print { row: self.cursor.0, col: self.cursor.1, text, color });
        self.emit(DrawOp::Present);
    }

    /// Writes `message` on the next row.
    pub fn writeln(&mut self, message: &str)
        requires
            old(self).cursor.0 < usize::MAX,
        ensures
            final(self)@ == old(self)@.writeln(message@),
            final(self).history == old(self).history,
    {
        self.cursor.0 = self.cursor.0 + 1;
        self.write(message, ScreenColor::LightRed);
    }

    /// Writes an output one line per row, the first under the label of the
    /// previous prompt, scrolls if low on the screen, then a fresh prompt.
    pub fn write_output(&mut self, out: String, height: usize)
        requires
            old(self).wf(),
            old(self)@.history.entries.len() >= 1,
            old(self).cursor.0 + split_seq(out@, '\n').len() + 3 <= usize::MAX,
            2 * old(self).terminal_screen.len() + 5 <= usize::MAX,
            old(self)@.output_lines(
                split_seq(out@, '\n'),
                (old(self)@.last_idx() - 1) as nat,
            ).low_on_screen(height as int) ==> old(self).screen_cursor.0 < old(self).terminal_screen.len()
                && old(self).screen_cursor.1 < usize::MAX,
        ensures
            final(self)@ == old(self)@.write_output(out@, height as int),
            final(self).wf(),
            final(self).history == old(self).history,
    {
        proof {
            self.history.lemma_prompt_numbers();
        }
        let text = chars_of(out.as_str());
        let chunks = split_chars(text.as_slice(), '\n');
        let ghost cv = views_of(chunks@);
        let idx = self.history.last_idx() - 1;
        let label = decimal_string(idx);
        let ghost start = self@;
        let mut j: usize = 0;
        assert(cv.take(0) =~= Seq::<Seq<char>>::empty());
        while j < chunks.len()
            invariant
                cv == views_of(chunks@),
                cv == split_seq(out@, '\n'),
                j <= chunks.len(),
                label@ == crate::text::decimal(idx as nat),
                idx == start.last_idx() - 1,
                start.cursor.0 + cv.len() + 3 <= usize::MAX,
                self@ == start.output_lines(cv.take(j as int), idx as nat),
                self.history == old(self).history,
            decreases chunks.len() - j,
        {
            proof {
                lemma_output_lines(start, cv.take(j as int), idx as nat);
            }
            let piece = string_of(chunks[j].as_slice());
            let line = if j != 0 {
                let mut l = repeat_string(' ', 12);
                l.append(piece.as_str());
                l
            } else {
                let mut l = String::from_str(" Out[");
                l.append(label.as_str());
                l.append("]: ");
                l.append(piece.as_str());
                l
            };
            assert(line@ =~= output_line(j as int, cv[j as int], idx as nat));
            self.writeln(line.as_str());
            assert(cv.take(j + 1).drop_last() =~= cv.take(j as int));
            j = j + 1;
        }
        assert(cv.take(chunks.len() as int) =~= cv);
        proof {
            lemma_output_lines(start, cv, idx as nat);
        }
        self.scroll_down(height);
        let ghost before_lines = self@;
        self.empty_new_line(1);
        proof {
            lemma_new_lines(before_lines, 2);
        }
        self.buffer = String::new();
        let ghost u = self@;
        self.write_input();
        assert(u.write_input() =~= (TerminalModel { buffer: Seq::empty(), ..u }).write_input()) by {
            assert(u.buffer =~= Seq::<char>::empty());
        }
    }

    /// The prompt with the input, as `write_input` writes it.
    pub(crate) fn prompt_string(&self) -> (text: String)
        requires
            self.history.wf(),
        ensures
            text@ == self@.prompt(),
    {
        proof {
            self.history.lemma_prompt_numbers();
        }
        let mut text = String::from_str(" In[");
        let idx = decimal_string(self.history.last_idx());
        text.append(idx.as_str());
        text.append("]: ");
        text.append(self.buffer.as_str());
        assert(text@ =~= prompt_text(self@.last_idx(), self@.buffer));
        text
    }

    /// Writes the prompt, numbered after the history, with the input.
    pub fn write_input(&mut self)
        requires
            old(self).history.wf(),
        ensures
            final(self)@ == old(self)@.write_input(),
            final(self).history == old(self).history,
    {
        let text = self.prompt_string();
        self.write(text.as_str(), ScreenColor::Yellow);
    }

    /// Redraws the shown lines from the scroll offset on, then the prompt.
    pub fn write_screen(&mut self)
        requires
            old(self).history.wf(),
            old(self).screen_cursor.0 <= old(self).terminal_screen.len(),
            old(self).terminal_screen.len() > 0,
            2 * old(self).terminal_screen.len() + 3 <= usize::MAX,
        ensures
            final(self)@ == old(self)@.write_screen(),
            final(self)@.same_input(old(self)@),
            final(self).cursor.0 <= 2 + 2 * old(self).terminal_screen.len(),
            final(self).history == old(self).history,
    {
        let ghost start = self@;
        self.clear();
        self.reset_cursors();
        self.empty_new_line(1);
        proof {
            lemma_new_lines(start.clear().reset_cursors(), 2);
        }
        let ghost mid = self@;
        let first = self.screen_cursor.0;
        let n = self.terminal_screen.len();
        assert(mid.screen.len() == n);
        assert(start.screen.len() == old(self).terminal_screen.len());
        assert(mid.screen == start.screen);
        let mut i = first;
        assert(mid.screen.subrange(first as int, first as int) =~= Seq::<(Seq<char>, ScreenColor)>::empty());
        while i < n
            invariant
                first <= i <= n,
                n == self.terminal_screen.len(),
                2 * n + 3 <= usize::MAX,
                mid.screen == super::screen_view(self.terminal_screen@),
                self@ == mid.print_screen_lines(mid.screen.subrange(first as int, i as int)),
                self.history == old(self).history,
                self.cursor.0 <= 2 + 2 * (i - first),
                mid.cursor.0 == 2,
            decreases n - i,
        {
            proof {
                lemma_print_screen_lines(mid, mid.screen.subrange(first as int, i as int));
            }
            let text = self.terminal_screen[i].0.clone();
            let color = self.terminal_screen[i].1;
            let space: usize = if color == ScreenColor::LightRed { 2 } else { 1 };
            self.emit(DrawOp::Print { row: self.cursor.0, col: self.cursor.1, text, color });
            self.cursor.0 = self.cursor.0 + space;
            assert(mid.screen.subrange(first as int, i + 1).drop_last() =~= mid.screen.subrange(
                first as int,
                i as int,
            ));
            i = i + 1;
            assert(self@ =~= mid.print_screen_lines(mid.screen.subrange(first as int, i as int)));
        }
        proof {
            lemma_print_screen_lines(mid, mid.screen.subrange(first as int, n as int));
        }
        if self.terminal_screen[n - 1].1 == ScreenColor::Yellow {
            self.cursor.0 = self.cursor.0 - 1;
        }
        self.correct_blinking_cursor_row();
        self.emit(DrawOp::Present);
        self.write_input();
        assert(final(self)@ =~= old(self)@.write_screen());
    }

    /// Moves the blinking cursor one byte back, removes the character that
    /// starts there (the first one when the cursor is at the start) and
    /// redraws the input.
    pub fn back_space(&mut self)
        requires
            old(self).history.wf(),
            old(self).blinking_cursor.1 >= 1,
            old(self).left_margin + byte_len(old(self)@.buffer) <= usize::MAX,
            ({
                let s = old(self)@.move_blinking_cursor_auto(Direction::Left);
                s.buffer.len() > 0 ==> s.col_pos() < byte_len(s.buffer) && at_char_boundary(
                    s.buffer,
                    s.col_pos(),
                )
            }),
        ensures
            final(self)@ == old(self)@.back_space(),
            final(self).history == old(self).history,
            final(self)@.ops == old(self)@.ops + seq![
                DrawModel::SetCursor { row: old(self).cursor.0 as int, col: final(self).blinking_cursor.1 as int },
                DrawModel::Print {
                    row: old(self).cursor.0 as int,
                    col: old(self).cursor.1 as int,
                    text: Seq::new(500, |i: int| ' '),
                    color: ScreenColor::LightBlue,
                },
                DrawModel::Present,
                DrawModel::SetCursor { row: old(self).cursor.0 as int, col: final(self).blinking_cursor.1 as int },
                DrawModel::Print {
                    row: old(self).cursor.0 as int,
                    col: old(self).cursor.1 as int,
                    text: " In["@ + decimal(old(self).history@.entries.len()) + "]: "@ + final(self)@.buffer,
                    color: ScreenColor::Yellow,
                },
                DrawModel::Present,
            ],
    {
        proof {
            lemma_backspace_blanks_row(old(self)@);
        }
        self.move_blinking_cursor_auto(Direction::Left);
        if self.buffer.unicode_len() > 0 {
            let pos = self.blinking_cursor_col_pos();
            self.buffer = remove_at_byte(&self.buffer, pos);
        }
        self.empty_input_line();
        self.write_input();
    }

    /// The byte position of the blinking cursor within the input.
    pub fn blinking_cursor_col_pos(&self) -> (pos: usize)
        requires
            self.blinking_cursor.1 >= self.left_margin,
        ensures
            pos == self@.col_pos(),
    {
        self.blinking_cursor.1 - self.left_margin
    }

    /// One step of the blinking cursor, kept within the input, shown.
    pub fn move_blinking_cursor_manuel(&mut self, direction: Direction)
        requires
            direction == Direction::Left ==> old(self).blinking_cursor.1 >= 1,
            direction == Direction::Right ==> old(self).blinking_cursor.1 < usize::MAX,
            old(self).left_margin + byte_len(old(self)@.buffer) <= usize::MAX,
        ensures
            final(self)@ == old(self)@.move_blinking_cursor_manuel(direction),
            final(self).history == old(self).history,
    {
        self.move_blinking_cursor_auto(direction);
        self.correct_blinking_cursor_row();
        self.emit(DrawOp::Present);
    }

    /// One byte's step of the blinking cursor, kept between the start and
    /// the end of the input.
    pub fn move_blinking_cursor_auto(&mut self, direction: Direction)
        requires
            direction == Direction::Left ==> old(self).blinking_cursor.1 >= 1,
            direction == Direction::Right ==> old(self).blinking_cursor.1 < usize::MAX,
            old(self).left_margin + byte_len(old(self)@.buffer) <= usize::MAX,
        ensures
            final(self)@ == old(self)@.move_blinking_cursor_auto(direction),
            final(self).history == old(self).history,
    {
        match direction {
            Direction::Right => self.blinking_cursor.1 = self.blinking_cursor.1 + 1,
            Direction::Left => self.blinking_cursor.1 = self.blinking_cursor.1 - 1,
        }
        if self.blinking_cursor.1 < self.left_margin {
            self.blinking_cursor.1 = self.left_margin;
        }
        let len = byte_length(self.buffer.as_str());
        if self.blinking_cursor.1 > self.left_margin + len {
            self.blinking_cursor.1 = self.left_margin + len;
        }
        assert(final(self)@ =~= old(self)@.move_blinking_cursor_auto(direction));
    }

    /// Puts the blinking cursor on the row of the writing cursor.
    pub fn correct_blinking_cursor_row(&mut self)
        ensures
            final(self)@ == old(self)@.correct_blinking_cursor_row(),
            final(self).history == old(self).history,
    {
        self.blinking_cursor.0 = self.cursor.0;
        self.emit(DrawOp::SetCursor { row: self.blinking_cursor.0, col: self.blinking_cursor.1 });
    }

    /// Puts the blinking cursor right after the last byte of the input.
    pub fn reset_blinking_cursor_col(&mut self)
        requires
            old(self).left_margin + byte_len(old(self)@.buffer) <= usize::MAX,
        ensures
            final(self)@ == old(self)@.reset_blinking_cursor_col(),
            final(self).history == old(self).history,
    {
        let len = byte_length(self.buffer.as_str());
        self.blinking_cursor.1 = len + self.left_margin;
        assert(final(self)@ =~= old(self)@.reset_blinking_cursor_col());
    }

    /// Puts the writing cursor at the top left.
    pub fn reset_cursors(&mut self)
        ensures
            final(self)@ == old(self)@.reset_cursors(),
            final(self).history == old(self).history,
    {
        self.cursor = (0, 0);
        assert(final(self)@ =~= old(self)@.reset_cursors());
    }
}

} // verus!
