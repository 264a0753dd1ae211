//! What the terminal holds and what each of its operations does to it,
//! stated over sequences and integers. The executable terminal is proved
//! to follow these transitions exactly.

use vstd::prelude::*;
use crate::enums::{Arrow, Direction, KeyWords, Kind};
use crate::helper_fns::is_power_of;
use crate::history::HistoryModel;
use crate::text::{
    after_byte, at_char_boundary, before_byte, byte_len, decimal, lemma_cut_after_prefix, lemma_cut_at_boundary,
    lemma_encode_concat, lemma_encode_empty, split_seq,
};
use vstd::utf8::{encode_scalar, encode_utf8};
use super::{KeyEvent, ScreenColor};

verus! {

/// One drawing command for the screen.
pub enum DrawModel {
    Clear,
    Present,
    Print { row: int, col: int, text: Seq<char>, color: ScreenColor },
    SetCursor { row: int, col: int },
}

/// The state of the terminal: the input line, the writing cursor, the
/// history, the blinking cursor, the lines shown so far, the width of the
/// prompt, the scroll offsets, and the drawing commands issued so far.
#[verifier::ext_equal]
pub struct TerminalModel {
    pub buffer: Seq<char>,
    pub cursor: (int, int),
    pub history: HistoryModel,
    pub blinking_cursor: (int, int),
    pub screen: Seq<(Seq<char>, ScreenColor)>,
    pub left_margin: int,
    pub screen_cursor: (int, int),
    pub ops: Seq<DrawModel>,
}

/// `n` copies of `c`.
pub open spec fn repeat_char(c: char, n: nat) -> Seq<char> {
    Seq::new(n, |i: int| c)
}

/// The prompt ` In[idx]: ` followed by the input.
pub open spec fn prompt_text(idx: nat, buffer: Seq<char>) -> Seq<char> {
    " In["@ + decimal(idx) + "]: "@ + buffer
}

/// The first line of an output, labelled ` Out[idx]: `.
pub open spec fn output_label(idx: nat, text: Seq<char>) -> Seq<char> {
    " Out["@ + decimal(idx) + "]: "@ + text
}

/// A line of output after the first, indented under the label.
pub open spec fn output_continuation(text: Seq<char>) -> Seq<char> {
    repeat_char(' ', 12) + text
}

/// The line written over the input line to blank it.
pub open spec fn blank_line() -> Seq<char> {
    repeat_char(' ', 500)
}

/// The welcome line for a terminal `width` columns wide.
pub open spec fn banner(width: nat) -> Seq<char> {
    repeat_char('-', width / 3) + "Welcome to Rust REPL"@ + repeat_char('-', width / 3)
}

/// The heading under which the program is shown.
pub open spec fn show_text(program: Seq<char>) -> Seq<char> {
    "Current Repl Code:\n"@ + program
}

/// The command an entered line asks for: `reset` and `show` exactly, any
/// line that starts with `add`, and code otherwise.
pub open spec fn command_of(line: Seq<char>) -> KeyWords {
    if line == "reset"@ {
        KeyWords::Reset
    } else if line == "show"@ {
        KeyWords::Show
    } else if line.len() >= 3 && line.take(3) == "add"@ {
        KeyWords::Add
    } else {
        KeyWords::Code
    }
}

/// An entered line of code is a statement when it ends with `;`.
pub open spec fn is_statement(line: Seq<char>) -> bool {
    line.len() > 0 && line.last() == ';'
}

/// The text of output line `i` of an output whose label number is `idx`.
pub open spec fn output_line(i: int, chunk: Seq<char>, idx: nat) -> Seq<char> {
    if i != 0 {
        output_continuation(chunk)
    } else {
        output_label(idx, chunk)
    }
}

impl TerminalModel {
    /// The terminal as it starts: empty input, prompt eight columns wide.
    pub open spec fn initial() -> TerminalModel {
        TerminalModel {
            buffer: Seq::empty(),
            cursor: (0, 0),
            history: HistoryModel::initial(),
            blinking_cursor: (0, 8),
            screen: Seq::empty(),
            left_margin: 8,
            screen_cursor: (0, 0),
            ops: Seq::empty(),
        }
    }

    pub open spec fn emit(self, op: DrawModel) -> TerminalModel {
        TerminalModel { ops: self.ops.push(op), ..self }
    }

    /// The number of the current prompt.
    pub open spec fn last_idx(self) -> nat {
        self.history.entries.len()
    }

    /// The current prompt with the input.
    pub open spec fn prompt(self) -> Seq<char> {
        prompt_text(self.last_idx(), self.buffer)
    }

    /// The byte position of the blinking cursor within the input.
    pub open spec fn col_pos(self) -> int {
        self.blinking_cursor.1 - self.left_margin
    }

    /// Clears the screen and shows it.
    pub open spec fn clear(self) -> TerminalModel {
        self.emit(DrawModel::Clear).emit(DrawModel::Present)
    }

    /// Moves the blinking cursor to the row of the writing cursor.
    pub open spec fn correct_blinking_cursor_row(self) -> TerminalModel {
        let s = TerminalModel { blinking_cursor: (self.cursor.0, self.blinking_cursor.1), ..self };
        s.emit(DrawModel::SetCursor { row: s.blinking_cursor.0, col: s.blinking_cursor.1 })
    }

    /// Prints `msg` at the writing cursor in `color`, the blinking cursor
    /// on the same row, and shows it.
    pub open spec fn write(self, msg: Seq<char>, color: ScreenColor) -> TerminalModel {
        self.correct_blinking_cursor_row().emit(
            DrawModel::Print { row: self.cursor.0, col: self.cursor.1, text: msg, color },
        ).emit(DrawModel::Present)
    }

    /// Writes `msg` on the next row.
    pub open spec fn writeln(self, msg: Seq<char>) -> TerminalModel {
        TerminalModel { cursor: (self.cursor.0 + 1, self.cursor.1), ..self }.write(
            msg,
            ScreenColor::LightRed,
        )
    }

    /// `k` empty rows written.
    pub open spec fn new_lines(self, k: nat) -> TerminalModel
        decreases k,
    {
        if k == 0 {
            self
        } else {
            self.new_lines((k - 1) as nat).writeln(Seq::empty())
        }
    }

    /// With `n == 0`, an empty write in place; otherwise `n + 1` empty rows.
    pub open spec fn empty_new_line(self, n: nat) -> TerminalModel {
        if n == 0 {
            self.write(Seq::empty(), ScreenColor::Default)
        } else {
            self.new_lines(n + 1)
        }
    }

    /// Writes the prompt with the input.
    pub open spec fn write_input(self) -> TerminalModel {
        self.write(self.prompt(), ScreenColor::Yellow)
    }

    /// Blanks the input row.
    pub open spec fn empty_input_line(self) -> TerminalModel {
        self.write(blank_line(), ScreenColor::LightBlue)
    }

    pub open spec fn reset_cursors(self) -> TerminalModel {
        TerminalModel { cursor: (0, 0), ..self }
    }

    /// The blinking cursor put right after the input.
    pub open spec fn reset_blinking_cursor_col(self) -> TerminalModel {
        TerminalModel {
            blinking_cursor: (self.blinking_cursor.0, byte_len(self.buffer) + self.left_margin),
            ..self
        }
    }

    /// One step of the blinking cursor, kept between the start and the
    /// end of the input.
    pub open spec fn move_blinking_cursor_auto(self, direction: Direction) -> TerminalModel {
        let stepped = match direction {
            Direction::Right => self.blinking_cursor.1 + 1,
            Direction::Left => self.blinking_cursor.1 - 1,
        };
        let low = if stepped < self.left_margin { self.left_margin } else { stepped };
        let col = if low > self.left_margin + byte_len(self.buffer) {
            self.left_margin + byte_len(self.buffer)
        } else {
            low
        };
        TerminalModel { blinking_cursor: (self.blinking_cursor.0, col), ..self }
    }

    /// A step of the blinking cursor asked for with an arrow key.
    pub open spec fn move_blinking_cursor_manuel(self, direction: Direction) -> TerminalModel {
        self.move_blinking_cursor_auto(direction).correct_blinking_cursor_row().emit(
            DrawModel::Present,
        )
    }

    /// Prints one shown line and moves down past it (two rows for output).
    pub open spec fn print_screen_line(self, line: (Seq<char>, ScreenColor)) -> TerminalModel {
        let space: int = if line.1 == ScreenColor::LightRed { 2 } else { 1 };
        TerminalModel {
            cursor: (self.cursor.0 + space, self.cursor.1),
            ..self.emit(DrawModel::Print { row: self.cursor.0, col: self.cursor.1, text: line.0, color: line.1 })
        }
    }

    pub open spec fn print_screen_lines(self, lines: Seq<(Seq<char>, ScreenColor)>) -> TerminalModel
        decreases lines.len(),
    {
        if lines.len() == 0 {
            self
        } else {
            self.print_screen_lines(lines.drop_last()).print_screen_line(lines.last())
        }
    }

    /// Redraws the shown lines from the scroll offset on, then the input.
    pub open spec fn write_screen(self) -> TerminalModel {
        let s = self.clear().reset_cursors().empty_new_line(1).print_screen_lines(
            self.screen.subrange(self.screen_cursor.0, self.screen.len() as int),
        );
        let t = if self.screen.last().1 == ScreenColor::Yellow {
            TerminalModel { cursor: (s.cursor.0 - 1, s.cursor.1), ..s }
        } else {
            s
        };
        t.correct_blinking_cursor_row().emit(DrawModel::Present).write_input()
    }

    /// Back to the end of the shown lines, redrawing if scrolled away.
    pub open spec fn scroll_to_end(self) -> TerminalModel {
        if self.screen_cursor.0 != self.screen_cursor.1 {
            TerminalModel {
                screen_cursor: (self.screen_cursor.1, self.screen_cursor.1),
                ..self
            }.write_screen()
        } else {
            self
        }
    }

    /// One line further back, unless at the top.
    pub open spec fn scroll_up(self) -> TerminalModel {
        if self.screen_cursor.0 > 0 {
            TerminalModel {
                screen_cursor: (self.screen_cursor.0 - 1, self.screen_cursor.1),
                ..self
            }.write_screen()
        } else {
            self
        }
    }

    /// The writing cursor has reached three quarters of the height.
    pub open spec fn low_on_screen(self, height: int) -> bool {
        4 * self.cursor.0 >= 3 * height
    }

    /// Scrolls one line on when the writing cursor is low on the screen.
    pub open spec fn scroll_down(self, height: int) -> TerminalModel {
        if self.low_on_screen(height) {
            TerminalModel {
                screen_cursor: (self.screen_cursor.0 + 1, self.screen_cursor.1 + 1),
                ..self
            }.write_screen()
        } else {
            self
        }
    }

    /// A typed character inserted at the byte position of the blinking
    /// cursor, which moves on by one.
    pub open spec fn handle_character(self, letter: char) -> TerminalModel {
        let s = self.scroll_to_end();
        TerminalModel {
            buffer: before_byte(s.buffer, s.col_pos()).push(letter) + after_byte(s.buffer, s.col_pos()),
            ..s
        }.move_blinking_cursor_auto(
            Direction::Right,
        ).write_input()
    }

    /// The blinking cursor moved one byte back and the character that
    /// starts there removed (the first one when the cursor is at the start).
    pub open spec fn back_space(self) -> TerminalModel {
        let s = self.move_blinking_cursor_auto(Direction::Left);
        let t = if s.buffer.len() > 0 {
            TerminalModel {
                buffer: before_byte(s.buffer, s.col_pos()) + after_byte(s.buffer, s.col_pos()).drop_first(),
                ..s
            }
        } else {
            s
        };
        t.empty_input_line().write_input()
    }

    /// The input replaced by the entry that the arrow reaches.
    pub open spec fn cycle_history(self, to: Arrow) -> TerminalModel {
        let s = match to {
            Arrow::Up => TerminalModel {
                buffer: self.history.up_result(),
                history: self.history.up(),
                ..self
            },
            Arrow::Down => TerminalModel {
                buffer: self.history.down_result(),
                history: self.history.down(),
                ..self
            },
        };
        s.empty_input_line().reset_blinking_cursor_col().write_input()
    }

    /// Everything shown and remembered is dropped; `msg`, if any, is
    /// written, then a fresh prompt.
    pub open spec fn custom_clear(self, msg: Seq<char>) -> TerminalModel {
        let s = TerminalModel { left_margin: 8, ..self }.clear();
        let t = TerminalModel {
            history: HistoryModel::initial(),
            cursor: (0, 0),
            blinking_cursor: (s.blinking_cursor.0, 8),
            screen: Seq::empty(),
            screen_cursor: (0, 0),
            ..s
        };
        let u = if msg.len() > 0 { t.writeln(msg) } else { t };
        TerminalModel { buffer: Seq::empty(), ..u.empty_new_line(1) }.write_input()
    }

    /// The drawing done before the program leaves.
    pub open spec fn exit(self) -> TerminalModel {
        self.clear().reset_cursors().empty_new_line(0)
    }

    /// The lines of an output written one per row, the first labelled.
    pub open spec fn output_lines(self, chunks: Seq<Seq<char>>, idx: nat) -> TerminalModel
        decreases chunks.len(),
    {
        if chunks.len() == 0 {
            self
        } else {
            self.output_lines(chunks.drop_last(), idx).writeln(
                output_line(chunks.len() - 1, chunks.last(), idx),
            )
        }
    }

    /// An output shown under the label of the previous prompt, then a
    /// fresh prompt.
    pub open spec fn write_output(self, out: Seq<char>, height: int) -> TerminalModel {
        let s = self.output_lines(split_seq(out, '\n'), (self.last_idx() - 1) as nat).scroll_down(
            height,
        ).empty_new_line(1);
        TerminalModel { buffer: Seq::empty(), ..s }.write_input()
    }

    /// The terminal set up for a session `width` columns wide.
    pub open spec fn prepare_repl(self, width: nat) -> TerminalModel {
        self.clear().write(banner(width), ScreenColor::Blue).empty_new_line(2).write_input()
    }

    /// The prompt width after an entered line: one more when the next
    /// prompt number gains a digit.
    pub open spec fn margin_after_enter(self) -> int {
        if self.last_idx() != 0 && is_power_of(self.last_idx() + 1int, 10) {
            self.left_margin + 1
        } else {
            self.left_margin
        }
    }

    /// What happens when a line is entered, before it is looked at: the
    /// prompt with the input joins the shown lines.
    pub open spec fn begin_enter(self, height: int) -> TerminalModel {
        TerminalModel {
            left_margin: self.margin_after_enter(),
            screen: self.screen.push((self.prompt(), ScreenColor::Yellow)),
            ..self
        }.scroll_down(height)
    }

    /// The program shown in answer to `show`.
    pub open spec fn show_program(self, program: Seq<char>) -> TerminalModel {
        let s = self.writeln(show_text(program)).empty_new_line(1);
        TerminalModel { buffer: Seq::empty(), ..s }.reset_blinking_cursor_col().write_input()
    }

    /// What follows a `cargo add`: an empty row and a fresh prompt.
    pub open spec fn finish_add(self) -> TerminalModel {
        let s = self.writeln(Seq::empty());
        TerminalModel { buffer: Seq::empty(), ..s }.write_input()
    }

    /// There is room in every counter for finishing an entered line of
    /// this kind.
    pub open spec fn room_for(self, kind: Kind) -> bool {
        match kind {
            Kind::Statement => {
                &&& self.history.entries.len() < usize::MAX
                &&& self.cursor.0 + 3 <= usize::MAX
            },
            Kind::Expression(out) => {
                &&& self.history.entries.len() < usize::MAX
                &&& self.cursor.0 + split_seq(out@, '\n').len() + 3 <= usize::MAX
                &&& 2 * self.screen.len() + 7 <= usize::MAX
                &&& self.screen_cursor.1 < usize::MAX
            },
            Kind::Cmd => true,
        }
    }

    /// The key can be handled without an index out of range: a history
    /// entry recalled fits beside the prompt, a typed character goes at a
    /// character boundary inside the input (and going back to the end of
    /// the shown lines stays within them), a deleted character starts at a
    /// boundary inside the input, and scrolling on stays within the shown
    /// lines; an entered `add` line names something to add.
    pub open spec fn key_ok(self, key: KeyEvent, height: int) -> bool {
        match key {
            KeyEvent::Up => self.left_margin + byte_len(self.history.up_result()) <= usize::MAX,
            KeyEvent::Down => self.left_margin + byte_len(self.history.down_result()) <= usize::MAX,
            KeyEvent::Char(_) => {
                &&& self.left_margin <= self.blinking_cursor.1
                &&& at_char_boundary(self.buffer, self.col_pos())
                &&& self.screen_cursor.0 != self.screen_cursor.1 ==> self.screen_cursor.1 <= self.screen.len()
            },
            KeyEvent::Backspace => {
                let s = self.move_blinking_cursor_auto(Direction::Left);
                s.buffer.len() > 0 ==> s.col_pos() < byte_len(s.buffer) && at_char_boundary(
                    s.buffer,
                    s.col_pos(),
                )
            },
            KeyEvent::PageDown => self.low_on_screen(height) ==> self.screen_cursor.0 < self.screen.len(),
            KeyEvent::Enter => command_of(self.buffer) == KeyWords::Add ==> split_seq(self.buffer, ' ').len() >= 2,
            _ => true,
        }
    }

    /// What a key other than Enter does.
    pub open spec fn on_key(self, key: KeyEvent, height: int) -> TerminalModel {
        match key {
            KeyEvent::Up => self.cycle_history(Arrow::Up),
            KeyEvent::Down => self.cycle_history(Arrow::Down),
            KeyEvent::Right => self.move_blinking_cursor_manuel(Direction::Right),
            KeyEvent::Left => self.move_blinking_cursor_manuel(Direction::Left),
            KeyEvent::PageUp => self.scroll_up(),
            KeyEvent::PageDown => self.scroll_down(height),
            KeyEvent::Backspace => self.back_space(),
            KeyEvent::Ctrl(c) => if c == 'l' {
                self.custom_clear(Seq::empty())
            } else if c == 'c' {
                self.exit()
            } else {
                self
            },
            KeyEvent::Char(c) => self.handle_character(c),
            _ => self,
        }
    }

    /// `self` and `other` agree on everything but the writing cursor, the
    /// row of the blinking cursor and the drawing commands.
    pub open spec fn same_input(self, other: TerminalModel) -> bool {
        &&& self.buffer == other.buffer
        &&& self.history == other.history
        &&& self.blinking_cursor.1 == other.blinking_cursor.1
        &&& self.screen == other.screen
        &&& self.left_margin == other.left_margin
        &&& self.screen_cursor == other.screen_cursor
    }

    /// The end of handling an entered line, once its kind is known.
    pub open spec fn complete_enter(self, kind: Kind, height: int) -> TerminalModel {
        let s = match kind {
            Kind::Statement => {
                let a = TerminalModel { history: self.history.push(self.buffer), ..self }.empty_new_line(1);
                TerminalModel { buffer: Seq::empty(), ..a }.reset_blinking_cursor_col().write_input()
            },
            Kind::Expression(out) => {
                let a = TerminalModel { history: self.history.push(self.buffer), ..self };
                let b = TerminalModel {
                    screen: a.screen.push(
                        (output_label((a.last_idx() - 1) as nat, out@), ScreenColor::LightRed),
                    ),
                    ..a
                };
                b.write_output(out@, height).reset_blinking_cursor_col().write_input()
            },
            Kind::Cmd => self,
        };
        TerminalModel { history: s.history.go_to_last(), ..s }
    }
}

/// Writing empty rows moves the writing cursor down by their number and
/// changes nothing but the cursors and the drawing commands.
pub proof fn lemma_new_lines(m: TerminalModel, k: nat)
    ensures
        m.new_lines(k).same_input(m),
        m.new_lines(k).cursor == (m.cursor.0 + k, m.cursor.1),
        k > 0 ==> m.new_lines(k).blinking_cursor.0 == m.cursor.0 + k,
        k == 0 ==> m.new_lines(k) == m,
    decreases k,
{
    if k > 0 {
        lemma_new_lines(m, (k - 1) as nat);
    }
}

/// Printing shown lines moves the writing cursor down by one or two rows
/// each and changes nothing but the writing cursor and the commands.
pub proof fn lemma_print_screen_lines(m: TerminalModel, lines: Seq<(Seq<char>, ScreenColor)>)
    ensures
        m.print_screen_lines(lines).same_input(m),
        m.print_screen_lines(lines).blinking_cursor == m.blinking_cursor,
        m.print_screen_lines(lines).cursor.1 == m.cursor.1,
        m.cursor.0 + lines.len() <= m.print_screen_lines(lines).cursor.0 <= m.cursor.0 + 2 * lines.len(),
    decreases lines.len(),
{
    if lines.len() > 0 {
        lemma_print_screen_lines(m, lines.drop_last());
    }
}

/// Writing the lines of an output moves the writing cursor down by their
/// number and changes nothing but the cursors and the commands.
pub proof fn lemma_output_lines(m: TerminalModel, chunks: Seq<Seq<char>>, idx: nat)
    ensures
        m.output_lines(chunks, idx).same_input(m),
        m.output_lines(chunks, idx).cursor == (m.cursor.0 + chunks.len(), m.cursor.1),
        chunks.len() > 0 ==> m.output_lines(chunks, idx).blinking_cursor.0 == m.cursor.0 + chunks.len(),
    decreases chunks.len(),
{
    if chunks.len() > 0 {
        lemma_output_lines(m, chunks.drop_last(), idx);
    }
}

/// Redrawing the screen changes nothing but the cursors and the commands.
pub proof fn lemma_write_screen(m: TerminalModel)
    ensures
        m.write_screen().same_input(m),
{
    let a = m.clear().reset_cursors();
    lemma_new_lines(a, 2);
    let b = a.empty_new_line(1);
    lemma_print_screen_lines(b, m.screen.subrange(m.screen_cursor.0, m.screen.len() as int));
}

/// Scrolling changes nothing but the scroll offsets, the cursors and the
/// commands.
pub proof fn lemma_scrolls(m: TerminalModel, height: int)
    ensures
        m.scroll_to_end().buffer == m.buffer,
        m.scroll_to_end().history == m.history,
        m.scroll_to_end().left_margin == m.left_margin,
        m.scroll_to_end().blinking_cursor.1 == m.blinking_cursor.1,
        m.scroll_to_end().screen == m.screen,
        m.scroll_down(height).buffer == m.buffer,
        m.scroll_down(height).history == m.history,
        m.scroll_down(height).left_margin == m.left_margin,
        m.scroll_down(height).blinking_cursor.1 == m.blinking_cursor.1,
        m.scroll_down(height).screen == m.screen,
{
    lemma_write_screen(TerminalModel { screen_cursor: (m.screen_cursor.1, m.screen_cursor.1), ..m });
    lemma_write_screen(TerminalModel { screen_cursor: (m.screen_cursor.0 + 1, m.screen_cursor.1 + 1), ..m });
}

impl TerminalModel {
    /// The blinking cursor is on the input: from its start to just past
    /// its last byte.
    pub open spec fn in_range(self) -> bool {
        self.left_margin <= self.blinking_cursor.1 <= self.left_margin + byte_len(self.buffer)
    }
}

/// Moving the blinking cursor always leaves it on the input, wherever it
/// was before.
pub proof fn lemma_move_lands_in_range(m: TerminalModel, direction: Direction)
    ensures
        m.move_blinking_cursor_auto(direction).in_range(),
        m.move_blinking_cursor_manuel(direction).in_range(),
{
}

/// Typing a character at a character boundary keeps the blinking cursor
/// on the input, as does walking the history.
pub proof fn lemma_editing_stays_in_range(m: TerminalModel, letter: char, to: Arrow)
    requires
        m.in_range(),
        at_char_boundary(m.buffer, m.col_pos()),
    ensures
        m.handle_character(letter).in_range(),
        m.cycle_history(to).in_range(),
{
    lemma_scrolls(m, 0);
    let p = m.col_pos();
    lemma_cut_at_boundary(m.buffer, p);
    let before = before_byte(m.buffer, p);
    let after = after_byte(m.buffer, p);
    lemma_encode_concat(before.push(letter), after);
    lemma_encode_concat(before, seq![letter]);
    assert(before.push(letter) =~= before + seq![letter]);
    lemma_encode_empty(seq![letter]);
}

/// Deleting a character that starts at a character boundary inside the
/// input keeps the blinking cursor on the input.
pub proof fn lemma_deleting_stays_in_range(m: TerminalModel)
    requires
        m.key_ok(KeyEvent::Backspace, 0),
    ensures
        m.back_space().in_range(),
{
    let s = m.move_blinking_cursor_auto(Direction::Left);
    if s.buffer.len() > 0 {
        let p = s.col_pos();
        lemma_cut_at_boundary(s.buffer, p);
        let before = before_byte(s.buffer, p);
        let after = after_byte(s.buffer, p);
        lemma_encode_empty(after);
        assert(encode_utf8(after) == encode_scalar(after[0] as u32) + encode_utf8(after.drop_first()));
        lemma_encode_concat(before, after.drop_first());
    }
}

/// Typing a character at a character boundary and then deleting it gives
/// back the input and the position of the blinking cursor.
pub proof fn lemma_backspace_undoes_typing(m: TerminalModel, letter: char)
    requires
        m.in_range(),
        at_char_boundary(m.buffer, m.col_pos()),
    ensures
        m.handle_character(letter).back_space().buffer == m.buffer,
        m.handle_character(letter).back_space().blinking_cursor.1 == m.blinking_cursor.1,
{
    lemma_scrolls(m, 0);
    let p = m.col_pos();
    lemma_cut_at_boundary(m.buffer, p);
    let before = before_byte(m.buffer, p);
    let after = after_byte(m.buffer, p);
    lemma_encode_concat(before.push(letter), after);
    lemma_encode_concat(before, seq![letter]);
    assert(before.push(letter) =~= before + seq![letter]);
    lemma_encode_empty(seq![letter]);
    let typed = m.handle_character(letter);
    assert(typed.buffer == before.push(letter) + after);
    assert(typed.blinking_cursor.1 == m.blinking_cursor.1 + 1);
    let back = typed.move_blinking_cursor_auto(Direction::Left);
    assert(back.blinking_cursor.1 == m.blinking_cursor.1);
    assert(before.push(letter) + after =~= before + (seq![letter] + after));
    lemma_cut_after_prefix(before, seq![letter] + after);
    assert((seq![letter] + after).drop_first() =~= after);
    assert(back.buffer.len() > 0);
}

/// An entered statement or expression becomes the newest history entry,
/// so the next prompt is numbered one higher; a command of the REPL adds
/// nothing. Either way the history is left at its most recent entry.
pub proof fn lemma_enter_records_line(m: TerminalModel, kind: Kind, height: int)
    ensures
        m.complete_enter(kind, height).history == (match kind {
            Kind::Cmd => m.history,
            _ => m.history.push(m.buffer),
        }).go_to_last(),
{
    match kind {
        Kind::Statement => {
            let a = TerminalModel { history: m.history.push(m.buffer), ..m };
            lemma_new_lines(a, 2);
        },
        Kind::Expression(out) => {
            let a = TerminalModel { history: m.history.push(m.buffer), ..m };
            let b = TerminalModel {
                screen: a.screen.push((output_label((a.last_idx() - 1) as nat, out@), ScreenColor::LightRed)),
                ..a
            };
            let chunks = split_seq(out@, '\n');
            let idx = (b.last_idx() - 1) as nat;
            lemma_output_lines(b, chunks, idx);
            let c = b.output_lines(chunks, idx);
            lemma_scrolls(c, height);
            lemma_new_lines(c.scroll_down(height), 2);
        },
        Kind::Cmd => {},
    }
}

/// Clearing forgets the input, the history and the shown lines, and puts
/// the prompt back to its first width with the blinking cursor at its end.
pub proof fn lemma_clear_forgets(m: TerminalModel, msg: Seq<char>)
    ensures
        m.custom_clear(msg).buffer == Seq::<char>::empty(),
        m.custom_clear(msg).history == HistoryModel::initial(),
        m.custom_clear(msg).screen == Seq::<(Seq<char>, ScreenColor)>::empty(),
        m.custom_clear(msg).screen_cursor == (0int, 0int),
        m.custom_clear(msg).left_margin == 8,
        m.custom_clear(msg).blinking_cursor.1 == 8,
{
    let s = TerminalModel { left_margin: 8, ..m }.clear();
    let t = TerminalModel {
        history: HistoryModel::initial(),
        cursor: (0, 0),
        blinking_cursor: (s.blinking_cursor.0, 8),
        screen: Seq::empty(),
        screen_cursor: (0, 0),
        ..s
    };
    let u = if msg.len() > 0 { t.writeln(msg) } else { t };
    lemma_new_lines(u, 2);
}

} // verus!
