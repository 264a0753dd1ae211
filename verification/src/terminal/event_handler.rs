//! What the terminal does with each key.

use vstd::prelude::*;
use crate::cargo_cmds::cargo_add_args;
use crate::enums::{Arrow, Direction, KeyWords, Kind};
use crate::helper_fns::is_it_pow;
use crate::repl::{Repl, ReplModel};
use crate::text::{at_char_boundary, byte_len, decimal_string, insert_at_byte, split_chars, chars_of, split_seq, repeat_string};
use super::{KeyEvent, Reaction, ScreenColor, Step, Terminal};
use super::laws::lemma_page_up_one_line;
use super::parser::entered;
use super::model::{TerminalModel, banner, command_of, lemma_new_lines, output_label};

verus! {

impl Terminal {
    /// Back to the end of the shown lines, redrawing if scrolled away.
    fn scroll_to_end(&mut self)
        requires
            old(self).wf(),
            2 * old(self).terminal_screen.len() + 3 <= usize::MAX,
            old(self).screen_cursor.0 != old(self).screen_cursor.1 ==> old(self).screen_cursor.1
                <= old(self).terminal_screen.len(),
        ensures
            final(self)@ == old(self)@.scroll_to_end(),
            final(self).wf(),
            final(self)@.same_input((TerminalModel { screen_cursor: final(self)@.screen_cursor, ..old(self)@ })),
            final(self).cursor.0 <= old(self).cursor.0 || final(self).cursor.0 <= 2 + 2 * old(self).terminal_screen.len(),
            final(self).history == old(self).history,
    {
        if self.screen_cursor.0 != self.screen_cursor.1 {
            self.screen_cursor.0 = self.screen_cursor.1;
            self.write_screen();
        }
    }

    /// Shows one line further back, unless at the top.
    pub fn scroll_up(&mut self)
        requires
            old(self).wf(),
            2 * old(self).terminal_screen.len() + 3 <= usize::MAX,
        ensures
            final(self)@ == old(self)@.scroll_up(),
            final(self).wf(),
            final(self).history == old(self).history,
            old(self).screen_cursor.0 > 0 ==> final(self).screen_cursor == (
                (old(self).screen_cursor.0 - 1) as usize,
                old(self).screen_cursor.1,
            ),
            old(self).screen_cursor.0 == 0 ==> final(self)@ == old(self)@,
    {
        proof {
            lemma_page_up_one_line(old(self)@);
        }
        if self.screen_cursor.0 > 0 {
            self.screen_cursor.0 = self.screen_cursor.0 - 1;
            self.write_screen();
        }
    }

    /// Tells whether the writing cursor has reached three quarters of
    /// `height`.
    pub fn low_on_screen(&self, height: usize) -> (low: bool)
        ensures
            low == self@.low_on_screen(height as int),
    {
        (self.cursor.0 as u128) * 4 >= (height as u128) * 3
    }

    /// Scrolls one line on, redrawing, when the writing cursor has reached
    /// three quarters of the screen's `height`.
    pub fn scroll_down(&mut self, height: usize)
        requires
            old(self).wf(),
            2 * old(self).terminal_screen.len() + 3 <= usize::MAX,
            old(self)@.low_on_screen(height as int) ==> old(self).screen_cursor.0 < old(self).terminal_screen.len()
                && old(self).screen_cursor.1 < usize::MAX,
        ensures
            final(self)@ == old(self)@.scroll_down(height as int),
            final(self).wf(),
            final(self)@.same_input((TerminalModel { screen_cursor: final(self)@.screen_cursor, ..old(self)@ })),
            final(self).cursor.0 <= old(self).cursor.0 || final(self).cursor.0 <= 2 + 2 * old(self).terminal_screen.len(),
            final(self).history == old(self).history,
    {
        if self.low_on_screen(height) {
            self.screen_cursor.0 = self.screen_cursor.0 + 1;
            self.screen_cursor.1 = self.screen_cursor.1 + 1;
            self.write_screen();
        }
    }

    /// Inserts a typed character at the byte position of the blinking
    /// cursor, which moves on by one, after scrolling back to the end.
    pub fn handle_character(&mut self, letter: char)
        requires
            old(self).wf(),
            2 * old(self).terminal_screen.len() + 3 <= usize::MAX,
            old(self).screen_cursor.0 != old(self).screen_cursor.1 ==> old(self).screen_cursor.1
                <= old(self).terminal_screen.len(),
            old(self).left_margin <= old(self).blinking_cursor.1,
            at_char_boundary(old(self)@.buffer, old(self)@.col_pos()),
            old(self).left_margin + byte_len(old(self)@.buffer) + 4 <= usize::MAX,
        ensures
            final(self)@ == old(self)@.handle_character(letter),
            final(self).wf(),
    {
        self.scroll_to_end();
        let pos = self.blinking_cursor_col_pos();
        proof {
            crate::text::lemma_cut_at_boundary(self@.buffer, pos as int);
            let before = crate::text::before_byte(self@.buffer, pos as int);
            let after = crate::text::after_byte(self@.buffer, pos as int);
            crate::text::lemma_encode_concat(before.push(letter), after);
            crate::text::lemma_encode_concat(before, seq![letter]);
            assert(before.push(letter) =~= before + seq![letter]);
            vstd::utf8::encode_utf8_first_scalar(seq![letter]);
            assert(seq![letter].drop_first() =~= Seq::<char>::empty());
            assert(vstd::utf8::encode_utf8(seq![letter]) == vstd::utf8::encode_scalar(letter as u32)
                + vstd::utf8::encode_utf8(Seq::<char>::empty()));
        }
        self.buffer = insert_at_byte(&self.buffer, pos, letter);
        self.move_blinking_cursor_auto(Direction::Right);
        self.write_input();
    }

    /// Replaces the input with the entry that the arrow reaches in the
    /// history, the blinking cursor after it.
    pub fn cycle_history(&mut self, to: Arrow)
        requires
            old(self).wf(),
            to == Arrow::Up ==> old(self).left_margin + byte_len(old(self)@.history.up_result()) <= usize::MAX,
            to == Arrow::Down ==> old(self).left_margin + byte_len(old(self)@.history.down_result()) <= usize::MAX,
        ensures
            final(self)@ == old(self)@.cycle_history(to),
            final(self).wf(),
    {
        match to {
            Arrow::Up => {
                self.buffer = self.history.up();
            },
            Arrow::Down => {
                self.buffer = self.history.down();
            },
        }
        self.empty_input_line();
        self.reset_blinking_cursor_col();
        self.write_input();
    }
}

impl Terminal {
    /// Takes an entered line: the prompt widens when the next prompt number
    /// gains a digit, the prompt with the input joins the shown lines, the
    /// screen scrolls if low, and the line is looked at (see
    /// `parse_first_order`).
    pub fn handle_enter_key(&mut self, repl: &mut Repl, height: usize) -> (step: Step)
        requires
            old(self).wf(),
            old(self)@.bounded(),
            old(repl)@.cursor <= old(repl)@.body.len(),
            command_of(old(self)@.buffer) == KeyWords::Add ==> split_seq(old(self)@.buffer, ' ').len() >= 2,
        ensures
            final(self).wf(),
            entered(old(self)@, old(repl)@, final(self)@, final(repl)@, step, height as int),
    {
        proof {
            self.history.lemma_prompt_numbers();
        }
        let idx = self.history.last_idx();
        if idx != 0 && is_it_pow(idx + 1, 10) {
            self.left_margin = self.left_margin + 1;
        }
        let text = self.prompt_string();
        let ghost before = screen_of(self);
        self.terminal_screen.push((text, ScreenColor::Yellow));
        assert(super::screen_view(self.terminal_screen@) =~= before.push((text@, ScreenColor::Yellow)));
        assert(self@ =~= (TerminalModel {
            left_margin: old(self)@.margin_after_enter(),
            screen: old(self)@.screen.push((old(self)@.prompt(), ScreenColor::Yellow)),
            ..old(self)@
        }));
        self.scroll_down(height);
        self.parse_first_order(repl)
    }

    /// Finishes an entered line once its kind is known: a statement or an
    /// expression joins the history (an expression's output is shown under
    /// its label) before a fresh prompt; then the history goes to its most
    /// recent entry.
    pub fn complete_enter(&mut self, kind: Kind, height: usize)
        requires
            old(self).wf(),
            old(self)@.room_for(kind),
        ensures
            final(self).wf(),
            final(self)@ == old(self)@.complete_enter(kind, height as int),
    {
        let ghost k = kind;
        match kind {
            Kind::Statement => {
                self.history.push(self.buffer.clone());
                let ghost before_lines = self@;
                self.empty_new_line(1);
                proof {
                    lemma_new_lines(before_lines, 2);
                }
                self.buffer = String::new();
                let ghost u = self@;
                self.reset_blinking_cursor_col();
                self.write_input();
                assert(u =~= (TerminalModel { buffer: Seq::empty(), ..before_lines.empty_new_line(1) }));
            },
            Kind::Expression(out) => {
                self.history.push(self.buffer.clone());
                proof {
                    self.history.lemma_prompt_numbers();
                }
                let mut label = String::from_str(" Out[");
                let idx = decimal_string(self.history.last_idx() - 1);
                label.append(idx.as_str());
                label.append("]: ");
                label.append(out.as_str());
                assert(label@ =~= output_label((self@.last_idx() - 1) as nat, out@));
                let ghost before = screen_of(self);
                self.terminal_screen.push((label, ScreenColor::LightRed));
                assert(super::screen_view(self.terminal_screen@) =~= before.push((label@, ScreenColor::LightRed)));
                self.write_output(out, height);
                self.reset_blinking_cursor_col();
                self.write_input();
            },
            Kind::Cmd => {},
        }
        self.history.go_to_last();
        assert(self@ =~= old(self)@.complete_enter(k, height as int));
    }

    /// What follows a `cargo add`: an empty row and a fresh prompt.
    pub fn finish_add(&mut self)
        requires
            old(self).wf(),
            old(self).cursor.0 < usize::MAX,
        ensures
            final(self).wf(),
            final(self)@ == old(self)@.finish_add(),
    {
        self.writeln("");
        self.buffer = String::new();
        let ghost u = self@;
        self.write_input();
        assert(""@ =~= Seq::<char>::empty()) by {
            reveal_strlit("");
        }
        assert(u =~= (TerminalModel { buffer: Seq::empty(), ..old(self)@.writeln(Seq::empty()) }));
    }

    /// Starts the program over and clears the terminal with a message
    /// saying so.
    pub fn finish_reset(&mut self, repl: &mut Repl)
        ensures
            final(repl)@ == ReplModel::initial(),
            final(self)@ == old(self)@.custom_clear("Repl reseted!"@),
            final(self).wf(),
    {
        self.reset(repl, "Repl reseted!");
    }

    /// The drawing done before the program leaves.
    pub fn exit(&mut self)
        ensures
            final(self)@ == old(self)@.exit(),
            final(self).history == old(self).history,
    {
        self.clear();
        self.reset_cursors();
        self.empty_new_line(0);
    }

    /// Sets the terminal up for a session `width` columns wide and returns
    /// the REPL with an empty program.
    pub fn prepare_repl(&mut self, width: usize) -> (repl: Repl)
        requires
            old(self).history.wf(),
            old(self).cursor.0 + 3 <= usize::MAX,
        ensures
            repl@ == ReplModel::initial(),
            final(self)@ == old(self)@.prepare_repl(width as nat),
            final(self).history == old(self).history,
            old(self).wf() ==> final(self).wf(),
    {
        let repl = Repl::new();
        self.clear();
        let mut text = repeat_string('-', width / 3);
        text.append("Welcome to Rust REPL");
        let dashes = repeat_string('-', width / 3);
        text.append(dashes.as_str());
        assert(text@ =~= banner(width as nat));
        self.write(text.as_str(), ScreenColor::Blue);
        let ghost before_lines = self@;
        self.empty_new_line(2);
        proof {
            lemma_new_lines(before_lines, 3);
        }
        self.write_input();
        repl
    }
}

impl Terminal {
    /// Reacts to a key: arrows walk the history or move the blinking
    /// cursor, Page Up and Page Down scroll, Backspace deletes, Enter takes
    /// the line, Ctrl-L clears, Ctrl-C says goodbye, and a character is
    /// typed; any other key is ignored.
    pub fn handle_key(&mut self, key: KeyEvent, repl: &mut Repl, height: usize) -> (reaction: Reaction)
        requires
            old(self).wf(),
            old(self)@.bounded(),
            old(self)@.key_ok(key, height as int),
            old(repl)@.cursor <= old(repl)@.body.len(),
        ensures
            final(self).wf(),
            key == KeyEvent::Enter ==> (reaction matches Reaction::Entered(step) && entered(
                old(self)@,
                old(repl)@,
                final(self)@,
                final(repl)@,
                step,
                height as int,
            )),
            key != KeyEvent::Enter ==> final(self)@ == old(self)@.on_key(key, height as int)
                && final(repl)@ == old(repl)@,
            key == KeyEvent::Ctrl('c') ==> reaction is Exit,
            key != KeyEvent::Enter && key != KeyEvent::Ctrl('c') ==> reaction is Done,
    {
        match key {
            KeyEvent::Up => self.cycle_history(Arrow::Up),
            KeyEvent::Down => self.cycle_history(Arrow::Down),
            KeyEvent::Right => self.move_blinking_cursor_manuel(Direction::Right),
            KeyEvent::Left => self.move_blinking_cursor_manuel(Direction::Left),
            KeyEvent::Enter => {
                let step = self.handle_enter_key(repl, height);
                return Reaction::Entered(step);
            },
            KeyEvent::PageUp => self.scroll_up(),
            KeyEvent::PageDown => self.scroll_down(height),
            KeyEvent::Backspace => self.back_space(),
            KeyEvent::CtrlLeft => {},
            KeyEvent::Ctrl(c) => {
                if c == 'l' {
                    self.custom_clear("");
                    assert(""@ =~= Seq::<char>::empty()) by {
                        reveal_strlit("");
                    }
                } else if c == 'c' {
                    self.exit();
                    return Reaction::Exit;
                }
            },
            KeyEvent::Char(letter) => self.handle_character(letter),
            KeyEvent::Other => {},
        }
        Reaction::Done
    }

    /// Tells whether `handle_key` may take `key`: every counter is within
    /// bounds and the key stays inside what the terminal holds.
    pub fn can_handle(&self, key: KeyEvent, height: usize) -> (ok: bool)
        requires
            self.wf(),
        ensures
            ok == (self@.bounded() && self@.key_ok(key, height as int)),
    {
        let b = usize::MAX / 8;
        let buffer_len = crate::text::byte_length(self.buffer.as_str());
        let bounded = self.cursor.0 <= b && self.cursor.1 <= b && self.blinking_cursor.0 <= b
            && self.blinking_cursor.1 <= b && self.left_margin <= b && self.screen_cursor.1 <= b
            && self.terminal_screen.len() <= b && self.history.len() <= b && buffer_len <= b;
        if !bounded {
            return false;
        }
        proof {
            crate::text::lemma_encode_empty(self@.buffer);
        }
        match key {
            KeyEvent::Up => self.left_margin.checked_add(self.history.up_entry_len()).is_some(),
            KeyEvent::Down => self.left_margin.checked_add(self.history.down_entry_len()).is_some(),
            KeyEvent::Char(_) => {
                self.left_margin <= self.blinking_cursor.1 && self.buffer.as_str().is_char_boundary(
                    self.blinking_cursor.1 - self.left_margin,
                ) && (self.screen_cursor.0 == self.screen_cursor.1 || self.screen_cursor.1
                    <= self.terminal_screen.len())
            },
            KeyEvent::Backspace => {
                // where the blinking cursor lands one byte back
                let stepped = self.blinking_cursor.1 - 1;
                let low = if stepped < self.left_margin { self.left_margin } else { stepped };
                let col = if low > self.left_margin + buffer_len {
                    self.left_margin + buffer_len
                } else {
                    low
                };
                let pos = col - self.left_margin;
                buffer_len == 0 || (pos < buffer_len && self.buffer.as_str().is_char_boundary(pos))
            },
            KeyEvent::PageDown => !self.low_on_screen(height) || self.screen_cursor.0
                < self.terminal_screen.len(),
            KeyEvent::Enter => self.command() != KeyWords::Add || cargo_add_args(self.buffer.as_str()).is_some(),
            _ => true,
        }
    }

    /// Tells whether `complete_enter` may take `kind`: there is room in
    /// every counter for it.
    pub fn room_for(&self, kind: &Kind) -> (ok: bool)
        ensures
            ok == self@.room_for(*kind),
    {
        match kind {
            Kind::Statement => self.history.len() < usize::MAX && self.cursor.0 <= usize::MAX - 3,
            Kind::Expression(out) => {
                let text = chars_of(out.as_str());
                let chunks = split_chars(text.as_slice(), '\n');
                proof {
                    assert(chunks@.len() == split_seq(out@, '\n').len());
                }
                self.history.len() < usize::MAX && self.cursor.0 <= usize::MAX - 3 && chunks.len()
                    <= usize::MAX - 3 - self.cursor.0 && self.terminal_screen.len() <= (usize::MAX - 7) / 2
                    && self.screen_cursor.1 < usize::MAX
            },
            Kind::Cmd => true,
        }
    }
}

/// The views of the shown lines of `t`.
spec fn screen_of(t: &Terminal) -> Seq<(Seq<char>, ScreenColor)> {
    super::screen_view(t.terminal_screen@)
}

} // verus!
