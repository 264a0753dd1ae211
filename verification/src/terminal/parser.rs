//! Deciding what an entered line asks for.

use vstd::prelude::*;
use crate::enums::{KeyWords, Kind};
use crate::eval::{debug_print_statement, eval};
use crate::repl::{Repl, ReplModel};
use crate::text::{chars_of, split_seq};
use super::{Step, Terminal};
use super::laws::lemma_command_recognition;
use super::model::{TerminalModel, command_of, is_statement, lemma_new_lines};

verus! {

/// The outcome of entering the line of `before` into the REPL whose state
/// was `repl_before`: the terminal state and program afterwards, and the
/// step left to the caller, decided by the command the line asks for.
pub open spec fn entered(
    before: TerminalModel,
    repl_before: ReplModel,
    after: TerminalModel,
    repl_after: ReplModel,
    step: Step,
    height: int,
) -> bool {
    let line = before.buffer;
    let begun = before.begin_enter(height);
    match command_of(line) {
        KeyWords::Code => {
            &&& after == begun
            &&& if is_statement(line) {
                &&& step matches Step::Complete(Kind::Statement)
                &&& repl_after == repl_before.insert(line)
            } else {
                &&& step matches Step::Run(code)
                &&& code@ == repl_before.insert(debug_print_statement(line)).program()
                &&& repl_after == repl_before
            }
        },
        KeyWords::Reset => {
            &&& after == begun
            &&& step matches Step::Reset
            &&& repl_after == repl_before
        },
        KeyWords::Show => {
            &&& after == begun.show_program(repl_before.program())
            &&& step matches Step::Complete(Kind::Cmd)
            &&& repl_after == repl_before
        },
        KeyWords::Add => {
            &&& after == begun
            &&& step matches Step::Add(l)
            &&& l@ == line
            &&& repl_after == repl_before
        },
    }
}

impl Terminal {
    /// The command that the input asks for.
    pub fn command(&self) -> (cmd: KeyWords)
        ensures
            cmd == command_of(self@.buffer),
            (cmd == KeyWords::Reset) == (self@.buffer == "reset"@),
            (cmd == KeyWords::Show) == (self@.buffer == "show"@),
            (cmd == KeyWords::Add) == (self@.buffer != "reset"@ && self@.buffer != "show"@
                && self@.buffer.len() >= 3 && self@.buffer[0] == 'a' && self@.buffer[1] == 'd'
                && self@.buffer[2] == 'd'),
    {
        proof {
            lemma_command_recognition(self@.buffer);
        }
        let reset = String::from_str("reset");
        let show = String::from_str("show");
        if self.buffer == reset {
            return KeyWords::Reset;
        }
        if self.buffer == show {
            return KeyWords::Show;
        }
        let cs = chars_of(self.buffer.as_str());
        proof {
            reveal_strlit("add");
        }
        if cs.len() >= 3 && cs[0] == 'a' && cs[1] == 'd' && cs[2] == 'd' {
            assert(self@.buffer.take(3) =~= "add"@);
            KeyWords::Add
        } else {
            assert(cs.len() >= 3 ==> self@.buffer.take(3)[0] == cs[0]);
            assert(cs.len() >= 3 ==> self@.buffer.take(3)[1] == cs[1]);
            assert(cs.len() >= 3 ==> self@.buffer.take(3)[2] == cs[2]);
            KeyWords::Code
        }
    }

    /// Looks at the input as a command of the REPL: `show` writes the
    /// program and a fresh prompt; `reset` and `add ...` are handed back as
    /// outside work (an `add` line must name something to add); anything
    /// else is code (see `parse_second_order`).
    pub fn parse_first_order(&mut self, repl: &mut Repl) -> (step: Step)
        requires
            old(self).history.wf(),
            old(self).cursor.0 + 3 <= usize::MAX,
            old(repl)@.cursor <= old(repl)@.body.len(),
            command_of(old(self)@.buffer) == KeyWords::Add ==> split_seq(old(self)@.buffer, ' ').len() >= 2,
        ensures
            final(self).history == old(self).history,
            old(self)@.well_formed() ==> final(self)@.well_formed(),
            final(self)@ == (if command_of(old(self)@.buffer) == KeyWords::Show {
                old(self)@.show_program(old(repl)@.program())
            } else {
                old(self)@
            }),
            command_of(old(self)@.buffer) == KeyWords::Code ==> (if is_statement(old(self)@.buffer) {
                &&& step matches Step::Complete(Kind::Statement)
                &&& final(repl)@ == old(repl)@.insert(old(self)@.buffer)
            } else {
                &&& step matches Step::Run(code)
                &&& code@ == old(repl)@.insert(debug_print_statement(old(self)@.buffer)).program()
                &&& final(repl)@ == old(repl)@
            }),
            command_of(old(self)@.buffer) == KeyWords::Reset ==> (step matches Step::Reset)
                && final(repl)@ == old(repl)@,
            command_of(old(self)@.buffer) == KeyWords::Show ==> (step matches Step::Complete(Kind::Cmd))
                && final(repl)@ == old(repl)@,
            command_of(old(self)@.buffer) == KeyWords::Add ==> (step matches Step::Add(line) && line@
                == old(self)@.buffer) && final(repl)@ == old(repl)@,
    {
        let cmd = self.command();
        match cmd {
            KeyWords::Code => self.parse_second_order(repl),
            KeyWords::Reset => Step::Reset,
            KeyWords::Show => {
                let text = repl.show();
                self.writeln(text.as_str());
                let ghost before_lines = self@;
                self.empty_new_line(1);
                proof {
                    lemma_new_lines(before_lines, 2);
                }
                self.buffer = String::new();
                let ghost u = self@;
                self.reset_blinking_cursor_col();
                self.write_input();
                assert(self@ =~= old(self)@.show_program(old(repl)@.program())) by {
                    assert(u =~= (TerminalModel { buffer: Seq::empty(), ..before_lines.empty_new_line(1) }));
                }
                Step::Complete(Kind::Cmd)
            },
            KeyWords::Add => Step::Add(self.buffer.clone()),
        }
    }

    /// Code ending with `;` is a statement and joins the program; anything
    /// else is an expression, handed back as the program that prints it.
    pub fn parse_second_order(&self, repl: &mut Repl) -> (step: Step)
        requires
            old(repl)@.cursor <= old(repl)@.body.len(),
        ensures
            is_statement(self@.buffer) ==> (step matches Step::Complete(Kind::Statement)) && final(repl)@
                == old(repl)@.insert(self@.buffer),
            !is_statement(self@.buffer) ==> (step matches Step::Run(code) && code@ == old(repl)@.insert(
                debug_print_statement(self@.buffer),
            ).program()) && final(repl)@ == old(repl)@,
            (self@.buffer.len() > 0 && self@.buffer[self@.buffer.len() - 1] == ';') ==> (step matches Step::Complete(
                Kind::Statement,
            )) && final(repl)@.body == old(repl)@.body.insert(old(repl)@.cursor as int, self@.buffer.push('\n'))
                && final(repl)@.cursor == old(repl)@.cursor + 1,
            !(self@.buffer.len() > 0 && self@.buffer[self@.buffer.len() - 1] == ';') ==> (step matches Step::Run(
                code,
            ) && code@ == old(repl)@.body.insert(
                old(repl)@.cursor as int,
                ("println!(\"{:?}\", {\n"@ + self@.buffer + "\n});"@).push('\n'),
            ).flatten()) && final(repl)@ == old(repl)@,
    {
        let cs = chars_of(self.buffer.as_str());
        if cs.len() > 0 && cs[cs.len() - 1] == ';' {
            repl.insert(self.buffer.clone());
            Step::Complete(Kind::Statement)
        } else {
            let current_code = eval(repl.clone(), self.buffer.clone());
            Step::Run(current_code)
        }
    }
}

} // verus!
