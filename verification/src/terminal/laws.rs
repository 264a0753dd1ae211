//! What the terminal's operations are for, stated over their inputs and
//! results: which command an entered line is, when a line of code is a
//! statement, what clearing draws first, how far Page Up scrolls, and how
//! Backspace redraws the input row.

use vstd::prelude::*;
use crate::enums::{Direction, KeyWords, Kind};
use crate::repl::ReplModel;
use crate::text::decimal;
use super::{ScreenColor, Step};
use super::model::{DrawModel, TerminalModel, command_of, is_statement, lemma_write_screen};
use super::parser::entered;

verus! {

/// `a` is the start of `b`.
pub open spec fn ops_prefix(a: Seq<DrawModel>, b: Seq<DrawModel>) -> bool {
    a.len() <= b.len() && b.subrange(0, a.len() as int) == a
}

proof fn lemma_prefix_trans(a: Seq<DrawModel>, b: Seq<DrawModel>, c: Seq<DrawModel>)
    requires
        ops_prefix(a, b),
        ops_prefix(b, c),
    ensures
        ops_prefix(a, c),
{
    assert(c.subrange(0, a.len() as int) =~= b.subrange(0, a.len() as int));
}

proof fn lemma_write_extends(m: TerminalModel, msg: Seq<char>, color: ScreenColor)
    ensures
        ops_prefix(m.ops, m.write(msg, color).ops),
        ops_prefix(m.ops, m.writeln(msg).ops),
{
    assert(m.write(msg, color).ops.subrange(0, m.ops.len() as int) =~= m.ops);
    let n = TerminalModel { cursor: (m.cursor.0 + 1, m.cursor.1), ..m };
    assert(n.write(msg, ScreenColor::LightRed).ops.subrange(0, m.ops.len() as int) =~= m.ops);
}

proof fn lemma_new_lines_extend(m: TerminalModel, k: nat)
    ensures
        ops_prefix(m.ops, m.new_lines(k).ops),
    decreases k,
{
    if k > 0 {
        lemma_new_lines_extend(m, (k - 1) as nat);
        let p = m.new_lines((k - 1) as nat);
        lemma_write_extends(p, Seq::empty(), ScreenColor::LightRed);
        lemma_prefix_trans(m.ops, p.ops, p.writeln(Seq::empty()).ops);
    } else {
        assert(m.ops.subrange(0, m.ops.len() as int) =~= m.ops);
    }
}

/// An entered line other than exactly `reset` or `show` is the `add`
/// command exactly when its first three characters are `a`, `d`, `d`;
/// `reset` and `show` are recognised only as whole lines; every other line
/// is code.
pub proof fn lemma_command_recognition(line: Seq<char>)
    ensures
        (command_of(line) == KeyWords::Reset) == (line == "reset"@),
        (command_of(line) == KeyWords::Show) == (line == "show"@),
        (command_of(line) == KeyWords::Add) == (line != "reset"@ && line != "show"@ && line.len() >= 3
            && line[0] == 'a' && line[1] == 'd' && line[2] == 'd'),
        (command_of(line) == KeyWords::Code) == (line != "reset"@ && line != "show"@ && !(line.len() >= 3
            && line[0] == 'a' && line[1] == 'd' && line[2] == 'd')),
{
    reveal_strlit("add");
    reveal_strlit("reset");
    reveal_strlit("show");
    if line.len() >= 3 && line[0] == 'a' && line[1] == 'd' && line[2] == 'd' {
        assert(line.take(3) =~= "add"@);
    }
    if line.len() >= 3 && line.take(3) == "add"@ {
        assert(line[0] == line.take(3)[0]);
        assert(line[1] == line.take(3)[1]);
        assert(line[2] == line.take(3)[2]);
    }
}

/// Entering a line that does not start with `add` never asks cargo to add
/// a dependency.
pub proof fn lemma_only_add_lines_add(
    before: TerminalModel,
    repl_before: ReplModel,
    after: TerminalModel,
    repl_after: ReplModel,
    step: Step,
    height: int,
)
    requires
        entered(before, repl_before, after, repl_after, step, height),
        !(before.buffer.len() >= 3 && before.buffer[0] == 'a' && before.buffer[1] == 'd'
            && before.buffer[2] == 'd'),
    ensures
        !(step is Add),
{
    lemma_command_recognition(before.buffer);
}

/// A line of code is a statement exactly when it is non-empty and its last
/// character is `;`: then it joins the program and nothing runs. Any other
/// line of code is an expression: the program is left as it was, and the
/// program to run is it with the expression printed at the cursor.
pub proof fn lemma_statement_or_expression(
    before: TerminalModel,
    repl_before: ReplModel,
    after: TerminalModel,
    repl_after: ReplModel,
    step: Step,
    height: int,
)
    requires
        entered(before, repl_before, after, repl_after, step, height),
        command_of(before.buffer) == KeyWords::Code,
    ensures
        before.buffer.len() > 0 && before.buffer[before.buffer.len() - 1] == ';' ==> (step matches Step::Complete(
            Kind::Statement,
        )) && repl_after.body == repl_before.body.insert(
            repl_before.cursor as int,
            before.buffer.push('\n'),
        ) && repl_after.cursor == repl_before.cursor + 1,
        !(before.buffer.len() > 0 && before.buffer[before.buffer.len() - 1] == ';') ==> (step matches Step::Run(
            code,
        ) && code@ == repl_before.body.insert(
            repl_before.cursor as int,
            ("println!(\"{:?}\", {\n"@ + before.buffer + "\n});"@).push('\n'),
        ).flatten()) && repl_after == repl_before,
{
    assert(is_statement(before.buffer) == (before.buffer.len() > 0 && before.buffer[before.buffer.len() - 1] == ';'));
}

/// Clearing the terminal (Ctrl-L, or `reset`) first wipes the screen: the
/// drawing commands it queues start with a clear and a present, right
/// after those queued before.
pub proof fn lemma_clear_wipes_first(m: TerminalModel, msg: Seq<char>)
    ensures
        m.custom_clear(msg).ops.len() >= m.ops.len() + 2,
        m.custom_clear(msg).ops.subrange(0, (m.ops.len() + 2) as int) == m.ops + seq![
            DrawModel::Clear,
            DrawModel::Present,
        ],
{
    let s = TerminalModel { left_margin: 8, ..m }.clear();
    assert(s.ops == m.ops + seq![DrawModel::Clear, DrawModel::Present]);
    let t = TerminalModel {
        history: crate::history::HistoryModel::initial(),
        cursor: (0, 0),
        blinking_cursor: (s.blinking_cursor.0, 8),
        screen: Seq::empty(),
        screen_cursor: (0, 0),
        ..s
    };
    let u = if msg.len() > 0 { t.writeln(msg) } else { t };
    lemma_write_extends(t, msg, ScreenColor::LightRed);
    if msg.len() == 0 {
        assert(u.ops.subrange(0, t.ops.len() as int) =~= t.ops);
    }
    lemma_new_lines_extend(u, 2);
    lemma_prefix_trans(t.ops, u.ops, u.new_lines(2).ops);
    let v = TerminalModel { buffer: Seq::empty(), ..u.empty_new_line(1) };
    lemma_write_extends(v, v.prompt(), ScreenColor::Yellow);
    lemma_prefix_trans(t.ops, v.ops, v.write_input().ops);
    assert(m.custom_clear(msg) == v.write_input());
}

/// Page Up goes back exactly one line when not at the top, keeping the end
/// offset; at the top it changes nothing.
pub proof fn lemma_page_up_one_line(m: TerminalModel)
    ensures
        m.screen_cursor.0 > 0 ==> m.scroll_up().screen_cursor == (m.screen_cursor.0 - 1, m.screen_cursor.1),
        m.screen_cursor.0 > 0 ==> m.scroll_up().buffer == m.buffer && m.scroll_up().history == m.history
            && m.scroll_up().screen == m.screen,
        m.screen_cursor.0 <= 0 ==> m.scroll_up() == m,
{
    lemma_write_screen(TerminalModel { screen_cursor: (m.screen_cursor.0 - 1, m.screen_cursor.1), ..m });
}

/// Backspace redraws the input row by first blanking it (500 spaces from
/// the writing cursor, in light blue) and then writing the prompt with the
/// shortened input in yellow; these six commands are all it draws.
pub proof fn lemma_backspace_blanks_row(m: TerminalModel)
    ensures
        ({
            let r = m.back_space();
            let col = r.blinking_cursor.1;
            &&& r.ops == m.ops + seq![
                DrawModel::SetCursor { row: m.cursor.0, col },
                DrawModel::Print {
                    row: m.cursor.0,
                    col: m.cursor.1,
                    text: Seq::new(500, |i: int| ' '),
                    color: ScreenColor::LightBlue,
                },
                DrawModel::Present,
                DrawModel::SetCursor { row: m.cursor.0, col },
                DrawModel::Print {
                    row: m.cursor.0,
                    col: m.cursor.1,
                    text: " In["@ + decimal(m.history.entries.len()) + "]: "@ + r.buffer,
                    color: ScreenColor::Yellow,
                },
                DrawModel::Present,
            ]
            &&& r.cursor == m.cursor
            &&& r.blinking_cursor.0 == m.cursor.0
            &&& col == m.move_blinking_cursor_auto(Direction::Left).blinking_cursor.1
        }),
{
    let r = m.back_space();
    assert(r.ops =~= m.ops + seq![
        DrawModel::SetCursor { row: m.cursor.0, col: r.blinking_cursor.1 },
        DrawModel::Print {
            row: m.cursor.0,
            col: m.cursor.1,
            text: Seq::new(500, |i: int| ' '),
            color: ScreenColor::LightBlue,
        },
        DrawModel::Present,
        DrawModel::SetCursor { row: m.cursor.0, col: r.blinking_cursor.1 },
        DrawModel::Print {
            row: m.cursor.0,
            col: m.cursor.1,
            text: " In["@ + decimal(m.history.entries.len()) + "]: "@ + r.buffer,
            color: ScreenColor::Yellow,
        },
        DrawModel::Present,
    ]);
}

} // verus!
