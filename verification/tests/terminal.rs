use rust_repl::enums::{Arrow, Direction, Kind};
use rust_repl::repl::Repl;
use rust_repl::terminal::{DrawOp, KeyEvent, Reaction, ScreenColor, Step, Terminal};

fn print(row: usize, col: usize, text: &str, color: ScreenColor) -> DrawOp {
    DrawOp::Print { row, col, text: text.to_string(), color }
}

fn type_text(t: &mut Terminal, repl: &mut Repl, s: &str) {
    for c in s.chars() {
        assert!(t.can_handle(KeyEvent::Char(c), 40));
        assert_eq!(t.handle_key(KeyEvent::Char(c), repl, 40), Reaction::Done);
    }
}

fn prints(ops: &[DrawOp]) -> Vec<String> {
    ops.iter()
        .filter_map(|o| match o {
            DrawOp::Print { text, .. } => Some(text.clone()),
            _ => None,
        })
        .collect()
}

#[test]
fn new_terminal_is_empty() {
    let t = Terminal::new();
    assert_eq!(t.buffer, "");
    assert_eq!(t.cursor, (0, 0));
    assert_eq!(t.blinking_cursor, (0, 8));
    assert_eq!(t.left_margin, 8);
    assert_eq!(t.screen_cursor, (0, 0));
    assert!(t.terminal_screen.is_empty());
    assert!(t.ops.is_empty());
}

#[test]
fn write_input_draws_the_prompt() {
    let mut t = Terminal::new();
    t.write_input();
    assert_eq!(
        t.take_ops(),
        vec![
            DrawOp::SetCursor { row: 0, col: 8 },
            print(0, 0, " In[0]: ", ScreenColor::Yellow),
            DrawOp::Present,
        ]
    );
    assert!(t.ops.is_empty());
}

#[test]
fn prepare_repl_writes_the_banner() {
    let mut t = Terminal::new();
    let repl = t.prepare_repl(30);
    assert_eq!(repl.code(), "fn main() {\n}");
    let ops = t.take_ops();
    assert_eq!(ops[0], DrawOp::Clear);
    assert_eq!(ops[1], DrawOp::Present);
    assert_eq!(ops[3], print(0, 0, "----------Welcome to Rust REPL----------", ScreenColor::Blue));
    assert_eq!(t.cursor, (3, 0));
    assert_eq!(ops.last(), Some(&DrawOp::Present));
    assert_eq!(ops[ops.len() - 2], print(3, 0, " In[0]: ", ScreenColor::Yellow));
}

#[test]
fn typing_inserts_at_the_blinking_cursor() {
    let mut t = Terminal::new();
    let mut repl = Repl::new();
    type_text(&mut t, &mut repl, "ac");
    assert_eq!(t.blinking_cursor.1, 10);
    t.handle_key(KeyEvent::Left, &mut repl, 40);
    assert_eq!(t.blinking_cursor.1, 9);
    type_text(&mut t, &mut repl, "b");
    assert_eq!(t.buffer, "abc");
    assert_eq!(t.blinking_cursor.1, 10);
    let ops = t.take_ops();
    assert_eq!(ops[ops.len() - 2], print(0, 0, " In[0]: abc", ScreenColor::Yellow));
}

#[test]
fn backspace_undoes_typing() {
    let mut t = Terminal::new();
    let mut repl = Repl::new();
    type_text(&mut t, &mut repl, "xy");
    t.handle_key(KeyEvent::Left, &mut repl, 40);
    let before = (t.buffer.clone(), t.blinking_cursor.1);
    type_text(&mut t, &mut repl, "z");
    assert_eq!(t.buffer, "xzy");
    assert!(t.can_handle(KeyEvent::Backspace, 40));
    t.handle_key(KeyEvent::Backspace, &mut repl, 40);
    assert_eq!((t.buffer.clone(), t.blinking_cursor.1), before);
}

#[test]
fn backspace_at_the_start_removes_the_first_character() {
    let mut t = Terminal::new();
    let mut repl = Repl::new();
    type_text(&mut t, &mut repl, "ab");
    t.handle_key(KeyEvent::Left, &mut repl, 40);
    t.handle_key(KeyEvent::Left, &mut repl, 40);
    t.handle_key(KeyEvent::Left, &mut repl, 40);
    assert_eq!(t.blinking_cursor.1, 8);
    t.back_space();
    assert_eq!(t.buffer, "b");
    assert_eq!(t.blinking_cursor.1, 8);
}

#[test]
fn the_blinking_cursor_stays_on_the_input() {
    let mut t = Terminal::new();
    t.move_blinking_cursor_auto(Direction::Left);
    assert_eq!(t.blinking_cursor.1, 8);
    t.move_blinking_cursor_auto(Direction::Right);
    assert_eq!(t.blinking_cursor.1, 8);
    t.buffer = "abc".to_string();
    t.move_blinking_cursor_manuel(Direction::Right);
    assert_eq!(t.blinking_cursor.1, 9);
    t.blinking_cursor.1 = 30;
    t.move_blinking_cursor_auto(Direction::Left);
    assert_eq!(t.blinking_cursor.1, 11);
    assert_eq!(t.blinking_cursor_col_pos(), 3);
}

#[test]
fn entering_a_statement() {
    let mut t = Terminal::new();
    let mut repl = Repl::new();
    type_text(&mut t, &mut repl, "let x = 1;");
    let step = match t.handle_key(KeyEvent::Enter, &mut repl, 40) {
        Reaction::Entered(step) => step,
        other => panic!("unexpected {:?}", other),
    };
    assert_eq!(step, Step::Complete(Kind::Statement));
    assert_eq!(repl.code(), "fn main() {\nlet x = 1;\n}");
    assert_eq!(t.terminal_screen, vec![(" In[0]: let x = 1;".to_string(), ScreenColor::Yellow)]);
    assert!(t.room_for(&Kind::Statement));
    t.complete_enter(Kind::Statement, 40);
    assert_eq!(t.buffer, "");
    assert_eq!(t.blinking_cursor.1, 8);
    assert_eq!(t.history.last_idx(), 1);
    assert_eq!(t.history.buffer_vec().clone(), vec!["let x = 1;".to_string()]);
    let ops = t.take_ops();
    assert_eq!(ops[ops.len() - 2], print(2, 0, " In[1]: ", ScreenColor::Yellow));
}

#[test]
fn entering_an_expression() {
    let mut t = Terminal::new();
    let mut repl = Repl::new();
    type_text(&mut t, &mut repl, "1 + 1");
    let step = t.handle_enter_key(&mut repl, 40);
    assert_eq!(step, Step::Run("fn main() {\nprintln!(\"{:?}\", {\n1 + 1\n});\n}".to_string()));
    assert_eq!(repl.code(), "fn main() {\n}");
    let out = "2\n".to_string();
    assert!(t.room_for(&Kind::Expression(out.clone())));
    t.take_ops();
    t.complete_enter(Kind::Expression(out), 40);
    assert_eq!(
        t.terminal_screen,
        vec![
            (" In[0]: 1 + 1".to_string(), ScreenColor::Yellow),
            (" Out[0]: 2\n".to_string(), ScreenColor::LightRed),
        ]
    );
    let texts = prints(&t.take_ops());
    assert_eq!(
        texts,
        vec![
            " Out[0]: 2".to_string(),
            "            ".to_string(),
            "".to_string(),
            "".to_string(),
            " In[1]: ".to_string(),
            " In[1]: ".to_string(),
        ]
    );
    assert_eq!(t.history.last_idx(), 1);
    assert_eq!(t.history.buffer_vec().clone(), vec!["1 + 1".to_string()]);
}

#[test]
fn show_writes_the_program() {
    let mut t = Terminal::new();
    let mut repl = Repl::new();
    repl.insert("let x = 1;".to_string());
    type_text(&mut t, &mut repl, "show");
    t.take_ops();
    let step = t.handle_enter_key(&mut repl, 40);
    assert_eq!(step, Step::Complete(Kind::Cmd));
    assert_eq!(t.buffer, "");
    let texts = prints(&t.take_ops());
    assert_eq!(texts[0], "Current Repl Code:\nfn main() {\nlet x = 1;\n}");
    t.complete_enter(Kind::Cmd, 40);
    assert_eq!(t.history.last_idx(), 0);
}

#[test]
fn reset_and_add_are_handed_back() {
    let mut t = Terminal::new();
    let mut repl = Repl::new();
    repl.insert("let x = 1;".to_string());
    type_text(&mut t, &mut repl, "reset");
    assert_eq!(t.handle_enter_key(&mut repl, 40), Step::Reset);
    t.finish_reset(&mut repl);
    assert_eq!(repl.code(), "fn main() {\n}");
    assert_eq!(t.buffer, "");
    assert!(t.terminal_screen.is_empty());
    let texts = prints(&t.take_ops());
    assert!(texts.contains(&"Repl reseted!".to_string()));

    type_text(&mut t, &mut repl, "add serde");
    assert_eq!(t.handle_enter_key(&mut repl, 40), Step::Add("add serde".to_string()));
    t.finish_add();
    t.complete_enter(Kind::Cmd, 40);
    assert_eq!(t.buffer, "");
    assert!(!t.can_handle(KeyEvent::Char('x'), 40));
    assert!(t.can_handle(KeyEvent::Backspace, 40));
}

#[test]
fn add_of_one_word_is_refused() {
    let mut t = Terminal::new();
    let mut repl = Repl::new();
    type_text(&mut t, &mut repl, "add");
    assert!(!t.can_handle(KeyEvent::Enter, 40));
    let mut t = Terminal::new();
    type_text(&mut t, &mut repl, "add_one(2)");
    assert!(!t.can_handle(KeyEvent::Enter, 40));
    type_text(&mut t, &mut repl, " x");
    assert!(t.can_handle(KeyEvent::Enter, 40));
}

#[test]
fn positions_count_bytes() {
    let mut t = Terminal::new();
    let mut repl = Repl::new();
    type_text(&mut t, &mut repl, "é");
    // the caret moves one byte, inside the two-byte character
    assert_eq!(t.blinking_cursor.1, 9);
    assert!(!t.can_handle(KeyEvent::Char('x'), 40));
    t.handle_key(KeyEvent::Right, &mut repl, 40);
    assert_eq!(t.blinking_cursor.1, 10);
    type_text(&mut t, &mut repl, "x");
    assert_eq!(t.buffer, "éx");
    assert_eq!(t.blinking_cursor.1, 11);
    t.handle_key(KeyEvent::Backspace, &mut repl, 40);
    assert_eq!(t.buffer, "é");
    assert_eq!(t.blinking_cursor.1, 10);
    assert!(!t.can_handle(KeyEvent::Backspace, 40));
    t.handle_key(KeyEvent::Left, &mut repl, 40);
    t.handle_key(KeyEvent::Left, &mut repl, 40);
    assert_eq!(t.blinking_cursor.1, 8);
    assert!(t.can_handle(KeyEvent::Backspace, 40));
    t.handle_key(KeyEvent::Backspace, &mut repl, 40);
    assert_eq!(t.buffer, "");
}

#[test]
fn recalled_entry_puts_the_caret_after_its_bytes() {
    let mut t = Terminal::new();
    let mut repl = Repl::new();
    t.history.push("é".to_string());
    t.history.go_to_last();
    t.handle_key(KeyEvent::Up, &mut repl, 40);
    assert_eq!(t.buffer, "é");
    assert_eq!(t.blinking_cursor.1, 10);
    t.blinking_cursor.1 = 9;
    t.handle_key(KeyEvent::Right, &mut repl, 40);
    assert_eq!(t.blinking_cursor.1, 10);
    t.handle_key(KeyEvent::Right, &mut repl, 40);
    assert_eq!(t.blinking_cursor.1, 10);
}

#[test]
fn page_down_may_pass_the_scroll_end() {
    let mut t = Terminal::new();
    let mut repl = Repl::new();
    for s in ["let a = 1;", "let b = 2;", "let c = 3;"] {
        type_text(&mut t, &mut repl, s);
        t.handle_enter_key(&mut repl, 4);
        t.complete_enter(Kind::Statement, 4);
    }
    t.handle_key(KeyEvent::PageUp, &mut repl, 4);
    t.handle_key(KeyEvent::PageUp, &mut repl, 4);
    t.screen_cursor.1 = 3;
    t.cursor.0 = 10;
    assert_eq!(t.screen_cursor, (0, 3));
    assert!(t.can_handle(KeyEvent::PageDown, 4));
    t.handle_key(KeyEvent::PageDown, &mut repl, 4);
    assert_eq!(t.screen_cursor, (1, 4));
}

#[test]
fn the_prompt_widens_at_ten() {
    let mut t = Terminal::new();
    let mut repl = Repl::new();
    for i in 0..10 {
        type_text(&mut t, &mut repl, &format!("let a{} = {};", i, i));
        assert_eq!(t.left_margin, 8);
        t.handle_enter_key(&mut repl, 1000);
        t.complete_enter(Kind::Statement, 1000);
        t.take_ops();
    }
    assert_eq!(t.history.last_idx(), 10);
    assert_eq!(t.left_margin, 9);
    assert_eq!(t.blinking_cursor.1, 9);
}

#[test]
fn arrows_walk_the_history() {
    let mut t = Terminal::new();
    let mut repl = Repl::new();
    for s in ["let a = 1;", "let b = 2;"] {
        type_text(&mut t, &mut repl, s);
        t.handle_enter_key(&mut repl, 1000);
        t.complete_enter(Kind::Statement, 1000);
    }
    t.handle_key(KeyEvent::Up, &mut repl, 1000);
    assert_eq!(t.buffer, "let b = 2;");
    assert_eq!(t.blinking_cursor.1, 18);
    t.cycle_history(Arrow::Up);
    assert_eq!(t.buffer, "let a = 1;");
    t.handle_key(KeyEvent::Down, &mut repl, 1000);
    assert_eq!(t.buffer, "let b = 2;");
    t.handle_key(KeyEvent::Down, &mut repl, 1000);
    assert_eq!(t.buffer, "");
    assert_eq!(t.blinking_cursor.1, 8);
}

#[test]
fn ctrl_keys() {
    let mut t = Terminal::new();
    let mut repl = Repl::new();
    type_text(&mut t, &mut repl, "1;");
    t.handle_enter_key(&mut repl, 1000);
    t.complete_enter(Kind::Statement, 1000);
    assert_eq!(t.handle_key(KeyEvent::Ctrl('l'), &mut repl, 1000), Reaction::Done);
    assert_eq!(t.history.last_idx(), 0);
    assert!(t.terminal_screen.is_empty());
    assert_eq!(t.cursor, (2, 0));
    assert_eq!(t.handle_key(KeyEvent::Ctrl('x'), &mut repl, 1000), Reaction::Done);
    assert_eq!(t.handle_key(KeyEvent::CtrlLeft, &mut repl, 1000), Reaction::Done);
    assert_eq!(t.handle_key(KeyEvent::Other, &mut repl, 1000), Reaction::Done);
    t.take_ops();
    assert_eq!(t.handle_key(KeyEvent::Ctrl('c'), &mut repl, 1000), Reaction::Exit);
    assert_eq!(
        t.take_ops(),
        vec![
            DrawOp::Clear,
            DrawOp::Present,
            DrawOp::SetCursor { row: 0, col: 8 },
            print(0, 0, "", ScreenColor::Default),
            DrawOp::Present,
        ]
    );
}

#[test]
fn scrolling_redraws_from_the_offset() {
    let mut t = Terminal::new();
    let mut repl = Repl::new();
    for s in ["let a = 1;", "let b = 2;", "let c = 3;"] {
        type_text(&mut t, &mut repl, s);
        t.handle_enter_key(&mut repl, 4);
        t.complete_enter(Kind::Statement, 4);
    }
    assert_eq!(t.screen_cursor, (1, 1));
    assert_eq!(t.terminal_screen.len(), 3);
    assert_eq!(t.cursor.0, 5);
    t.take_ops();
    t.handle_key(KeyEvent::PageUp, &mut repl, 4);
    assert_eq!(t.screen_cursor, (0, 1));
    let texts = prints(&t.take_ops());
    assert_eq!(
        texts,
        vec![
            "".to_string(),
            "".to_string(),
            " In[0]: let a = 1;".to_string(),
            " In[1]: let b = 2;".to_string(),
            " In[2]: let c = 3;".to_string(),
            " In[3]: ".to_string(),
        ]
    );
    assert_eq!(t.cursor.0, 4);
    t.handle_key(KeyEvent::PageDown, &mut repl, 1000);
    assert_eq!(t.screen_cursor, (0, 1));
    type_text(&mut t, &mut repl, "x");
    assert_eq!(t.screen_cursor, (1, 1));
    assert_eq!(t.buffer, "x");
    assert!(t.can_handle(KeyEvent::PageDown, 4));
    t.handle_key(KeyEvent::PageDown, &mut repl, 4);
    assert_eq!(t.screen_cursor, (2, 2));
    t.handle_key(KeyEvent::PageDown, &mut repl, 4);
    assert_eq!(t.screen_cursor, (2, 2));
    t.cursor.0 = 10;
    t.handle_key(KeyEvent::PageDown, &mut repl, 4);
    assert_eq!(t.screen_cursor, (3, 3));
    t.cursor.0 = 10;
    assert!(!t.can_handle(KeyEvent::PageDown, 4));
}

#[test]
fn output_lines_are_labelled_then_indented() {
    let mut t = Terminal::new();
    t.history.push("a".to_string());
    t.history.push("b".to_string());
    t.write_output("x\ny".to_string(), 1000);
    let texts = prints(&t.take_ops());
    assert_eq!(texts[0], " Out[1]: x");
    assert_eq!(texts[1], "            y");
    assert_eq!(t.cursor.0, 4);
}
