use rust_repl::history::History;

#[test]
fn history_starts_empty() {
    let mut h = History::default();
    assert_eq!(h.last_idx(), 0);
    assert_eq!(h.len(), 0);
    assert_eq!(h.up(), "");
    assert_eq!(h.down(), "");
}

#[test]
fn push_numbers_the_next_prompt() {
    let mut h = History::default();
    h.push("let a = 1;".to_string());
    assert_eq!(h.last_idx(), 1);
    h.push("a".to_string());
    assert_eq!(h.last_idx(), 2);
    assert_eq!(h.line_idx().clone(), vec![0, 1, 2]);
    assert_eq!(h.buffer_vec().clone(), vec!["let a = 1;".to_string(), "a".to_string()]);
}

#[test]
fn up_recalls_latest_entry_first() {
    let mut h = History::default();
    h.push("a".to_string());
    h.push("b".to_string());
    h.go_to_last();
    assert_eq!(h.up(), "b");
    assert_eq!(h.up(), "a");
    assert_eq!(h.up(), "a");
}

#[test]
fn down_after_up_shows_the_same_entry() {
    let mut h = History::default();
    h.push("a".to_string());
    h.push("b".to_string());
    h.push("c".to_string());
    h.go_to_last();
    h.up();
    assert_eq!(h.up(), "b");
    assert_eq!(h.down(), "b");
    assert_eq!(h.down(), "c");
    assert_eq!(h.down(), "");
    assert_eq!(h.down(), "");
}

#[test]
fn down_right_after_push_is_past_the_end() {
    let mut h = History::default();
    h.push("a".to_string());
    assert_eq!(h.down(), "");
    assert_eq!(h.up(), "");
    assert_eq!(h.up(), "a");
}

#[test]
fn entry_lengths_before_walking() {
    let mut h = History::default();
    h.push("abc".to_string());
    h.push("de".to_string());
    h.go_to_last();
    assert_eq!(h.up_entry_len(), 2);
    assert_eq!(h.down_entry_len(), 0);
    h.up();
    assert_eq!(h.up_entry_len(), 3);
    assert_eq!(h.down_entry_len(), 2);
}

#[test]
fn reset_forgets_everything() {
    let mut h = History::default();
    h.push("a".to_string());
    h.reset();
    assert_eq!(h.last_idx(), 0);
    assert_eq!(h.len(), 0);
    assert_eq!(h.up(), "");
}
