use rust_repl::text::{
    byte_length, chars_of, concat_strings, contains_chars, decimal_string, insert_at_byte, lines, remove_at_byte,
    repeat_string, split_chars, string_of,
};

fn to_strings(v: Vec<Vec<char>>) -> Vec<String> {
    v.into_iter().map(|c| c.into_iter().collect()).collect()
}

#[test]
fn decimal_notation() {
    assert_eq!(decimal_string(0), "0");
    assert_eq!(decimal_string(7), "7");
    assert_eq!(decimal_string(10), "10");
    assert_eq!(decimal_string(1234), "1234");
    assert_eq!(decimal_string(usize::MAX), usize::MAX.to_string());
}

#[test]
fn chars_round_trip() {
    let cs = chars_of("héllo");
    assert_eq!(cs, vec!['h', 'é', 'l', 'l', 'o']);
    assert_eq!(string_of(&cs), "héllo");
}

#[test]
fn split_matches_str_split() {
    for s in ["", "a", "a b", " a  b ", "abc", "  "] {
        let got = to_strings(split_chars(&chars_of(s), ' '));
        let want: Vec<String> = s.split(' ').map(|p| p.to_string()).collect();
        assert_eq!(got, want);
    }
}

#[test]
fn lines_match_str_lines() {
    for s in ["", "a", "a\n", "a\nb", "a\r\nb\r\n", "\n\n", "a\r", "a\r\r\nb", "\r\n"] {
        let got = to_strings(lines(&chars_of(s)));
        let want: Vec<String> = s.lines().map(|p| p.to_string()).collect();
        assert_eq!(got, want, "lines of {:?}", s);
    }
}

#[test]
fn substring_search() {
    assert!(contains_chars(&chars_of("[dependencies]"), &chars_of("[dependencies]")));
    assert!(contains_chars(&chars_of("x [dependencies] y"), &chars_of("[dependencies]")));
    assert!(!contains_chars(&chars_of("[dependencie]"), &chars_of("[dependencies]")));
    assert!(contains_chars(&chars_of("abc"), &chars_of("")));
    assert!(!contains_chars(&chars_of(""), &chars_of("a")));
}

#[test]
fn character_editing() {
    let s = "abc".to_string();
    assert_eq!(insert_at_byte(&s, 0, 'x'), "xabc");
    assert_eq!(insert_at_byte(&s, 3, 'x'), "abcx");
    assert_eq!(remove_at_byte(&s, 1), "ac");
    let t = "aéb".to_string();
    assert_eq!(byte_length(&t), 4);
    assert_eq!(insert_at_byte(&t, 3, 'x'), "aéxb");
    assert_eq!(insert_at_byte(&t, 1, 'ü'), "aüéb");
    assert_eq!(remove_at_byte(&t, 1), "ab");
    assert_eq!(remove_at_byte(&t, 3), "aé");
    let mut u = t.clone();
    u.insert(3, 'x');
    assert_eq!(insert_at_byte(&t, 3, 'x'), u);
    assert_eq!(repeat_string('-', 3), "---");
    assert_eq!(repeat_string('-', 0), "");
}

#[test]
fn concatenation() {
    assert_eq!(concat_strings(&vec!["ab".to_string(), "".to_string(), "c".to_string()]), "abc");
    assert_eq!(concat_strings(&vec![]), "");
}
