use rust_repl::eval::eval;
use rust_repl::eval_ref::reference_source;
use rust_repl::repl::Repl;

#[test]
fn new_repl_holds_an_empty_main() {
    let r = Repl::new();
    assert_eq!(r.body().clone(), vec!["fn main() {\n".to_string(), "}".to_string()]);
    assert_eq!(r.code(), "fn main() {\n}");
}

#[test]
fn statements_go_before_the_closing_brace_in_order() {
    let mut r = Repl::new();
    r.insert("let x = 1;".to_string());
    r.insert("let y = x + 1;".to_string());
    assert_eq!(r.code(), "fn main() {\nlet x = 1;\nlet y = x + 1;\n}");
}

#[test]
fn show_puts_a_heading_over_the_program() {
    let mut r = Repl::new();
    r.insert("let x = 1;".to_string());
    assert_eq!(r.show(), "Current Repl Code:\nfn main() {\nlet x = 1;\n}");
}

#[test]
fn reset_empties_main() {
    let mut r = Repl::new();
    r.insert("let x = 1;".to_string());
    r.reset();
    assert_eq!(r.code(), "fn main() {\n}");
}

#[test]
fn clone_keeps_the_program() {
    let mut r = Repl::new();
    r.insert("let x = 1;".to_string());
    let c = r.clone();
    assert_eq!(c.code(), r.code());
    assert_eq!(c.body(), r.body());
}

#[test]
fn eval_prints_the_expression_last() {
    let mut r = Repl::new();
    r.insert("let x = 1;".to_string());
    let code = eval(r.clone(), "x + 1".to_string());
    assert_eq!(code, "fn main() {\nlet x = 1;\nprintln!(\"{:?}\", {\nx + 1\n});\n}");
    assert_eq!(r.code(), "fn main() {\nlet x = 1;\n}");
}

#[test]
fn eval_on_an_empty_program() {
    let code = eval(Repl::new(), "1 + 1".to_string());
    assert_eq!(code, "fn main() {\nprintln!(\"{:?}\", {\n1 + 1\n});\n}");
}

#[test]
fn reference_program_prints_with_display() {
    assert_eq!(reference_source("1 + 2"), "fn main() {\n    \tprintln!(\"{}\",1 + 2);\n        }");
}
