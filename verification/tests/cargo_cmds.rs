use rust_repl::cargo_cmds::{cargo_add_args, clean_toml_contents, join, run_output, CargoCmds};

#[test]
fn join_puts_one_separator_between() {
    assert_eq!(join("/tmp", "x"), "/tmp/x");
    assert_eq!(join("/tmp/", "x"), "/tmp/x");
    assert_eq!(join("", "x"), "x");
    assert_eq!(join("/tmp", "/etc"), "/etc");
    assert_eq!(join("/tmp", "src/main.rs"), "/tmp/src/main.rs");
}

#[test]
fn playground_paths_under_tmp_dir() {
    let c = CargoCmds::in_dir("/tmp".to_string());
    assert_eq!(c.tmp_dir, "/tmp");
    assert_eq!(c.rust_repl_playground_dir, "/tmp/rust_repl_playground");
    assert_eq!(c.main_file, "/tmp/rust_repl_playground/src/main.rs");
    assert_eq!(c.toml_file(), "/tmp/rust_repl_playground/Cargo.toml");
    let d = CargoCmds::in_dir("/var/tmp/".to_string());
    assert_eq!(d.rust_repl_playground_dir, "/var/tmp/rust_repl_playground");
}

#[test]
fn clean_toml_drops_added_dependencies() {
    let toml = "[package]\nname = \"rust_repl_playground\"\nversion = \"0.1.0\"\n\n[dependencies]\nserde = \"1\"\nrand = \"0.8\"\n";
    assert_eq!(
        clean_toml_contents(toml),
        "[package]\nname = \"rust_repl_playground\"\nversion = \"0.1.0\"\n\n[dependencies]"
    );
}

#[test]
fn clean_toml_without_dependencies_section() {
    assert_eq!(clean_toml_contents("a\nb"), "a\nb\n");
    assert_eq!(clean_toml_contents("a\nb\n"), "a\nb\n");
    assert_eq!(clean_toml_contents(""), "");
    assert_eq!(clean_toml_contents("\n"), "\n");
}

#[test]
fn clean_toml_with_crlf_and_marker_inside_a_line() {
    assert_eq!(clean_toml_contents("a\r\n[dependencies]\r\nx = 1\r\n"), "a\n[dependencies]");
    assert_eq!(clean_toml_contents("x\n# [dependencies] here\ny\n"), "x\n# [dependencies] here");
}

#[test]
fn clean_toml_twice_is_clean_toml_once() {
    let toml = "[package]\nname = \"p\"\n[dependencies]\nserde = \"1\"\n";
    let once = clean_toml_contents(toml);
    assert_eq!(clean_toml_contents(&once), once);
    let dep_line_with_cr = "a\n[dependencies]\r";
    let once = clean_toml_contents(dep_line_with_cr);
    assert_eq!(once, "a\n[dependencies]\r");
    assert_eq!(clean_toml_contents(&once), once);
    let plain = "a\n\nb";
    let once = clean_toml_contents(plain);
    assert_eq!(clean_toml_contents(&once), once);
}

#[test]
fn cargo_add_needs_two_words() {
    assert_eq!(cargo_add_args("add serde"), Some(vec!["add".to_string(), "serde".to_string()]));
    assert_eq!(
        cargo_add_args("add serde --features derive"),
        Some(vec!["add".to_string(), "serde".to_string(), "--features".to_string(), "derive".to_string()])
    );
    assert_eq!(cargo_add_args("add  x"), Some(vec!["add".to_string(), "".to_string(), "x".to_string()]));
    assert_eq!(cargo_add_args("add "), Some(vec!["add".to_string(), "".to_string()]));
    assert_eq!(cargo_add_args("add"), None);
    assert_eq!(cargo_add_args(""), None);
}

#[test]
fn run_output_prefers_stdout() {
    assert_eq!(run_output("2\n".to_string(), "warning".to_string()), "2\n");
    assert_eq!(run_output("".to_string(), "error[E0425]".to_string()), "error[E0425]");
    assert_eq!(run_output("".to_string(), "".to_string()), "");
}
