# rust_repl

An interactive Rust REPL for the terminal. Statements typed at the prompt
are collected into a `main` function; an expression is run in a small cargo
playground crate and its value is shown under the prompt.

Layout:

- `src/` — the verified library (Verus):
  - `helper_fns` — power test used for the prompt width;
  - `text` — character-level helpers (splitting, lines, substring search,
    decimal notation) stated over `Seq<char>`;
  - `history` — the history of entered lines and its arrow-key walk;
  - `repl`, `eval`, `eval_ref` — the program being built and the programs
    that print an expression;
  - `cargo_cmds` — playground paths, manifest cleaning, `cargo add` words,
    choice of the run output;
  - `terminal` — the terminal as a state machine over keys, with a spec
    model (`terminal/model.rs`) that every operation follows exactly and
    that queues drawing commands for the caller.
- `app/` — the program: command line, tuikit screen and key events, files
  and cargo processes.
- `tests/` — tests of the library.
