//! Turns an expression into the program that prints its value.

use vstd::prelude::*;
use crate::repl::{Repl, ReplModel, lemma_insert_keeps_shape, program_footer};

verus! {

/// The statement that prints `input` with its `Debug` formatting.
pub open spec fn debug_print_statement(input: Seq<char>) -> Seq<char> {
    "println!(\"{:?}\", {\n"@ + input + "\n});"@
}

/// The program of `repl` with a statement that prints the value of the
/// expression `input` added at the cursor.
pub fn eval(repl: Repl, input: String) -> (code: String)
    requires
        repl@.cursor <= repl@.body.len(),
    ensures
        code@ == repl@.insert(debug_print_statement(input@)).program(),
{
    let mut repl = repl;
    let mut eval_statement = String::from_str("println!(\"{:?}\", {\n");
    eval_statement.append(input.as_str());
    eval_statement.append("\n});");
    repl.insert(eval_statement);
    repl.code()
}

/// In a well-formed REPL, the program that `eval` builds is the REPL's
/// program with the statement printing the expression placed last in
/// `main`, right before the closing brace.
pub proof fn lemma_eval_prints_last(m: ReplModel, input: Seq<char>)
    requires
        m.well_formed(),
    ensures
        m.insert(debug_print_statement(input)).program() == m.body.drop_last().flatten()
            + debug_print_statement(input).push('\n') + program_footer(),
{
    lemma_insert_keeps_shape(m, debug_print_statement(input));
}

} // verus!
