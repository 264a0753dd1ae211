//! The stand-alone program that prints the value of a single expression.

use vstd::prelude::*;

verus! {

/// The program whose `main` prints `form` with its `Display` formatting.
pub open spec fn reference_program(form: Seq<char>) -> Seq<char> {
    "fn main() {\n    \tprintln!(\"{}\","@ + form + ");\n        }"@
}

/// Builds the program that prints the value of the expression `form`.
pub fn reference_source(form: &str) -> (source: String)
    ensures
        source@ == reference_program(form@),
{
    let mut source = String::from_str("fn main() {\n    \tprintln!(\"{}\",");
    source.append(form);
    source.append(");\n        }");
    source
}

} // verus!
