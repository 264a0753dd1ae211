//! The program that the REPL grows: a `main` function whose body gathers
//! the statements entered so far.

use vstd::prelude::*;
use crate::text::{concat_strings, push_char, string_views};

verus! {

/// The first line of the program.
pub open spec fn program_header() -> Seq<char> {
    "fn main() {\n"@
}

/// The last line of the program.
pub open spec fn program_footer() -> Seq<char> {
    "}"@
}

/// What a REPL holds: the lines of the program and the place where the
/// next statement goes.
pub struct ReplModel {
    pub body: Seq<Seq<char>>,
    pub cursor: nat,
}

impl ReplModel {
    /// A program with an empty `main`.
    pub open spec fn initial() -> ReplModel {
        ReplModel { body: seq![program_header(), program_footer()], cursor: 1 }
    }

    /// The line `input`, ended by a newline, placed at the cursor, and the
    /// cursor moved past it.
    pub open spec fn insert(self, input: Seq<char>) -> ReplModel {
        ReplModel { body: self.body.insert(self.cursor as int, input.push('\n')), cursor: self.cursor + 1 }
    }

    /// The text of the program.
    pub open spec fn program(self) -> Seq<char> {
        self.body.flatten()
    }

    /// The header comes first, the footer last, and the cursor sits right
    /// before the footer.
    pub open spec fn well_formed(self) -> bool {
        &&& self.body.len() >= 2
        &&& self.body[0] == program_header()
        &&& self.body.last() == program_footer()
        &&& self.cursor == self.body.len() - 1
    }
}

/// A fresh REPL is well formed: its program is an empty `main`.
pub proof fn lemma_initial_well_formed()
    ensures
        ReplModel::initial().well_formed(),
        ReplModel::initial().program() == program_header() + program_footer(),
{
    broadcast use Seq::lemma_flatten_push;

    let b = ReplModel::initial().body;
    assert(b == seq![program_header()].push(program_footer()));
    assert(seq![program_header()] == Seq::<Seq<char>>::empty().push(program_header()));
    assert(Seq::<Seq<char>>::empty().flatten() =~= Seq::<char>::empty());
    assert(seq![program_header()].flatten() =~= program_header());
}

/// Adding a statement keeps the header first, the footer last and the
/// cursor before the footer; the statement, ended by a newline, lands
/// right before the closing brace, after everything added before it.
pub proof fn lemma_insert_keeps_shape(m: ReplModel, input: Seq<char>)
    requires
        m.well_formed(),
    ensures
        m.insert(input).well_formed(),
        m.insert(input).program() == m.body.drop_last().flatten() + input.push('\n')
            + program_footer(),
{
    broadcast use Seq::lemma_flatten_push;

    let line = input.push('\n');
    let n = m.insert(input);
    assert(n.body =~= m.body.drop_last().push(line).push(program_footer()));
    assert(n.body[0] == m.body[0]);
    assert(m.body.drop_last().push(line).push(program_footer()).flatten() == m.body.drop_last().push(
        line,
    ).flatten() + program_footer());
    assert(m.body.drop_last().push(line).flatten() == m.body.drop_last().flatten() + line);
}

pub struct Repl {
    body: Vec<String>,
    cursor: usize,
}

impl View for Repl {
    type V = ReplModel;

    closed spec fn view(&self) -> ReplModel {
        ReplModel { body: string_views(self.body@), cursor: self.cursor as nat }
    }
}

impl Clone for Repl {
    fn clone(&self) -> (r: Self)
        ensures
            r@ == self@,
    {
        let mut body: Vec<String> = Vec::new();
        let mut i: usize = 0;
        while i < self.body.len()
            invariant
                i <= self.body.len(),
                string_views(body@) == string_views(self.body@).take(i as int),
            decreases self.body.len() - i,
        {
            let ghost before = body@;
            let line = self.body[i].clone();
            body.push(line);
            assert(body@ == before.push(line));
            assert(string_views(body@) =~= string_views(before).push(line@));
            assert(string_views(self.body@).take(i + 1) =~= string_views(self.body@).take(i as int).push(
                self.body@[i as int]@,
            ));
            i = i + 1;
            assert(string_views(body@) =~= string_views(self.body@).take(i as int));
        }
        assert(string_views(self.body@).take(self.body.len() as int) =~= string_views(self.body@));
        Repl { body, cursor: self.cursor }
    }
}

impl Repl {
    /// A REPL whose program is an empty `main`.
    pub fn new() -> (r: Self)
        ensures
            r@ == ReplModel::initial(),
    {
        let r = Self {
            body: vec![String::from_str("fn main() {\n"), String::from_str("}")],
            cursor: 1,
        };
        assert(r@.body =~= ReplModel::initial().body);
        r
    }

    /// The lines of the program.
    pub fn body(&self) -> (b: &Vec<String>)
        ensures
            string_views(b@) == self@.body,
    {
        &self.body
    }

    /// The view stays well formed.
    pub closed spec fn wf(&self) -> bool {
        self@.well_formed()
    }

    /// Adds `input`, ended by a newline, as the last statement of `main`.
    pub fn insert(&mut self, input: String)
        requires
            old(self)@.cursor <= old(self)@.body.len(),
        ensures
            final(self)@ == old(self)@.insert(input@),
    {
        let mut input = input;
        push_char(&mut input, '\n');
        let ghost old_body = string_views(self.body@);
        self.body.insert(self.cursor, input);
        assert(string_views(self.body@) =~= old_body.insert(self.cursor as int, input@));
        let grown = self.body.len();
        assert(self.cursor < grown);
        self.cursor = self.cursor + 1;
    }

    /// Starts over with an empty `main`.
    pub fn reset(&mut self)
        ensures
            final(self)@ == ReplModel::initial(),
    {
        *self = Self::new();
    }

    /// The current program, under a heading, for display.
    pub fn show(&self) -> (text: String)
        ensures
            text@ == "Current Repl Code:\n"@ + self@.program(),
    {
        let mut text = String::from_str("Current Repl Code:\n");
        let code = concat_strings(&self.body);
        text.append(code.as_str());
        text
    }

    /// The program text: the lines of the body, one after the other.
    pub fn code(&self) -> (text: String)
        ensures
            text@ == self@.program(),
    {
        concat_strings(&self.body)
    }
}

} // verus!
