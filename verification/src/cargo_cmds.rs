//! The playground crate that runs the REPL's program: where its files
//! live, how its manifest is cleaned of added dependencies, how a `cargo
//! add` request is read, and which output of a run is shown.

use vstd::prelude::*;
use crate::text::{
    chars_of, contains_chars, contains_seq, is_split_of, join_with, lemma_join_with_cons,
    lemma_lines_have_no_newline, lemma_split_unique, lines, lines_of, push_char, split_chars,
    split_seq, string_of, string_views, strip_cr, views_of,
};

verus! {

/// The path `part` appended to `base` as `PathBuf::push` does on Unix: an
/// absolute `part` replaces `base`; otherwise a `/` goes between them
/// unless `base` is empty or already ends with one.
pub open spec fn join_path(base: Seq<char>, part: Seq<char>) -> Seq<char> {
    if part.len() > 0 && part[0] == '/' {
        part
    } else if base.len() == 0 || base.last() == '/' {
        base + part
    } else {
        base.push('/') + part
    }
}

/// Appends the path `part` to `base`.
pub fn join(base: &str, part: &str) -> (path: String)
    ensures
        path@ == join_path(base@, part@),
{
    let part_len = part.unicode_len();
    if part_len > 0 && part.get_char(0) == '/' {
        return String::from_str(part);
    }
    let base_len = base.unicode_len();
    let mut path = String::from_str(base);
    if base_len > 0 && base.get_char(base_len - 1) != '/' {
        push_char(&mut path, '/');
    }
    path.append(part);
    path
}

/// The name of the playground crate.
pub open spec fn playground_name() -> Seq<char> {
    "rust_repl_playground"@
}

/// Where the playground crate and its files are.
#[derive(Clone, Debug)]
pub struct CargoCmds {
    pub tmp_dir: String,
    pub rust_repl_playground_dir: String,
    pub main_file: String,
}

impl CargoCmds {
    /// The playground crate inside the directory `tmp_dir`.
    pub fn in_dir(tmp_dir: String) -> (cmds: Self)
        ensures
            cmds.tmp_dir@ == tmp_dir@,
            cmds.rust_repl_playground_dir@ == join_path(tmp_dir@, playground_name()),
            cmds.main_file@ == join_path(cmds.rust_repl_playground_dir@, "src/main.rs"@),
    {
        let rust_repl_playground_dir = join(tmp_dir.as_str(), "rust_repl_playground");
        let main_file = join(rust_repl_playground_dir.as_str(), "src/main.rs");
        CargoCmds { tmp_dir, rust_repl_playground_dir, main_file }
    }

    /// The manifest of the playground crate.
    pub fn toml_file(&self) -> (path: String)
        ensures
            path@ == join_path(self.rust_repl_playground_dir@, "Cargo.toml"@),
    {
        join(self.rust_repl_playground_dir.as_str(), "Cargo.toml")
    }
}

/// The section header after which `cargo add` writes dependencies.
pub open spec fn dependencies_marker() -> Seq<char> {
    "[dependencies]"@
}

/// The lines up to and including the first that mentions the dependencies
/// section, each but that last one followed by a newline; all lines, each
/// followed by a newline, when none mentions it.
pub open spec fn keep_through_dependencies(ls: Seq<Seq<char>>) -> Seq<char>
    decreases ls.len(),
{
    if ls.len() == 0 {
        Seq::empty()
    } else if contains_seq(ls[0], dependencies_marker()) {
        ls[0]
    } else {
        ls[0].push('\n') + keep_through_dependencies(ls.drop_first())
    }
}

/// The manifest `contents` without the dependencies listed after the
/// dependencies section header.
pub fn clean_toml_contents(contents: &str) -> (clean: String)
    ensures
        clean@ == keep_through_dependencies(lines_of(contents@)),
{
    let text = chars_of(contents);
    let ls = lines(text.as_slice());
    let marker = chars_of("[dependencies]");
    let ghost lsv = views_of(ls@);
    let mut clean = String::new();
    let mut i: usize = 0;
    assert(lsv.skip(0) =~= lsv);
    while i < ls.len()
        invariant
            lsv == views_of(ls@),
            lsv == lines_of(text@),
            text@ == contents@,
            marker@ == dependencies_marker(),
            i <= ls.len(),
            keep_through_dependencies(lsv) == clean@ + keep_through_dependencies(lsv.skip(i as int)),
        decreases ls.len() - i,
    {
        let line = &ls[i];
        assert(line@ == lsv[i as int]);
        assert(lsv.skip(i as int)[0] == line@);
        assert(lsv.skip(i as int).drop_first() =~= lsv.skip(i + 1));
        let s = string_of(line.as_slice());
        clean.append(s.as_str());
        if contains_chars(line.as_slice(), marker.as_slice()) {
            assert(clean@ =~= keep_through_dependencies(lsv));
            return clean;
        }
        push_char(&mut clean, '\n');
        i = i + 1;
        assert(keep_through_dependencies(lsv) =~= clean@ + keep_through_dependencies(lsv.skip(i as int)));
    }
    assert(lsv.skip(i as int) =~= Seq::<Seq<char>>::empty());
    assert(clean@ =~= keep_through_dependencies(lsv));
    clean
}

/// The lines that cleaning keeps: up to and including the first that
/// mentions the dependencies section.
pub open spec fn kept_lines(ls: Seq<Seq<char>>) -> Seq<Seq<char>>
    decreases ls.len(),
{
    if ls.len() == 0 {
        ls
    } else if contains_seq(ls[0], dependencies_marker()) {
        seq![ls[0]]
    } else {
        seq![ls[0]] + kept_lines(ls.drop_first())
    }
}

/// Some line mentions the dependencies section.
pub open spec fn mentions_dependencies(ls: Seq<Seq<char>>) -> bool
    decreases ls.len(),
{
    ls.len() > 0 && (contains_seq(ls[0], dependencies_marker()) || mentions_dependencies(
        ls.drop_first(),
    ))
}

/// How the cleaned text falls apart at its newlines: the kept lines, and
/// an empty piece after the last newline when no line mentions the
/// dependencies section.
spec fn kept_pieces(ls: Seq<Seq<char>>) -> Seq<Seq<char>>
    decreases ls.len(),
{
    if ls.len() == 0 {
        seq![Seq::empty()]
    } else if contains_seq(ls[0], dependencies_marker()) {
        seq![ls[0]]
    } else {
        seq![ls[0]] + kept_pieces(ls.drop_first())
    }
}

proof fn lemma_kept_pieces(ls: Seq<Seq<char>>)
    ensures
        kept_pieces(ls).len() >= 1,
        keep_through_dependencies(ls) == join_with(kept_pieces(ls), '\n'),
        kept_pieces(ls) == (if mentions_dependencies(ls) {
            kept_lines(ls)
        } else {
            kept_lines(ls).push(Seq::empty())
        }),
        kept_lines(ls).len() <= ls.len(),
        forall|i: int| 0 <= i < kept_lines(ls).len() ==> #[trigger] kept_lines(ls)[i] == ls[i],
        !mentions_dependencies(ls) ==> kept_lines(ls) == ls,
        mentions_dependencies(ls) ==> kept_lines(ls).len() >= 1 && contains_seq(
            kept_lines(ls).last(),
            dependencies_marker(),
        ),
    decreases ls.len(),
{
    if ls.len() == 0 {
        assert(join_with(seq![Seq::<char>::empty()], '\n') == Seq::<char>::empty());
        assert(kept_lines(ls).push(Seq::empty()) =~= seq![Seq::<char>::empty()]);
    } else if contains_seq(ls[0], dependencies_marker()) {
        assert(join_with(seq![ls[0]], '\n') == ls[0]);
    } else {
        let rest = ls.drop_first();
        lemma_kept_pieces(rest);
        lemma_join_with_cons(ls[0], kept_pieces(rest), '\n');
        assert forall|i: int| 0 <= i < kept_lines(ls).len() implies #[trigger] kept_lines(ls)[i] == ls[i] by {
            if i > 0 {
                assert(kept_lines(ls)[i] == kept_lines(rest)[i - 1]);
            }
        }
        if mentions_dependencies(ls) {
            assert(mentions_dependencies(rest));
            assert((seq![ls[0]] + kept_lines(rest)).last() == kept_lines(rest).last());
        } else {
            assert(seq![ls[0]] + kept_lines(rest).push(Seq::empty()) =~= (seq![ls[0]] + kept_lines(
                rest,
            )).push(Seq::empty()));
            assert(seq![ls[0]] + rest =~= ls);
        }
    }
}

proof fn lemma_keep_kept_lines(ls: Seq<Seq<char>>)
    ensures
        keep_through_dependencies(kept_lines(ls)) == keep_through_dependencies(ls),
    decreases ls.len(),
{
    if ls.len() > 0 {
        if contains_seq(ls[0], dependencies_marker()) {
            assert(seq![ls[0]][0] == ls[0]);
        } else {
            lemma_keep_kept_lines(ls.drop_first());
            let k = seq![ls[0]] + kept_lines(ls.drop_first());
            assert(k[0] == ls[0]);
            assert(k.drop_first() =~= kept_lines(ls.drop_first()));
        }
    }
}

/// The line ends with a carriage return.
pub open spec fn ends_with_cr(line: Seq<char>) -> bool {
    line.len() > 0 && line.last() == '\r'
}

/// The kept line `i` is followed by a newline in the cleaned text: it is
/// not the line that mentions the dependencies section.
pub open spec fn followed_by_newline(ls: Seq<Seq<char>>, i: int) -> bool {
    &&& 0 <= i < kept_lines(ls).len()
    &&& (i + 1 < kept_lines(ls).len() || !mentions_dependencies(ls))
}

/// Cleaning a cleaned manifest changes nothing, provided that no kept line
/// that the cleaned text follows with a newline ends with a carriage
/// return (such a return would be read as part of the line ending once the
/// newline follows it).
pub proof fn lemma_clean_toml_idempotent(contents: Seq<char>)
    requires
        forall|i: int|
            #[trigger] followed_by_newline(lines_of(contents), i) ==> !ends_with_cr(lines_of(contents)[i]),
    ensures
        keep_through_dependencies(lines_of(keep_through_dependencies(lines_of(contents))))
            == keep_through_dependencies(lines_of(contents)),
{
    let ls = lines_of(contents);
    let c = keep_through_dependencies(ls);
    lemma_lines_have_no_newline(contents);
    lemma_kept_pieces(ls);
    let pieces = kept_pieces(ls);
    let k = kept_lines(ls);
    assert forall|i: int| 0 <= i < pieces.len() implies !(#[trigger] pieces[i]).contains('\n') by {
        if i < k.len() {
            assert(pieces[i] == ls[i]);
        } else {
            assert(pieces[i] == Seq::<char>::empty());
        }
    }
    assert(is_split_of(pieces, c, '\n'));
    lemma_split_unique(pieces, c, '\n');
    let again = lines_of(c);
    if mentions_dependencies(ls) {
        reveal_strlit("[dependencies]");
        assert(pieces.last().len() > 0) by {
            let j = choose|j: int|
                0 <= j && j + dependencies_marker().len() <= pieces.last().len() && #[trigger] pieces.last().subrange(
                    j,
                    j + dependencies_marker().len(),
                ) == dependencies_marker();
        }
        assert forall|i: int| 0 <= i < k.len() implies #[trigger] again[i] == k[i] by {
            if i + 1 < pieces.len() {
                assert(followed_by_newline(ls, i));
                assert(!ends_with_cr(ls[i]));
                assert(strip_cr(pieces[i]) == pieces[i]);
            }
        }
        assert(again =~= k);
    } else {
        assert(pieces.last() == Seq::<char>::empty());
        assert forall|i: int| 0 <= i < k.len() implies #[trigger] again[i] == k[i] by {
            assert(followed_by_newline(ls, i));
            assert(!ends_with_cr(ls[i]));
            assert(strip_cr(pieces[i]) == pieces[i]);
        }
        assert(again =~= k);
    }
    lemma_keep_kept_lines(ls);
}

/// The words of a `cargo add` request, cut at each space, when there are
/// at least two of them (`add` and what to add); `None` otherwise.
pub fn cargo_add_args(add_dep: &str) -> (args: Option<Vec<String>>)
    ensures
        args is None <==> split_seq(add_dep@, ' ').len() < 2,
        args matches Some(v) ==> string_views(v@) == split_seq(add_dep@, ' '),
{
    let text = chars_of(add_dep);
    let pieces = split_chars(text.as_slice(), ' ');
    if pieces.len() < 2 {
        return None;
    }
    let mut args: Vec<String> = Vec::new();
    let mut i: usize = 0;
    while i < pieces.len()
        invariant
            i <= pieces.len(),
            views_of(pieces@) == split_seq(add_dep@, ' '),
            string_views(args@) =~= views_of(pieces@).take(i as int),
        decreases pieces.len() - i,
    {
        let word = string_of(pieces[i].as_slice());
        let ghost before = args@;
        args.push(word);
        assert(args@ == before.push(word));
        assert(string_views(args@) =~= string_views(before).push(word@));
        assert(views_of(pieces@).take(i + 1) =~= views_of(pieces@).take(i as int).push(pieces@[i as int]@));
        i = i + 1;
    }
    assert(views_of(pieces@).take(pieces.len() as int) =~= views_of(pieces@));
    Some(args)
}

/// What a run of the playground shows: its standard output, or its error
/// output when the standard output is empty.
pub fn run_output(stdout: String, stderr: String) -> (shown: String)
    ensures
        shown == (if stdout@.len() == 0 { stderr } else { stdout }),
{
    if stdout.unicode_len() == 0 {
        stderr
    } else {
        stdout
    }
}

} // verus!
