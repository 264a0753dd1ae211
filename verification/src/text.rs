//! Character-level text helpers: conversion between `String` and
//! character vectors, decimal rendering, splitting, line breaking and
//! substring search, each stated over `Seq<char>`.

use vstd::prelude::*;
use vstd::utf8::{decode_utf8, encode_scalar, encode_utf8, is_char_boundary};

verus! {

/// Appends one character to a `String`.
///
/// Trusted: calls `String::push`, whose documentation says it appends the
/// given `char` to the end of the string; the contract states exactly that
/// over the character view.
#[verifier::external_body]
pub(crate) fn push_char(s: &mut String, c: char)
    ensures
        final(s)@ == old(s)@.push(c),
{
    s.push(c);
}

/// The characters of `s`, in order.
pub fn chars_of(s: &str) -> (v: Vec<char>)
    ensures
        v@ == s@,
{
    let n = s.unicode_len();
    let mut v: Vec<char> = Vec::new();
    let mut i: usize = 0;
    while i < n
        invariant
            n == s@.len(),
            i <= n,
            v@ == s@.take(i as int),
        decreases n - i,
    {
        let c = s.get_char(i);
        v.push(c);
        i = i + 1;
        assert(v@ == s@.take(i as int));
    }
    assert(s@.take(n as int) == s@);
    v
}

/// A `String` holding the characters `cs`, in order.
pub fn string_of(cs: &[char]) -> (s: String)
    ensures
        s@ == cs@,
{
    let mut s = String::new();
    let mut i: usize = 0;
    while i < cs.len()
        invariant
            i <= cs.len(),
            s@ == cs@.take(i as int),
        decreases cs.len() - i,
    {
        push_char(&mut s, cs[i]);
        i = i + 1;
        assert(s@ == cs@.take(i as int));
    }
    assert(cs@.take(cs.len() as int) == cs@);
    s
}

/// The character of a decimal digit.
pub open spec fn digit_char(d: nat) -> char {
    ((48 + d) as u8) as char
}

/// The decimal notation of `n`, without sign or leading zeros.
pub open spec fn decimal(n: nat) -> Seq<char>
    decreases n,
{
    if n < 10 {
        seq![digit_char(n)]
    } else {
        decimal(n / 10).push(digit_char(n % 10))
    }
}

fn exec_digit_char(d: usize) -> (c: char)
    requires
        d < 10,
    ensures
        c == digit_char(d as nat),
{
    let b: u8 = 48u8 + (d as u8);
    b as char
}

/// Renders `n` in decimal notation.
pub fn decimal_string(n: usize) -> (s: String)
    ensures
        s@ == decimal(n as nat),
    decreases n,
{
    if n < 10 {
        let mut s = String::new();
        push_char(&mut s, exec_digit_char(n));
        s
    } else {
        let mut s = decimal_string(n / 10);
        push_char(&mut s, exec_digit_char(n % 10));
        s
    }
}

/// The character views of a sequence of character vectors.
pub open spec fn views_of(v: Seq<Vec<char>>) -> Seq<Seq<char>> {
    v.map_values(|p: Vec<char>| p@)
}

/// The pieces joined back together, with `sep` between neighbours.
pub open spec fn join_with(pieces: Seq<Seq<char>>, sep: char) -> Seq<char>
    decreases pieces.len(),
{
    if pieces.len() == 0 {
        Seq::empty()
    } else if pieces.len() == 1 {
        pieces[0]
    } else {
        join_with(pieces.drop_last(), sep).push(sep) + pieces.last()
    }
}

/// `pieces` is how `s` falls apart at each occurrence of `sep`: at least
/// one piece, no piece holds `sep`, and joining them with `sep` gives `s`.
pub open spec fn is_split_of(pieces: Seq<Seq<char>>, s: Seq<char>, sep: char) -> bool {
    &&& pieces.len() >= 1
    &&& join_with(pieces, sep) == s
    &&& forall|i: int| 0 <= i < pieces.len() ==> !(#[trigger] pieces[i]).contains(sep)
}

/// The pieces of `s` between occurrences of `sep`, as `str::split` with a
/// `char` pattern yields them (an empty text gives one empty piece).
pub open spec fn split_seq(s: Seq<char>, sep: char) -> Seq<Seq<char>>
    decreases s.len(),
{
    if s.len() == 0 {
        seq![Seq::empty()]
    } else {
        let init = split_seq(s.drop_last(), sep);
        if s.last() == sep {
            init.push(Seq::empty())
        } else {
            init.update(init.len() - 1, init.last().push(s.last()))
        }
    }
}

/// Splitting then joining gives the text back, and no piece holds the
/// separator.
pub proof fn lemma_split_seq_is_split(s: Seq<char>, sep: char)
    ensures
        is_split_of(split_seq(s, sep), s, sep),
    decreases s.len(),
{
    if s.len() == 0 {
        assert(split_seq(s, sep)[0] =~= s);
        assert(!split_seq(s, sep)[0].contains(sep));
    } else {
        let init = split_seq(s.drop_last(), sep);
        lemma_split_seq_is_split(s.drop_last(), sep);
        let ps = split_seq(s, sep);
        let x = s.last();
        assert(s =~= s.drop_last().push(x));
        if x == sep {
            assert(ps.drop_last() =~= init);
            assert(join_with(ps, sep) == join_with(init, sep).push(sep) + ps.last());
            assert(s =~= s.drop_last().push(sep) + Seq::<char>::empty());
            assert forall|i: int| 0 <= i < ps.len() implies !(#[trigger] ps[i]).contains(sep) by {
                if i < ps.len() - 1 {
                    assert(ps[i] == init[i]);
                }
            }
        } else {
            let last = init.last().push(x);
            assert(!last.contains(sep)) by {
                if last.contains(sep) {
                    let j = choose|j: int| 0 <= j < last.len() && last[j] == sep;
                    if j < init.last().len() {
                        assert(init[init.len() - 1][j] == sep);
                    }
                }
            }
            if init.len() == 1 {
                assert(s =~= init[0].push(x));
            } else {
                let a = join_with(init.drop_last(), sep).push(sep);
                assert(ps.drop_last() =~= init.drop_last());
                assert(join_with(init, sep) == a + init.last());
                assert(join_with(ps, sep) == a + last);
                assert((a + init.last()).push(x) =~= a + last);
            }
            assert forall|i: int| 0 <= i < ps.len() implies !(#[trigger] ps[i]).contains(sep) by {
                if i < ps.len() - 1 {
                    assert(ps[i] == init[i]);
                }
            }
        }
    }
}

/// A text without the separator is a single piece.
pub proof fn lemma_split_seq_single(s: Seq<char>, sep: char)
    requires
        !s.contains(sep),
    ensures
        split_seq(s, sep) == seq![s],
    decreases s.len(),
{
    if s.len() == 0 {
        assert(s =~= Seq::<char>::empty());
        assert(split_seq(s, sep) =~= seq![s]);
    } else {
        assert(!s.drop_last().contains(sep)) by {
            if s.drop_last().contains(sep) {
                let j = choose|j: int| 0 <= j < s.drop_last().len() && s.drop_last()[j] == sep;
                assert(s[j] == sep);
            }
        }
        lemma_split_seq_single(s.drop_last(), sep);
        assert(s.last() != sep) by {
            assert(s[s.len() - 1] == s.last());
        }
        let init = split_seq(s.drop_last(), sep);
        assert(init == seq![s.drop_last()]);
        assert(split_seq(s, sep) == init.update(init.len() - 1, init.last().push(s.last())));
        assert(s.drop_last().push(s.last()) =~= s);
        assert(init.update(0, init[0].push(s.last())) =~= seq![s]);
    }
}

/// A separator followed by a run without separators adds that run as
/// one more piece.
pub proof fn lemma_split_seq_append(a: Seq<char>, b: Seq<char>, sep: char)
    requires
        !b.contains(sep),
    ensures
        split_seq(a.push(sep) + b, sep) == split_seq(a, sep).push(b),
    decreases b.len(),
{
    if b.len() == 0 {
        assert(a.push(sep) + b =~= a.push(sep));
        assert(a.push(sep).drop_last() =~= a);
        assert(b =~= Seq::<char>::empty());
        assert(split_seq(a.push(sep), sep) == split_seq(a, sep).push(Seq::empty()));
    } else {
        let b0 = b.drop_last();
        assert(!b0.contains(sep)) by {
            if b0.contains(sep) {
                let j = choose|j: int| 0 <= j < b0.len() && b0[j] == sep;
                assert(b[j] == sep);
            }
        }
        lemma_split_seq_append(a, b0, sep);
        let whole = a.push(sep) + b;
        assert(whole.drop_last() =~= a.push(sep) + b0);
        assert(whole.last() == b.last());
        assert(b.last() != sep) by {
            assert(b[b.len() - 1] == b.last());
        }
        assert(b0.push(b.last()) =~= b);
        let init = split_seq(whole.drop_last(), sep);
        assert(init == split_seq(a, sep).push(b0));
        assert(split_seq(whole, sep) == init.update(init.len() - 1, init.last().push(whole.last())));
        assert(init.update(init.len() - 1, init.last().push(whole.last())) =~= split_seq(a, sep).push(b));
    }
}

/// A text falls apart at a separator in one way only: any split of `s`
/// is the one `split_seq` gives.
pub proof fn lemma_split_unique(pieces: Seq<Seq<char>>, s: Seq<char>, sep: char)
    requires
        is_split_of(pieces, s, sep),
    ensures
        pieces == split_seq(s, sep),
    decreases pieces.len(),
{
    if pieces.len() == 1 {
        assert(!pieces[0].contains(sep));
        lemma_split_seq_single(s, sep);
        assert(pieces =~= seq![s]);
    } else {
        let init = pieces.drop_last();
        assert forall|i: int| 0 <= i < init.len() implies !(#[trigger] init[i]).contains(sep) by {
            assert(init[i] == pieces[i]);
        }
        lemma_split_unique(init, join_with(init, sep), sep);
        assert(!pieces.last().contains(sep)) by {
            assert(pieces.last() == pieces[pieces.len() - 1]);
        }
        lemma_split_seq_append(join_with(init, sep), pieces.last(), sep);
        assert(init.push(pieces.last()) =~= pieces);
    }
}

/// Joining a first piece onto a non-empty rest puts one separator
/// between them.
pub proof fn lemma_join_with_cons(first: Seq<char>, rest: Seq<Seq<char>>, sep: char)
    requires
        rest.len() > 0,
    ensures
        join_with(seq![first] + rest, sep) == first.push(sep) + join_with(rest, sep),
    decreases rest.len(),
{
    let all = seq![first] + rest;
    if rest.len() == 1 {
        assert(all.drop_last() =~= seq![first]);
        assert(all.last() == rest[0]);
        assert(join_with(seq![first], sep) == first);
        assert(join_with(all, sep) == join_with(all.drop_last(), sep).push(sep) + all.last());
        assert(join_with(rest, sep) == rest[0]);
    } else {
        lemma_join_with_cons(first, rest.drop_last(), sep);
        assert(all.drop_last() =~= seq![first] + rest.drop_last());
        assert(all.last() == rest.last());
        let j = join_with(rest.drop_last(), sep);
        assert(join_with(all, sep) == join_with(all.drop_last(), sep).push(sep) + all.last());
        assert(join_with(rest, sep) == j.push(sep) + rest.last());
        assert((first.push(sep) + j).push(sep) + rest.last() =~= first.push(sep) + (j.push(sep)
            + rest.last()));
    }
}

/// No line holds a newline.
pub proof fn lemma_lines_have_no_newline(s: Seq<char>)
    ensures
        forall|i: int| 0 <= i < lines_of(s).len() ==> !(#[trigger] lines_of(s)[i]).contains('\n'),
{
    lemma_split_seq_is_split(s, '\n');
    let ps = split_seq(s, '\n');
    assert forall|i: int| 0 <= i < lines_of(s).len() implies !(#[trigger] lines_of(s)[i]).contains('\n') by {
        assert(!ps[i].contains('\n'));
        if lines_of(s)[i].contains('\n') {
            let j = choose|j: int| 0 <= j < lines_of(s)[i].len() && lines_of(s)[i][j] == '\n';
            assert(ps[i][j] == '\n');
        }
    }
}

/// Splits `s` at each occurrence of `sep`.
pub fn split_chars(s: &[char], sep: char) -> (pieces: Vec<Vec<char>>)
    ensures
        views_of(pieces@) == split_seq(s@, sep),
{
    let mut pieces: Vec<Vec<char>> = Vec::new();
    let mut cur: Vec<char> = Vec::new();
    let mut i: usize = 0;
    assert(s@.take(0) =~= Seq::<char>::empty());
    assert(views_of(pieces@).push(cur@) =~= seq![Seq::<char>::empty()]);
    while i < s.len()
        invariant
            i <= s.len(),
            views_of(pieces@).push(cur@) == split_seq(s@.take(i as int), sep),
        decreases s.len() - i,
    {
        let ghost before = views_of(pieces@).push(cur@);
        assert(s@.take(i + 1).drop_last() =~= s@.take(i as int));
        let c = s[i];
        if c == sep {
            pieces.push(cur);
            cur = Vec::new();
            assert(views_of(pieces@).push(cur@) =~= before.push(Seq::empty()));
        } else {
            cur.push(c);
            assert(views_of(pieces@).push(cur@) =~= before.update(
                before.len() - 1,
                before.last().push(c),
            ));
        }
        i = i + 1;
    }
    let ghost before = views_of(pieces@).push(cur@);
    pieces.push(cur);
    assert(views_of(pieces@) =~= before);
    assert(s@.take(s.len() as int) =~= s@);
    pieces
}

/// Drops one carriage return at the end of a line, where there is one.
pub open spec fn strip_cr(line: Seq<char>) -> Seq<char> {
    if line.len() > 0 && line.last() == '\r' {
        line.drop_last()
    } else {
        line
    }
}

/// The lines of `s` as `str::lines` yields them: the text is cut at each
/// `'\n'`, a `'\r'` right before a `'\n'` is dropped, and a final line
/// ending does not start another (empty) line.
pub open spec fn lines_of(s: Seq<char>) -> Seq<Seq<char>> {
    let ps = split_seq(s, '\n');
    let n: int = if ps.last().len() == 0 { ps.len() - 1 } else { ps.len() as int };
    Seq::new(n as nat, |i: int| if i + 1 < ps.len() { strip_cr(ps[i]) } else { ps[i] })
}

fn copy_prefix(v: &Vec<char>, n: usize) -> (r: Vec<char>)
    requires
        n <= v.len(),
    ensures
        r@ == v@.take(n as int),
{
    let mut r: Vec<char> = Vec::new();
    let mut i: usize = 0;
    while i < n
        invariant
            n <= v.len(),
            i <= n,
            r@ == v@.take(i as int),
        decreases n - i,
    {
        r.push(v[i]);
        i = i + 1;
        assert(r@ =~= v@.take(i as int));
    }
    r
}

/// Breaks `s` into lines.
pub fn lines(s: &[char]) -> (ls: Vec<Vec<char>>)
    ensures
        views_of(ls@) == lines_of(s@),
{
    let ps = split_chars(s, '\n');
    proof {
        lemma_split_seq_is_split(s@, '\n');
    }
    let ghost psv = views_of(ps@);
    assert(psv.len() == ps.len());
    let last_len = ps[ps.len() - 1].len();
    assert(last_len == psv.last().len());
    let n: usize = if last_len == 0 { ps.len() - 1 } else { ps.len() };
    let mut ls: Vec<Vec<char>> = Vec::new();
    let mut i: usize = 0;
    while i < n
        invariant
            psv == views_of(ps@),
            psv == split_seq(s@, '\n'),
            psv.len() == ps.len(),
            n <= ps.len(),
            n as int == (if psv.last().len() == 0 { psv.len() - 1 } else { psv.len() as int }),
            i <= n,
            views_of(ls@) =~= lines_of(s@).take(i as int),
        decreases n - i,
    {
        let piece = &ps[i];
        assert(piece@ == psv[i as int]);
        let keep = if i + 1 < ps.len() && piece.len() > 0 && piece[piece.len() - 1] == '\r' {
            piece.len() - 1
        } else {
            piece.len()
        };
        let line = copy_prefix(piece, keep);
        assert(line@ == lines_of(s@)[i as int]) by {
            if i + 1 < ps.len() && piece.len() > 0 && piece[piece.len() - 1] == '\r' {
                assert(line@ =~= piece@.drop_last());
            } else {
                assert(line@ =~= piece@);
            }
        }
        let ghost before = views_of(ls@);
        ls.push(line);
        assert(views_of(ls@) =~= before.push(lines_of(s@)[i as int]));
        i = i + 1;
    }
    assert(lines_of(s@).take(n as int) =~= lines_of(s@));
    ls
}

/// `needle` occurs in `hay` as a contiguous run.
pub open spec fn contains_seq(hay: Seq<char>, needle: Seq<char>) -> bool {
    exists|i: int|
        0 <= i && i + needle.len() <= hay.len() && #[trigger] hay.subrange(i, i + needle.len())
            == needle
}

fn matches_at(hay: &[char], needle: &[char], at: usize) -> (r: bool)
    requires
        at + needle.len() <= hay.len(),
    ensures
        r == (hay@.subrange(at as int, at + needle.len()) == needle@),
{
    let mut j: usize = 0;
    while j < needle.len()
        invariant
            at + needle.len() <= hay.len(),
            j <= needle.len(),
            forall|k: int| 0 <= k < j ==> hay@[at + k] == needle@[k],
        decreases needle.len() - j,
    {
        if hay[at + j] != needle[j] {
            assert(hay@.subrange(at as int, at + needle.len())[j as int] != needle@[j as int]);
            return false;
        }
        j = j + 1;
    }
    assert(hay@.subrange(at as int, at + needle.len()) =~= needle@);
    true
}

/// Tells whether `needle` occurs in `hay`.
pub fn contains_chars(hay: &[char], needle: &[char]) -> (r: bool)
    ensures
        r == contains_seq(hay@, needle@),
{
    if needle.len() > hay.len() {
        return false;
    }
    let last = hay.len() - needle.len();
    let mut at: usize = 0;
    while at <= last
        invariant
            last + needle.len() == hay.len(),
            forall|i: int| 0 <= i < at ==> #[trigger] hay@.subrange(i, i + needle.len()) != needle@,
        decreases last + 1 - at,
    {
        if matches_at(hay, needle, at) {
            return true;
        }
        if at == last {
            return false;
        }
        at = at + 1;
    }
    false
}

/// The character views of a sequence of strings.
pub open spec fn string_views(v: Seq<String>) -> Seq<Seq<char>> {
    v.map_values(|s: String| s@)
}

/// The strings of `v` written one after the other, as `join("")` does.
pub fn concat_strings(v: &Vec<String>) -> (res: String)
    ensures
        res@ == string_views(v@).flatten(),
{
    broadcast use Seq::lemma_flatten_push;

    let mut res = String::new();
    let mut i: usize = 0;
    assert(string_views(v@).take(0) =~= Seq::<Seq<char>>::empty());
    while i < v.len()
        invariant
            i <= v.len(),
            res@ == string_views(v@).take(i as int).flatten(),
        decreases v.len() - i,
    {
        let ghost before = string_views(v@).take(i as int);
        res.append(v[i].as_str());
        assert(string_views(v@).take(i + 1) =~= before.push(v@[i as int]@));
        proof {
            before.lemma_flatten_push(v@[i as int]@);
        }
        i = i + 1;
    }
    assert(string_views(v@).take(v.len() as int) =~= string_views(v@));
    res
}

/// The length in bytes of the UTF-8 encoding of `s`, which `str::len`
/// gives.
pub open spec fn byte_len(s: Seq<char>) -> int {
    encode_utf8(s).len() as int
}

/// Byte position `p` of the encoding of `s` starts a character or is its
/// end.
pub open spec fn at_char_boundary(s: Seq<char>, p: int) -> bool {
    is_char_boundary(encode_utf8(s), p)
}

/// The characters whose encoding lies before byte `p`.
pub open spec fn before_byte(s: Seq<char>, p: int) -> Seq<char> {
    decode_utf8(encode_utf8(s).subrange(0, p))
}

/// The characters whose encoding lies from byte `p` on.
pub open spec fn after_byte(s: Seq<char>, p: int) -> Seq<char> {
    decode_utf8(encode_utf8(s).subrange(p, byte_len(s)))
}

/// The length in bytes of `s`.
pub fn byte_length(s: &str) -> (n: usize)
    ensures
        n == byte_len(s@),
{
    s.as_bytes().len()
}

/// Encoding a concatenation encodes each part in turn.
pub proof fn lemma_encode_concat(a: Seq<char>, b: Seq<char>)
    ensures
        encode_utf8(a + b) == encode_utf8(a) + encode_utf8(b),
    decreases a.len(),
{
    if a.len() == 0 {
        assert(a + b =~= b);
        assert(encode_utf8(a) =~= Seq::<u8>::empty());
        assert(encode_utf8(a) + encode_utf8(b) =~= encode_utf8(b));
    } else {
        lemma_encode_concat(a.drop_first(), b);
        assert((a + b).drop_first() =~= a.drop_first() + b);
        assert((a + b)[0] == a[0]);
        let e = encode_scalar(a[0] as u32);
        assert(e + (encode_utf8(a.drop_first()) + encode_utf8(b)) =~= (e + encode_utf8(a.drop_first()))
            + encode_utf8(b));
    }
}

/// Only the empty text has an empty encoding.
pub proof fn lemma_encode_empty(s: Seq<char>)
    ensures
        (encode_utf8(s).len() == 0) == (s.len() == 0),
{
    if s.len() > 0 {
        vstd::utf8::encode_utf8_first_scalar(s);
        assert(encode_scalar(s[0] as u32).len() > 0);
    }
}

/// Cutting at a character boundary cuts the text in two: the encodings of
/// the two sides are the bytes before and after the cut.
pub proof fn lemma_cut_at_boundary(s: Seq<char>, p: int)
    requires
        at_char_boundary(s, p),
    ensures
        before_byte(s, p) + after_byte(s, p) == s,
        encode_utf8(before_byte(s, p)) == encode_utf8(s).subrange(0, p),
        encode_utf8(after_byte(s, p)) == encode_utf8(s).subrange(p, byte_len(s)),
        0 <= p <= byte_len(s),
{
    let bytes = encode_utf8(s);
    vstd::utf8::encode_utf8_valid_utf8(s);
    vstd::utf8::encode_utf8_decode_utf8(s);
    vstd::utf8::valid_utf8_split(bytes, p);
    vstd::utf8::decode_utf8_split(bytes, p);
    vstd::utf8::decode_utf8_encode_utf8(bytes.subrange(0, p));
    vstd::utf8::decode_utf8_encode_utf8(bytes.subrange(p, bytes.len() as int));
    assert(0 <= p <= bytes.len());
}

/// The end of the encoding of a prefix is a character boundary of the
/// whole text, and cutting there gives back the prefix and the rest.
pub proof fn lemma_cut_after_prefix(x: Seq<char>, y: Seq<char>)
    ensures
        at_char_boundary(x + y, byte_len(x)),
        before_byte(x + y, byte_len(x)) == x,
        after_byte(x + y, byte_len(x)) == y,
{
    lemma_boundary_after_prefix(x, y);
    lemma_encode_concat(x, y);
    let bytes = encode_utf8(x + y);
    assert(bytes.subrange(0, byte_len(x)) =~= encode_utf8(x));
    assert(bytes.subrange(byte_len(x), byte_len(x + y)) =~= encode_utf8(y));
    vstd::utf8::encode_utf8_decode_utf8(x);
    vstd::utf8::encode_utf8_decode_utf8(y);
}

proof fn lemma_boundary_after_prefix(x: Seq<char>, y: Seq<char>)
    ensures
        is_char_boundary(encode_utf8(x + y), byte_len(x)),
    decreases x.len(),
{
    let bytes = encode_utf8(x + y);
    vstd::utf8::encode_utf8_valid_utf8(x + y);
    lemma_encode_concat(x, y);
    if x.len() == 0 {
        assert(encode_utf8(x) =~= Seq::<u8>::empty());
    } else {
        let rest = x.drop_first();
        lemma_boundary_after_prefix(rest, y);
        vstd::utf8::encode_utf8_first_scalar(x + y);
        assert((x + y)[0] == x[0]);
        assert((x + y).drop_first() =~= rest + y);
        let n = encode_scalar(x[0] as u32).len() as int;
        assert(bytes == encode_scalar(x[0] as u32) + encode_utf8(rest + y));
        assert(vstd::utf8::pop_first_scalar(bytes) =~= encode_utf8(rest + y));
        assert(encode_utf8(x) == encode_scalar(x[0] as u32) + encode_utf8(rest));
        lemma_encode_concat(rest, y);
        lemma_encode_empty(x);
    }
}

/// `s` with `c` put in at byte position `pos`, as `String::insert` does.
pub fn insert_at_byte(s: &String, pos: usize, c: char) -> (r: String)
    requires
        at_char_boundary(s@, pos as int),
    ensures
        r@ == before_byte(s@, pos as int).push(c) + after_byte(s@, pos as int),
{
    proof {
        lemma_cut_at_boundary(s@, pos as int);
        vstd::utf8::encode_utf8_decode_utf8(before_byte(s@, pos as int));
        vstd::utf8::encode_utf8_decode_utf8(after_byte(s@, pos as int));
    }
    let (a, b) = s.as_str().split_at(pos);
    proof {
        vstd::utf8::encode_utf8_decode_utf8(a@);
        vstd::utf8::encode_utf8_decode_utf8(b@);
    }
    let mut r = String::from_str(a);
    push_char(&mut r, c);
    r.append(b);
    r
}

/// `s` without the character that starts at byte position `pos`, as
/// `String::remove` does.
pub fn remove_at_byte(s: &String, pos: usize) -> (r: String)
    requires
        at_char_boundary(s@, pos as int),
        pos < byte_len(s@),
    ensures
        after_byte(s@, pos as int).len() > 0,
        r@ == before_byte(s@, pos as int) + after_byte(s@, pos as int).drop_first(),
{
    proof {
        lemma_cut_at_boundary(s@, pos as int);
        lemma_encode_empty(after_byte(s@, pos as int));
    }
    let (a, b) = s.as_str().split_at(pos);
    proof {
        vstd::utf8::encode_utf8_decode_utf8(a@);
        vstd::utf8::encode_utf8_decode_utf8(b@);
        lemma_encode_empty(b@);
    }
    let n = b.unicode_len();
    let rest = b.substring_char(1, n);
    let mut r = String::from_str(a);
    r.append(rest);
    proof {
        assert(b@.subrange(1, n as int) =~= b@.drop_first());
    }
    r
}

/// `n` copies of `c`.
pub fn repeat_string(c: char, n: usize) -> (r: String)
    ensures
        r@ == Seq::new(n as nat, |i: int| c),
{
    let mut r = String::new();
    let mut i: usize = 0;
    while i < n
        invariant
            i <= n,
            r@ == Seq::new(i as nat, |j: int| c),
        decreases n - i,
    {
        push_char(&mut r, c);
        i = i + 1;
        assert(r@ =~= Seq::new(i as nat, |j: int| c));
    }
    r
}

} // verus!
