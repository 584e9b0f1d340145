use vstd::prelude::*;

use crate::lex::{
    digits_end, digits_value, ident_end, is_ws, lemma_scan_advances, lex_from, lex_spec, scan,
    LexError, Lexeme,
};
use crate::parse::expr_spec;
use crate::token::{is_punct, punct_spelling, PosToken, Token};

verus! {

/// Each punctuation symbol, written alone, lexes to exactly that symbol at
/// offset 0.
pub proof fn lemma_punct_round_trip(t: Token)
    requires
        is_punct(t),
    ensures
        lex_spec(punct_spelling(t)) == Ok::<Seq<(Lexeme, int)>, crate::lex::LexError>(
            seq![(Lexeme::Fixed(t), 0int)],
        ),
{
    let s = punct_spelling(t);
    let n = s.len() as int;
    assert(lex_from(s, n) == Ok::<Seq<(Lexeme, int)>, crate::lex::LexError>(Seq::empty()));
    assert(scan(s, 0) == Ok::<(Lexeme, int), crate::lex::LexError>((Lexeme::Fixed(t), n)));
    assert(seq![(Lexeme::Fixed(t), 0int)] + Seq::<(Lexeme, int)>::empty() =~= seq![
        (Lexeme::Fixed(t), 0int),
    ]);
}

/// Parsing depends on the tokens alone: two parses of the same tokens, each
/// from a fresh start, give the same tree or the same error.
pub proof fn lemma_reparse_identical(t1: Seq<PosToken>, t2: Seq<PosToken>)
    requires
        t1 == t2,
    ensures
        expr_spec(t1, 0) == expr_spec(t2, 0),
{
}

/// Every character of `w` is whitespace.
pub open spec fn all_ws(w: Seq<char>) -> bool {
    forall|k: int| 0 <= k < w.len() ==> is_ws(#[trigger] w[k])
}

/// The lexemes without their offsets.
pub open spec fn kinds(ls: Seq<(Lexeme, int)>) -> Seq<Lexeme> {
    ls.map_values(|x: (Lexeme, int)| x.0)
}

/// The lexemes with every offset moved by `d`.
pub open spec fn shifted(ls: Seq<(Lexeme, int)>, d: int) -> Seq<(Lexeme, int)> {
    ls.map_values(|x: (Lexeme, int)| (x.0, x.1 + d))
}

pub open spec fn shifted_error(e: LexError, d: int) -> LexError {
    match e {
        LexError::UnexpectedChar { ch, pos } => LexError::UnexpectedChar {
            ch,
            pos: (pos + d) as usize,
        },
        LexError::Overflow { pos } => LexError::Overflow { pos: (pos + d) as usize },
    }
}

/// The lexing of a text that now starts `d` characters later.
pub open spec fn shifted_result(r: Result<Seq<(Lexeme, int)>, LexError>, d: int) -> Result<
    Seq<(Lexeme, int)>,
    LexError,
> {
    match r {
        Ok(ls) => Ok(shifted(ls, d)),
        Err(e) => Err(shifted_error(e, d)),
    }
}

/// The lexemes of two texts one after the other, or the first error.
pub open spec fn joined(
    a: Result<Seq<(Lexeme, int)>, LexError>,
    b: Result<Seq<(Lexeme, int)>, LexError>,
) -> Result<Seq<(Lexeme, int)>, LexError> {
    match a {
        Err(e) => Err(e),
        Ok(x) => match b {
            Ok(y) => Ok(x + y),
            Err(e) => Err(e),
        },
    }
}

proof fn lemma_ident_end_prefix(s1: Seq<char>, rest: Seq<char>, j: int)
    requires
        0 <= j <= s1.len(),
        rest.len() > 0 && is_ws(rest[0]),
    ensures
        ident_end(s1 + rest, j) == ident_end(s1, j),
    decreases s1.len() - j,
{
    let t = s1 + rest;
    if j < s1.len() {
        assert(t[j] == s1[j]);
        lemma_ident_end_prefix(s1, rest, j + 1);
    } else {
        assert(t[j] == rest[0]);
    }
}

proof fn lemma_digits_end_prefix(s1: Seq<char>, rest: Seq<char>, j: int)
    requires
        0 <= j <= s1.len(),
        rest.len() > 0 && is_ws(rest[0]),
    ensures
        digits_end(s1 + rest, j) == digits_end(s1, j),
    decreases s1.len() - j,
{
    let t = s1 + rest;
    if j < s1.len() {
        assert(t[j] == s1[j]);
        lemma_digits_end_prefix(s1, rest, j + 1);
    } else {
        assert(t[j] == rest[0]);
    }
}

proof fn lemma_digits_value_prefix(s1: Seq<char>, rest: Seq<char>, lo: int, hi: int)
    requires
        0 <= lo,
        hi <= s1.len(),
    ensures
        digits_value(s1 + rest, lo, hi) == digits_value(s1, lo, hi),
    decreases hi - lo,
{
    if lo < hi {
        assert((s1 + rest)[hi - 1] == s1[hi - 1]);
        lemma_digits_value_prefix(s1, rest, lo, hi - 1);
    }
}

/// Scanning a token of `s1` reads nothing past the whitespace that follows.
proof fn lemma_scan_prefix(s1: Seq<char>, rest: Seq<char>, i: int)
    requires
        0 <= i < s1.len(),
        rest.len() > 0 && is_ws(rest[0]),
    ensures
        scan(s1 + rest, i) == scan(s1, i),
{
    let t = s1 + rest;
    assert(t[i] == s1[i]);
    if i + 1 < s1.len() {
        assert(t[i + 1] == s1[i + 1]);
    } else {
        assert(t[i + 1] == rest[0]);
    }
    lemma_ident_end_prefix(s1, rest, i);
    lemma_digits_end_prefix(s1, rest, i);
    lemma_digits_end_prefix(s1, rest, i + 1);
    crate::lex::lemma_ident_end(s1, i);
    crate::lex::lemma_digits_end(s1, i);
    crate::lex::lemma_digits_end(s1, i + 1);
    lemma_digits_value_prefix(s1, rest, i, digits_end(s1, i));
    lemma_digits_value_prefix(s1, rest, i + 1, digits_end(s1, i + 1));
    assert(t.subrange(i, ident_end(s1, i)) =~= s1.subrange(i, ident_end(s1, i)));
}

/// Lexing `s1` followed by whitespace and more text starts with the lexing
/// of `s1` alone.
proof fn lemma_lex_prefix(s1: Seq<char>, rest: Seq<char>, i: int)
    requires
        0 <= i <= s1.len(),
        rest.len() > 0 && is_ws(rest[0]),
    ensures
        lex_from(s1 + rest, i) == joined(lex_from(s1, i), lex_from(s1 + rest, s1.len() as int)),
    decreases s1.len() - i,
{
    let t = s1 + rest;
    if i == s1.len() {
        match lex_from(t, i) {
            Ok(y) => {
                assert(Seq::<(Lexeme, int)>::empty() + y =~= y);
            },
            Err(_) => {},
        }
    } else {
        assert(t[i] == s1[i]);
        if is_ws(s1[i]) {
            lemma_lex_prefix(s1, rest, i + 1);
        } else {
            lemma_scan_prefix(s1, rest, i);
            lemma_scan_advances(s1, i);
            lemma_scan_advances(t, i);
            match scan(s1, i) {
                Err(_) => {},
                Ok((l, e)) => {
                    lemma_lex_prefix(s1, rest, e);
                    match lex_from(s1, e) {
                        Err(_) => {},
                        Ok(x) => match lex_from(t, s1.len() as int) {
                            Err(_) => {},
                            Ok(y) => {
                                assert(seq![(l, i)] + (x + y) =~= (seq![(l, i)] + x) + y);
                            },
                        },
                    }
                },
            }
        }
    }
}

/// Whitespace yields no lexemes.
proof fn lemma_skip_ws(s: Seq<char>, i: int, j: int)
    requires
        0 <= i <= j <= s.len(),
        forall|k: int| i <= k < j ==> is_ws(#[trigger] s[k]),
    ensures
        lex_from(s, i) == lex_from(s, j),
    decreases j - i,
{
    if i < j {
        lemma_skip_ws(s, i + 1, j);
    }
}

proof fn lemma_ident_end_suffix(p: Seq<char>, s2: Seq<char>, j: int)
    requires
        0 <= j <= s2.len(),
    ensures
        ident_end(p + s2, p.len() + j) == ident_end(s2, j) + p.len(),
    decreases s2.len() - j,
{
    if j < s2.len() {
        assert((p + s2)[p.len() + j] == s2[j]);
        lemma_ident_end_suffix(p, s2, j + 1);
    }
}

proof fn lemma_digits_end_suffix(p: Seq<char>, s2: Seq<char>, j: int)
    requires
        0 <= j <= s2.len(),
    ensures
        digits_end(p + s2, p.len() + j) == digits_end(s2, j) + p.len(),
    decreases s2.len() - j,
{
    if j < s2.len() {
        assert((p + s2)[p.len() + j] == s2[j]);
        lemma_digits_end_suffix(p, s2, j + 1);
    }
}

proof fn lemma_digits_value_suffix(p: Seq<char>, s2: Seq<char>, lo: int, hi: int)
    requires
        0 <= lo,
        hi <= s2.len(),
    ensures
        digits_value(p + s2, p.len() + lo, p.len() + hi) == digits_value(s2, lo, hi),
    decreases hi - lo,
{
    if lo < hi {
        assert((p + s2)[p.len() + hi - 1] == s2[hi - 1]);
        lemma_digits_value_suffix(p, s2, lo, hi - 1);
    }
}

/// A token of `s2` scans the same after any text, only moved.
proof fn lemma_scan_suffix(p: Seq<char>, s2: Seq<char>, k: int)
    requires
        0 <= k < s2.len(),
        p.len() + s2.len() <= usize::MAX,
    ensures
        scan(p + s2, p.len() + k) == match scan(s2, k) {
            Ok((l, e)) => Ok((l, e + p.len())),
            Err(x) => Err(shifted_error(x, p.len() as int)),
        },
{
    let t = p + s2;
    let i = p.len() + k;
    assert(t[i] == s2[k]);
    if k + 1 < s2.len() {
        assert(t[i + 1] == s2[k + 1]);
    }
    lemma_ident_end_suffix(p, s2, k);
    lemma_digits_end_suffix(p, s2, k);
    lemma_digits_end_suffix(p, s2, k + 1);
    crate::lex::lemma_ident_end(s2, k);
    crate::lex::lemma_digits_end(s2, k);
    crate::lex::lemma_digits_end(s2, k + 1);
    lemma_digits_value_suffix(p, s2, k, digits_end(s2, k));
    lemma_digits_value_suffix(p, s2, k + 1, digits_end(s2, k + 1));
    assert(t.subrange(i, ident_end(s2, k) + p.len()) =~= s2.subrange(k, ident_end(s2, k)));
}

/// Lexing the end of a text gives the lexing of that end alone, moved.
proof fn lemma_lex_suffix(p: Seq<char>, s2: Seq<char>, k: int)
    requires
        0 <= k <= s2.len(),
        p.len() + s2.len() <= usize::MAX,
    ensures
        lex_from(p + s2, p.len() + k) == shifted_result(lex_from(s2, k), p.len() as int),
    decreases s2.len() - k,
{
    let t = p + s2;
    let i = p.len() + k;
    if k == s2.len() {
        assert(shifted(Seq::<(Lexeme, int)>::empty(), p.len() as int) =~= Seq::empty());
    } else {
        assert(t[i] == s2[k]);
        if is_ws(s2[k]) {
            lemma_lex_suffix(p, s2, k + 1);
        } else {
            lemma_scan_suffix(p, s2, k);
            lemma_scan_advances(s2, k);
            match scan(s2, k) {
                Err(_) => {},
                Ok((l, e)) => {
                    lemma_lex_suffix(p, s2, e);
                    match lex_from(s2, e) {
                        Err(_) => {},
                        Ok(x) => {
                            assert(seq![(l, i)] + shifted(x, p.len() as int) =~= shifted(
                                seq![(l, k)] + x,
                                p.len() as int,
                            ));
                        },
                    }
                },
            }
        }
    }
}

/// A run of whitespace splits a text in two: the text lexes as the first
/// part followed by the second, whose offsets move by where it now starts.
pub proof fn lemma_lex_split(s1: Seq<char>, w: Seq<char>, s2: Seq<char>)
    requires
        w.len() > 0,
        all_ws(w),
        s1.len() + w.len() + s2.len() <= usize::MAX,
    ensures
        lex_spec(s1 + w + s2) == joined(
            lex_spec(s1),
            shifted_result(lex_spec(s2), (s1.len() + w.len()) as int),
        ),
{
    let t = s1 + w + s2;
    let p = s1 + w;
    assert(t =~= s1 + (w + s2));
    assert(t =~= p + s2);
    assert((w + s2)[0] == w[0]);
    lemma_lex_prefix(s1, w + s2, 0);
    assert forall|k: int| s1.len() <= k < p.len() implies is_ws(#[trigger] t[k]) by {
        assert(t[k] == w[k - s1.len()]);
    }
    lemma_skip_ws(t, s1.len() as int, p.len() as int);
    lemma_lex_suffix(p, s2, 0);
}

/// Whitespace between tokens only moves them. Where cutting a text in two
/// falls between tokens (the text lexes to the lexemes of its first part,
/// then those of its second), putting any run of whitespace at the cut keeps
/// every lexeme; only those after the cut move, by the length of the run.
pub proof fn lemma_whitespace_invariance(s1: Seq<char>, w: Seq<char>, s2: Seq<char>)
    requires
        all_ws(w),
        s1.len() + w.len() + s2.len() <= usize::MAX,
        lex_spec(s1) is Ok,
        lex_spec(s2) is Ok,
        lex_spec(s1 + s2) == Ok::<Seq<(Lexeme, int)>, LexError>(
            lex_spec(s1)->Ok_0 + shifted(lex_spec(s2)->Ok_0, s1.len() as int),
        ),
    ensures
        lex_spec(s1 + w + s2) == Ok::<Seq<(Lexeme, int)>, LexError>(
            lex_spec(s1)->Ok_0 + shifted(lex_spec(s2)->Ok_0, (s1.len() + w.len()) as int),
        ),
        kinds(lex_spec(s1 + w + s2)->Ok_0) == kinds(lex_spec(s1 + s2)->Ok_0),
{
    let a = lex_spec(s1)->Ok_0;
    let b = lex_spec(s2)->Ok_0;
    if w.len() == 0 {
        assert(s1 + w + s2 =~= s1 + s2);
    } else {
        lemma_lex_split(s1, w, s2);
    }
    assert(kinds(a + shifted(b, (s1.len() + w.len()) as int)) =~= kinds(a + shifted(b, s1.len() as int)));
}

/// The pieces `ps[k..]` written one after the other.
pub open spec fn plain(ps: Seq<Seq<char>>, k: int) -> Seq<char>
    decreases ps.len() - k,
{
    if k < 0 || k >= ps.len() {
        Seq::empty()
    } else if k + 1 == ps.len() {
        ps[k]
    } else {
        ps[k] + plain(ps, k + 1)
    }
}

/// The pieces `ps[k..]` with the run `ws[j]` put between pieces `j` and
/// `j + 1`.
pub open spec fn spread(ps: Seq<Seq<char>>, ws: Seq<Seq<char>>, k: int) -> Seq<char>
    decreases ps.len() - k,
{
    if k < 0 || k >= ps.len() {
        Seq::empty()
    } else if k + 1 == ps.len() {
        ps[k]
    } else {
        ps[k] + ws[k] + spread(ps, ws, k + 1)
    }
}

/// Every cut from piece `k` on falls between tokens: each piece lexes, and
/// the text from each cut on lexes to the lexemes of its first piece
/// followed by those of the rest.
pub open spec fn cuts_between_tokens(ps: Seq<Seq<char>>, k: int) -> bool {
    forall|j: int|
        k <= j < ps.len() ==> lex_spec(#[trigger] ps[j]) is Ok && (j + 1 < ps.len() ==> lex_spec(
            plain(ps, j),
        ) == Ok::<Seq<(Lexeme, int)>, LexError>(
            lex_spec(ps[j])->Ok_0 + shifted(lex_spec(plain(ps, j + 1))->Ok_0, ps[j].len() as int),
        ))
}

proof fn lemma_kinds_concat(a: Seq<(Lexeme, int)>, b: Seq<(Lexeme, int)>, d: int)
    ensures
        kinds(a + shifted(b, d)) == kinds(a) + kinds(b),
{
    assert(kinds(a + shifted(b, d)) =~= kinds(a) + kinds(b));
}

proof fn lemma_spread_len(ps: Seq<Seq<char>>, ws: Seq<Seq<char>>, k: int)
    requires
        0 <= k < ps.len(),
    ensures
        k + 1 < ps.len() ==> spread(ps, ws, k).len() == ps[k].len() + ws[k].len() + spread(
            ps,
            ws,
            k + 1,
        ).len(),
{
}

/// Whitespace at any number of cuts between tokens keeps every token kind.
/// The text is the pieces `ps` one after the other, and each cut between
/// two pieces falls between tokens. Putting a nonempty run of whitespace
/// `ws[j]` at each cut `j` gives a text that lexes, to the same lexemes in
/// the same order; only their offsets change. An empty first or last piece
/// puts a run before the first token or after the last.
pub proof fn lemma_whitespace_invariance_at_cuts(
    ps: Seq<Seq<char>>,
    ws: Seq<Seq<char>>,
    k: int,
)
    requires
        0 <= k < ps.len(),
        ws.len() + 1 == ps.len(),
        forall|j: int| 0 <= j < ws.len() ==> #[trigger] ws[j].len() > 0 && all_ws(ws[j]),
        spread(ps, ws, k).len() <= usize::MAX,
        cuts_between_tokens(ps, k),
    ensures
        lex_spec(spread(ps, ws, k)) is Ok,
        lex_spec(plain(ps, k)) is Ok,
        kinds(lex_spec(spread(ps, ws, k))->Ok_0) == kinds(lex_spec(plain(ps, k))->Ok_0),
    decreases ps.len() - k,
{
    assert(lex_spec(ps[k]) is Ok);
    if k + 1 < ps.len() {
        lemma_spread_len(ps, ws, k);
        assert(ws[k].len() > 0 && all_ws(ws[k]));
        lemma_whitespace_invariance_at_cuts(ps, ws, k + 1);
        let rest = spread(ps, ws, k + 1);
        lemma_lex_split(ps[k], ws[k], rest);
        let a = lex_spec(ps[k])->Ok_0;
        let l = lex_spec(rest)->Ok_0;
        let pl = lex_spec(plain(ps, k + 1))->Ok_0;
        lemma_kinds_concat(a, l, (ps[k].len() + ws[k].len()) as int);
        lemma_kinds_concat(a, pl, ps[k].len() as int);
    }
}

} // verus!
