use vstd::prelude::*;
use vstd::std_specs::iter::IteratorSpec;
use vstd::utf8::is_ascii_chars;

use crate::token::{keyword_of, Keyword, Pos, PosToken, Token};

verus! {

/// Why a source text could not be split into tokens.
#[derive(Debug, Clone, Copy, PartialEq, Eq, Structural)]
pub enum LexError {
    /// A character that starts no token, with its offset.
    UnexpectedChar { ch: char, pos: Pos },
    /// An integer literal, starting at `pos`, that does not fit in an `i64`.
    Overflow { pos: Pos },
}

/// What the lexer makes of a stretch of source text: a token fixed by the
/// text, or an identifier with the given name.
pub enum Lexeme {
    Fixed(Token),
    Word(Seq<char>),
}

pub open spec fn is_digit(c: char) -> bool {
    '0' <= c && c <= '9'
}

pub open spec fn is_ident_start(c: char) -> bool {
    ('A' <= c && c <= 'Z') || ('a' <= c && c <= 'z') || c == '_'
}

pub open spec fn is_ident_char(c: char) -> bool {
    is_ident_start(c) || is_digit(c)
}

/// ASCII whitespace: space, tab, line feed, form feed, carriage return.
pub open spec fn is_ws(c: char) -> bool {
    c == ' ' || c == '\t' || c == '\n' || c == '\x0C' || c == '\r'
}

/// Whether `s` has the character `c` at index `i`.
pub open spec fn char_at(s: Seq<char>, i: int, c: char) -> bool {
    0 <= i < s.len() && s[i] == c
}

/// The end of the run of identifier characters that starts at `i`.
pub open spec fn ident_end(s: Seq<char>, i: int) -> int
    decreases s.len() - i,
{
    if 0 <= i < s.len() && is_ident_char(s[i]) {
        ident_end(s, i + 1)
    } else {
        i
    }
}

/// The end of the run of decimal digits that starts at `i`.
pub open spec fn digits_end(s: Seq<char>, i: int) -> int
    decreases s.len() - i,
{
    if 0 <= i < s.len() && is_digit(s[i]) {
        digits_end(s, i + 1)
    } else {
        i
    }
}

pub open spec fn digit_value(c: char) -> int {
    (c as u32) as int - ('0' as u32) as int
}

/// The number written in decimal by `s[lo..hi]`.
pub open spec fn digits_value(s: Seq<char>, lo: int, hi: int) -> int
    decreases hi - lo,
{
    if hi <= lo {
        0
    } else {
        digits_value(s, lo, hi - 1) * 10 + digit_value(s[hi - 1])
    }
}

/// The lexeme for a word: a keyword where the word spells one, else an
/// identifier.
pub open spec fn word_lexeme(w: Seq<char>) -> Lexeme {
    match keyword_of(w) {
        Some(k) => Lexeme::Fixed(Token::Keyword(k)),
        None => Lexeme::Word(w),
    }
}

/// An integer literal starting at `start`: an optional `-`, then digits.
pub open spec fn scan_literal(s: Seq<char>, start: int) -> Result<(Lexeme, int), LexError> {
    let neg = s[start] == '-';
    let lo = if neg { start + 1 } else { start };
    let hi = digits_end(s, lo);
    let v = if neg { -digits_value(s, lo, hi) } else { digits_value(s, lo, hi) };
    if i64::MIN <= v <= i64::MAX {
        Ok((Lexeme::Fixed(Token::Literal(v as i64)), hi))
    } else {
        Err(LexError::Overflow { pos: start as usize })
    }
}

/// The token that starts at `i` (not whitespace) and the index just after it.
pub open spec fn scan(s: Seq<char>, i: int) -> Result<(Lexeme, int), LexError> {
    let c = s[i];
    let one = |t: Token| Ok((Lexeme::Fixed(t), i + 1));
    let two = |t: Token| Ok((Lexeme::Fixed(t), i + 2));
    if c == '!' {
        one(Token::Bang)
    } else if c == '&' && char_at(s, i + 1, '&') {
        two(Token::And)
    } else if c == '(' {
        if char_at(s, i + 1, ')') { two(Token::Unit) } else { one(Token::LParen) }
    } else if c == ')' {
        one(Token::RParen)
    } else if c == '*' {
        one(Token::Mult)
    } else if c == '+' {
        one(Token::Plus)
    } else if c == ',' {
        one(Token::Comma)
    } else if c == '/' {
        if char_at(s, i + 1, '=') { two(Token::Neq) } else { one(Token::Div) }
    } else if c == ':' {
        if char_at(s, i + 1, '=') { two(Token::Assign) } else { one(Token::Colon) }
    } else if c == '<' {
        if char_at(s, i + 1, '=') { two(Token::Le) } else { one(Token::Lt) }
    } else if c == '=' {
        if char_at(s, i + 1, '=') { two(Token::Eqeq) } else { one(Token::Eq) }
    } else if c == '>' {
        if char_at(s, i + 1, '=') { two(Token::Ge) } else { one(Token::Gt) }
    } else if c == '|' {
        if char_at(s, i + 1, '|') { two(Token::Or) } else { one(Token::Bar) }
    } else if c == '~' {
        one(Token::Not)
    } else if c == '-' {
        if char_at(s, i + 1, '>') {
            two(Token::Arrow)
        } else if i + 1 < s.len() && is_digit(s[i + 1]) {
            scan_literal(s, i)
        } else {
            one(Token::Minus)
        }
    } else if is_ident_start(c) {
        let e = ident_end(s, i);
        Ok((word_lexeme(s.subrange(i, e)), e))
    } else if is_digit(c) {
        scan_literal(s, i)
    } else {
        Err(LexError::UnexpectedChar { ch: c, pos: i as usize })
    }
}

pub proof fn lemma_ident_end(s: Seq<char>, i: int)
    requires
        0 <= i <= s.len(),
    ensures
        i <= ident_end(s, i) <= s.len(),
        forall|k: int| i <= k < ident_end(s, i) ==> is_ident_char(#[trigger] s[k]),
        ident_end(s, i) < s.len() ==> !is_ident_char(s[ident_end(s, i)]),
    decreases s.len() - i,
{
    if i < s.len() && is_ident_char(s[i]) {
        lemma_ident_end(s, i + 1);
    }
}

pub proof fn lemma_digits_end(s: Seq<char>, i: int)
    requires
        0 <= i <= s.len(),
    ensures
        i <= digits_end(s, i) <= s.len(),
        forall|k: int| i <= k < digits_end(s, i) ==> is_digit(#[trigger] s[k]),
        digits_end(s, i) < s.len() ==> !is_digit(s[digits_end(s, i)]),
    decreases s.len() - i,
{
    if i < s.len() && is_digit(s[i]) {
        lemma_digits_end(s, i + 1);
    }
}

/// A token that is scanned has at least one character and lies in the text.
pub proof fn lemma_scan_advances(s: Seq<char>, i: int)
    requires
        0 <= i < s.len(),
    ensures
        scan(s, i) matches Ok((_, e)) ==> i < e <= s.len(),
{
    lemma_ident_end(s, i);
    if i + 1 <= s.len() {
        lemma_digits_end(s, i + 1);
    }
    lemma_digits_end(s, i);
}

/// The lexemes of `s` from index `i` on, each with its start, or the first
/// error met.
pub open spec fn lex_from(s: Seq<char>, i: int) -> Result<Seq<(Lexeme, int)>, LexError>
    decreases s.len() - i,
{
    if i < 0 || i >= s.len() {
        Ok(Seq::empty())
    } else if is_ws(s[i]) {
        lex_from(s, i + 1)
    } else {
        match scan(s, i) {
            Err(e) => Err(e),
            Ok((l, e)) => {
                proof {
                    lemma_scan_advances(s, i);
                }
                match lex_from(s, e) {
                    Ok(rest) => Ok(seq![(l, i)] + rest),
                    Err(x) => Err(x),
                }
            },
        }
    }
}

/// A text that lexes without error is ASCII from `i` on: whitespace and
/// every token are.
pub proof fn lemma_lexed_is_ascii(s: Seq<char>, i: int)
    requires
        0 <= i,
        lex_from(s, i) is Ok,
    ensures
        forall|k: int| i <= k < s.len() ==> '\0' <= #[trigger] s[k] <= '\u{7f}',
    decreases s.len() - i,
{
    if i < s.len() {
        if is_ws(s[i]) {
            lemma_lexed_is_ascii(s, i + 1);
        } else {
            lemma_scan_advances(s, i);
            lemma_ident_end(s, i);
            lemma_digits_end(s, i);
            lemma_digits_end(s, i + 1);
            let e = scan(s, i)->Ok_0.1;
            lemma_lexed_is_ascii(s, e);
        }
    }
}

/// The offset that an error reports.
pub open spec fn error_pos(e: LexError) -> int {
    match e {
        LexError::UnexpectedChar { pos, .. } => pos as int,
        LexError::Overflow { pos } => pos as int,
    }
}

/// Where lexing from `i` fails, it fails at or after `i`, and all before the
/// reported offset is ASCII.
pub proof fn lemma_error_prefix_is_ascii(s: Seq<char>, i: int)
    requires
        0 <= i,
        s.len() <= usize::MAX,
        lex_from(s, i) is Err,
    ensures
        i <= error_pos(lex_from(s, i)->Err_0) < s.len(),
        forall|k: int|
            i <= k < error_pos(lex_from(s, i)->Err_0) ==> '\0' <= #[trigger] s[k] <= '\u{7f}',
    decreases s.len() - i,
{
    if i < s.len() {
        if is_ws(s[i]) {
            lemma_error_prefix_is_ascii(s, i + 1);
        } else {
            lemma_scan_advances(s, i);
            lemma_ident_end(s, i);
            lemma_digits_end(s, i);
            lemma_digits_end(s, i + 1);
            if scan(s, i) is Ok {
                let e = scan(s, i)->Ok_0.1;
                lemma_error_prefix_is_ascii(s, e);
            }
        }
    }
}

/// The lexemes of `s` from `i` on start in `s`, each after the one before.
pub proof fn lemma_lexeme_offsets(s: Seq<char>, i: int)
    requires
        0 <= i,
        lex_from(s, i) is Ok,
    ensures
        forall|k: int|
            0 <= k < lex_from(s, i)->Ok_0.len() ==> i <= #[trigger] lex_from(s, i)->Ok_0[k].1
                < s.len(),
        forall|a: int, b: int|
            0 <= a < b < lex_from(s, i)->Ok_0.len() ==> #[trigger] lex_from(s, i)->Ok_0[a].1
                < #[trigger] lex_from(s, i)->Ok_0[b].1,
    decreases s.len() - i,
{
    if i < s.len() {
        if is_ws(s[i]) {
            lemma_lexeme_offsets(s, i + 1);
        } else {
            lemma_scan_advances(s, i);
            let (l, e) = scan(s, i)->Ok_0;
            lemma_lexeme_offsets(s, e);
            let rest = lex_from(s, e)->Ok_0;
            let all = lex_from(s, i)->Ok_0;
            assert(all == seq![(l, i)] + rest);
            assert forall|k: int| 0 < k < all.len() implies all[k] == rest[k - 1] by {}
        }
    }
}

/// The lexemes of the whole text.
pub open spec fn lex_spec(s: Seq<char>) -> Result<Seq<(Lexeme, int)>, LexError> {
    lex_from(s, 0)
}

/// Whether token `t` is what lexeme `l` stands for.
pub open spec fn denotes(t: Token, l: Lexeme) -> bool {
    match l {
        Lexeme::Fixed(f) => t == f,
        Lexeme::Word(w) => t is Ident && t->Ident_0@ == w,
    }
}

/// Whether `toks` are the lexemes `ls`, token for token, at the same offsets.
pub open spec fn lexed_as(toks: Seq<PosToken>, ls: Seq<(Lexeme, int)>) -> bool {
    &&& toks.len() == ls.len()
    &&& forall|k: int|
        0 <= k < toks.len() ==> denotes(#[trigger] toks[k].token, ls[k].0) && toks[k].pos as int
            == ls[k].1
}

/// A cursor over the characters of a source text.
pub struct LexBuf {
    pub chars: Vec<char>,
    pub pos: usize,
}

impl LexBuf {
    pub open spec fn wf(&self) -> bool {
        self.pos <= self.chars.len()
    }

    pub fn new(buf: &str) -> (r: LexBuf)
        ensures
            r.chars@ == buf@,
            r.pos == 0,
    {
        let mut chars: Vec<char> = Vec::new();
        let mut it = buf.chars();
        loop
            invariant
                chars@ + it.remaining() == buf@,
                it.obeys_prophetic_iter_laws(),
                it.decrease() is Some,
            ensures
                chars@ == buf@,
            decreases it.decrease()->0,
        {
            match it.next() {
                Some(c) => {
                    chars.push(c);
                },
                None => {
                    assert(chars@ + it.remaining() =~= chars@);
                    break;
                },
            }
        }
        LexBuf { chars, pos: 0 }
    }

    /// The character under the cursor, if any.
    pub fn peek(&self) -> (r: Option<char>)
        requires
            self.wf(),
        ensures
            r == (if self.pos < self.chars.len() {
                Some(self.chars@[self.pos as int])
            } else {
                None
            }),
    {
        if self.pos < self.chars.len() {
            Some(self.chars[self.pos])
        } else {
            None
        }
    }

    /// Advances past the next character if it is `ch`; returns whether it did.
    pub fn consume(&mut self, ch: char) -> (r: bool)
        requires
            old(self).wf(),
        ensures
            final(self).wf(),
            final(self).chars == old(self).chars,
            r == char_at(old(self).chars@, old(self).pos as int, ch),
            final(self).pos == if r { old(self).pos + 1 } else { old(self).pos as int },
    {
        if self.peek() == Some(ch) {
            self.next();
            true
        } else {
            false
        }
    }

    /// Steps back over the character before the cursor and returns it.
    pub fn prev(&mut self) -> (r: char)
        requires
            old(self).wf(),
            old(self).pos > 0,
        ensures
            final(self).wf(),
            final(self).chars == old(self).chars,
            final(self).pos == old(self).pos - 1,
            r == old(self).chars@[old(self).pos - 1],
    {
        self.pos = self.pos - 1;
        self.chars[self.pos]
    }

    /// The character under the cursor, if any, moving past it.
    pub fn next(&mut self) -> (r: Option<char>)
        requires
            old(self).wf(),
        ensures
            final(self).wf(),
            final(self).chars == old(self).chars,
            r == (if old(self).pos < old(self).chars.len() {
                Some(old(self).chars@[old(self).pos as int])
            } else {
                None
            }),
            final(self).pos == if r is Some { old(self).pos + 1 } else { old(self).pos as int },
    {
        let c = self.peek();
        if c.is_some() {
            self.pos = self.pos + 1;
        }
        c
    }
}

pub fn is_digit_char(c: char) -> (r: bool)
    ensures
        r == is_digit(c),
{
    '0' <= c && c <= '9'
}

pub fn is_ident_start_char(c: char) -> (r: bool)
    ensures
        r == is_ident_start(c),
{
    ('A' <= c && c <= 'Z') || ('a' <= c && c <= 'z') || c == '_'
}

pub fn is_ident_body_char(c: char) -> (r: bool)
    ensures
        r == is_ident_char(c),
{
    is_ident_start_char(c) || is_digit_char(c)
}

pub fn is_ws_char(c: char) -> (r: bool)
    ensures
        r == is_ws(c),
{
    c == ' ' || c == '\t' || c == '\n' || c == '\x0C' || c == '\r'
}

/// Relies on `String::push`: appends one character at the end.
#[verifier::external_body]
fn push_char(s: &mut String, c: char)
    ensures
        final(s)@ == old(s)@.push(c),
{
    s.push(c)
}

/// Whether the characters of `w` are those of `k`.
fn word_is(w: &Vec<char>, k: &str) -> (r: bool)
    ensures
        r == (w@ == k@),
{
    let n = k.unicode_len();
    if w.len() != n {
        return false;
    }
    let mut i: usize = 0;
    while i < n
        invariant
            n == k@.len(),
            w@.len() == n,
            i <= n,
            forall|j: int| 0 <= j < i ==> w@[j] == k@[j],
        decreases n - i,
    {
        if w[i] != k.get_char(i) {
            return false;
        }
        i = i + 1;
    }
    assert(w@ =~= k@);
    true
}

/// The keyword that `w` spells, if any.
pub fn keyword_of_word(w: &Vec<char>) -> (r: Option<Keyword>)
    ensures
        r == keyword_of(w@),
{
    if word_is(w, "let") {
        Some(Keyword::Let)
    } else if word_is(w, "rec") {
        Some(Keyword::Rec)
    } else if word_is(w, "in") {
        Some(Keyword::In)
    } else if word_is(w, "fun") {
        Some(Keyword::Fun)
    } else if word_is(w, "ref") {
        Some(Keyword::Ref)
    } else if word_is(w, "if") {
        Some(Keyword::If)
    } else if word_is(w, "then") {
        Some(Keyword::Then)
    } else if word_is(w, "else") {
        Some(Keyword::Else)
    } else if word_is(w, "fst") {
        Some(Keyword::Fst)
    } else if word_is(w, "snd") {
        Some(Keyword::Snd)
    } else if word_is(w, "true") {
        Some(Keyword::True)
    } else if word_is(w, "false") {
        Some(Keyword::False)
    } else if word_is(w, "case") {
        Some(Keyword::Case)
    } else if word_is(w, "of") {
        Some(Keyword::Of)
    } else if word_is(w, "inl") {
        Some(Keyword::Inl)
    } else if word_is(w, "inr") {
        Some(Keyword::Inr)
    } else if word_is(w, "int") {
        Some(Keyword::Int)
    } else if word_is(w, "bool") {
        Some(Keyword::Bool)
    } else {
        None
    }
}

/// Lexes a keyword or identifier whose first character the cursor has just
/// passed.
pub fn lex_ident(buf: &mut LexBuf) -> (r: Token)
    requires
        old(buf).wf(),
        old(buf).pos > 0,
        is_ident_start(old(buf).chars@[old(buf).pos - 1]),
    ensures
        final(buf).wf(),
        final(buf).chars@ == old(buf).chars@,
        final(buf).pos == ident_end(old(buf).chars@, old(buf).pos - 1),
        denotes(r, word_lexeme(old(buf).chars@.subrange(old(buf).pos - 1, final(buf).pos as int))),
{
    let ghost s = buf.chars@;
    buf.prev();
    let start = buf.pos;
    let mut word: Vec<char> = Vec::new();
    let mut name = String::new();
    loop
        invariant
            buf.wf(),
            buf.chars@ == s,
            start <= buf.pos,
            ident_end(s, start as int) == ident_end(s, buf.pos as int),
            word@ == s.subrange(start as int, buf.pos as int),
            name@ == word@,
        ensures
            buf.wf(),
            buf.chars@ == s,
            buf.pos == ident_end(s, start as int),
            word@ == s.subrange(start as int, buf.pos as int),
            name@ == word@,
        decreases s.len() - buf.pos,
    {
        match buf.peek() {
            Some(c) => {
                if is_ident_body_char(c) {
                    buf.next();
                    word.push(c);
                    push_char(&mut name, c);
                    assert(word@ =~= s.subrange(start as int, buf.pos as int));
                } else {
                    break;
                }
            },
            None => break,
        }
    }
    match keyword_of_word(&word) {
        Some(k) => Token::Keyword(k),
        None => Token::Ident(name),
    }
}

/// Lexes an integer literal whose first character, a digit or a `-` before
/// a digit, the cursor has just passed.
pub fn lex_literal(buf: &mut LexBuf) -> (r: Result<Token, LexError>)
    requires
        old(buf).wf(),
        old(buf).pos > 0,
        is_digit(old(buf).chars@[old(buf).pos - 1]) || (old(buf).chars@[old(buf).pos - 1] == '-'
            && old(buf).pos < old(buf).chars.len() && is_digit(
            old(buf).chars@[old(buf).pos as int],
        )),
    ensures
        final(buf).wf(),
        final(buf).chars@ == old(buf).chars@,
        match scan_literal(old(buf).chars@, old(buf).pos - 1) {
            Ok((l, e)) => r is Ok && denotes(r->Ok_0, l) && final(buf).pos == e,
            Err(x) => r == Err::<Token, LexError>(x),
        },
{
    let ghost s = buf.chars@;
    buf.prev();
    let start = buf.pos;
    let neg = buf.consume('-');
    let lo = buf.pos;
    let limit: u128 = if neg {
        9223372036854775808
    } else {
        9223372036854775807
    };
    let mut acc: u128 = 0;
    let mut over = false;
    loop
        invariant
            buf.wf(),
            buf.chars@ == s,
            lo <= buf.pos,
            limit <= 9223372036854775808,
            digits_end(s, lo as int) == digits_end(s, buf.pos as int),
            digits_value(s, lo as int, buf.pos as int) >= 0,
            !over ==> acc == digits_value(s, lo as int, buf.pos as int) && acc <= limit,
            over ==> digits_value(s, lo as int, buf.pos as int) > limit,
        ensures
            buf.wf(),
            buf.chars@ == s,
            buf.pos == digits_end(s, lo as int),
            !over ==> acc == digits_value(s, lo as int, buf.pos as int) && acc <= limit,
            over ==> digits_value(s, lo as int, buf.pos as int) > limit,
        decreases s.len() - buf.pos,
    {
        match buf.peek() {
            Some(c) => {
                if is_digit_char(c) {
                    buf.next();
                    if !over {
                        let d = ((c as u32) - ('0' as u32)) as u128;
                        let nv = acc * 10 + d;
                        if nv > limit {
                            over = true;
                        } else {
                            acc = nv;
                        }
                    }
                } else {
                    break;
                }
            },
            None => break,
        }
    }
    if over {
        Err(LexError::Overflow { pos: start })
    } else if neg {
        Ok(Token::Literal((0 - (acc as i128)) as i64))
    } else {
        Ok(Token::Literal(acc as i64))
    }
}

/// `done` followed by the lexemes of `rest`, or the error of `rest`.
pub open spec fn after(done: Seq<(Lexeme, int)>, rest: Result<Seq<(Lexeme, int)>, LexError>) -> Result<
    Seq<(Lexeme, int)>,
    LexError,
> {
    match rest {
        Ok(r) => Ok(done + r),
        Err(e) => Err(e),
    }
}

/// Splits `query` into tokens, each with the offset of its first character.
/// ASCII whitespace separates tokens and yields none. Lexing is all or
/// nothing: the first character that starts no token, or the first literal
/// that overflows, fails the whole text.
///
/// Offsets count characters. A text that lexes is ASCII, and an error comes
/// at the first character that is not part of a token or whitespace, so
/// every offset reported is a byte offset too.
pub fn lex(query: &str) -> (r: Result<Vec<PosToken>, LexError>)
    ensures
        match lex_spec(query@) {
            Ok(ls) => r is Ok && lexed_as(r->Ok_0@, ls),
            Err(e) => r == Err::<Vec<PosToken>, LexError>(e),
        },
        r is Ok ==> is_ascii_chars(query@),
        r matches Err(e) ==> error_pos(e) < query@.len() && is_ascii_chars(
            query@.subrange(0, error_pos(e)),
        ),
        r matches Ok(toks) ==> forall|a: int, b: int|
            0 <= a < b < toks.len() ==> #[trigger] toks@[a].pos < #[trigger] toks@[b].pos,
{
    proof {
        if lex_spec(query@) is Ok {
            lemma_lexed_is_ascii(query@, 0);
            lemma_lexeme_offsets(query@, 0);
        }
    }
    let mut buf = LexBuf::new(query);
    let ghost s = buf.chars@;
    let len = buf.chars.len();
    proof {
        assert(s.len() == len);
        if lex_spec(s) is Err {
            lemma_error_prefix_is_ascii(s, 0);
            let p = error_pos(lex_spec(s)->Err_0);
            assert forall|k: int| 0 <= k < p implies '\0' <= #[trigger] s.subrange(0, p)[k]
                <= '\u{7f}' by {
                assert(s.subrange(0, p)[k] == s[k]);
            }
        }
    }
    let ghost mut done: Seq<(Lexeme, int)> = Seq::empty();
    let mut tokens: Vec<PosToken> = Vec::new();
    assert(done + lex_from(s, 0)->Ok_0 =~= lex_from(s, 0)->Ok_0);
    loop
        invariant
            buf.wf(),
            buf.chars@ == s,
            s == query@,
            lexed_as(tokens@, done),
            lex_spec(s) == after(done, lex_from(s, buf.pos as int)),
            lex_spec(s) matches Err(e) ==> error_pos(e) < s.len() && is_ascii_chars(
                s.subrange(0, error_pos(e)),
            ),
        ensures
            lexed_as(tokens@, done),
            lex_spec(s) == Ok::<Seq<(Lexeme, int)>, LexError>(done),
        decreases s.len() - buf.pos,
    {
        let ch = match buf.next() {
            Some(c) => c,
            None => {
                assert(done + Seq::<(Lexeme, int)>::empty() =~= done);
                break;
            },
        };
        let pos = buf.pos - 1;
        if is_ws_char(ch) {
            continue;
        }
        let ghost scanned = scan(s, pos as int);
        let token = if ch == '!' {
            Token::Bang
        } else if ch == '&' {
            if buf.consume('&') {
                Token::And
            } else {
                return Err(LexError::UnexpectedChar { ch, pos });
            }
        } else if ch == '(' {
            if buf.consume(')') {
                Token::Unit
            } else {
                Token::LParen
            }
        } else if ch == ')' {
            Token::RParen
        } else if ch == '*' {
            Token::Mult
        } else if ch == '+' {
            Token::Plus
        } else if ch == ',' {
            Token::Comma
        } else if ch == '/' {
            if buf.consume('=') {
                Token::Neq
            } else {
                Token::Div
            }
        } else if ch == ':' {
            if buf.consume('=') {
                Token::Assign
            } else {
                Token::Colon
            }
        } else if ch == '<' {
            if buf.consume('=') {
                Token::Le
            } else {
                Token::Lt
            }
        } else if ch == '=' {
            if buf.consume('=') {
                Token::Eqeq
            } else {
                Token::Eq
            }
        } else if ch == '>' {
            if buf.consume('=') {
                Token::Ge
            } else {
                Token::Gt
            }
        } else if ch == '|' {
            if buf.consume('|') {
                Token::Or
            } else {
                Token::Bar
            }
        } else if ch == '~' {
            Token::Not
        } else if ch == '-' {
            if buf.consume('>') {
                Token::Arrow
            } else {
                let starts_digit = match buf.peek() {
                    Some(d) => is_digit_char(d),
                    None => false,
                };
                if starts_digit {
                    match lex_literal(&mut buf) {
                        Ok(t) => t,
                        Err(e) => return Err(e),
                    }
                } else {
                    Token::Minus
                }
            }
        } else if is_ident_start_char(ch) {
            lex_ident(&mut buf)
        } else if is_digit_char(ch) {
            match lex_literal(&mut buf) {
                Ok(t) => t,
                Err(e) => return Err(e),
            }
        } else {
            return Err(LexError::UnexpectedChar { ch, pos });
        };
        proof {
            lemma_scan_advances(s, pos as int);
            let (l, e) = scanned->Ok_0;
            assert(e == buf.pos);
            assert(denotes(token, l));
            assert((done.push((l, pos as int)) + lex_from(s, e)->Ok_0) =~= (done + (seq![
                (l, pos as int),
            ] + lex_from(s, e)->Ok_0)));
            done = done.push((l, pos as int));
        }
        tokens.push(PosToken { token, pos });
    }
    proof {
        lemma_lexeme_offsets(s, 0);
        assert forall|a: int, b: int| 0 <= a < b < tokens.len() implies #[trigger] tokens@[a].pos
            < #[trigger] tokens@[b].pos by {
            assert(denotes(tokens@[a].token, done[a].0));
            assert(denotes(tokens@[b].token, done[b].0));
        }
    }
    Ok(tokens)
}

} // verus!
