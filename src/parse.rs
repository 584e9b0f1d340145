use vstd::prelude::*;

use crate::syntax::{Bop, Exp, Type, Uop};
use crate::token::{same_token, Keyword, Pos, PosToken, Token};

verus! {

/// Why a token sequence is not an expression. `pos` is the offset of the
/// offending token, or `usize::MAX` at the end of the input.
#[derive(Debug, Clone, PartialEq, Eq)]
pub enum ParseError {
    /// A token that cannot stand where it was found.
    UnexpectedToken { found: Token, pos: Pos },
    /// The input ended where more was needed.
    UnexpectedEnd { pos: Pos },
    /// A particular token was required; `found` is what stood there.
    ExpectedToken { expected: Token, found: Option<Token>, pos: Pos },
}

/// The offset that marks the end of the input.
pub const END_POS: usize = usize::MAX;

/// A parse of part of the input: a value and the index just after it.
pub type Parsed<T> = Result<(T, int), ParseError>;

/// The token at index `i`, if any.
pub open spec fn tok_at(t: Seq<PosToken>, i: int) -> Option<Token> {
    if 0 <= i < t.len() {
        Some(t[i].token)
    } else {
        None
    }
}

/// The offset of the token at index `i`, or the end marker.
pub open spec fn pos_at(t: Seq<PosToken>, i: int) -> usize {
    if 0 <= i < t.len() {
        t[i].pos
    } else {
        END_POS
    }
}

/// The error for a token at `i` that cannot start what is parsed there.
pub open spec fn unexpected(t: Seq<PosToken>, i: int) -> ParseError {
    if 0 <= i < t.len() {
        ParseError::UnexpectedToken { found: t[i].token, pos: t[i].pos }
    } else {
        ParseError::UnexpectedEnd { pos: END_POS }
    }
}

/// The error for a missing `want` at `i`.
pub open spec fn missing(t: Seq<PosToken>, i: int, want: Token) -> ParseError {
    ParseError::ExpectedToken { expected: want, found: tok_at(t, i), pos: pos_at(t, i) }
}

/// A parse that succeeded moved forward and stayed in the input. Every
/// successful parse consumes a token (the executable parser proves so), so
/// this holds wherever the grammar below asks for it; asking makes each
/// recursion visibly well-founded.
pub open spec fn moved(t: Seq<PosToken>, i: int, j: int) -> bool {
    i < j <= t.len()
}

// Types, from the loosest binding to the tightest: sum `+`, product `*`,
// arrow `->`, prefix `ref`, atoms. Each infix level groups to the right.

/// A type at index `i`.
pub open spec fn type_spec(t: Seq<PosToken>, i: int) -> Parsed<Type>
    decreases t.len() - i, 5nat,
{
    match type_prod_spec(t, i) {
        Err(e) => Err(e),
        Ok((a, j)) => if moved(t, i, j) && tok_at(t, j) == Some(Token::Plus) {
            match type_spec(t, j + 1) {
                Ok((b, k)) => Ok((Type::Sum(Box::new(a), Box::new(b)), k)),
                Err(e) => Err(e),
            }
        } else {
            Ok((a, j))
        },
    }
}

pub open spec fn type_prod_spec(t: Seq<PosToken>, i: int) -> Parsed<Type>
    decreases t.len() - i, 4nat,
{
    match type_arrow_spec(t, i) {
        Err(e) => Err(e),
        Ok((a, j)) => if moved(t, i, j) && tok_at(t, j) == Some(Token::Mult) {
            match type_prod_spec(t, j + 1) {
                Ok((b, k)) => Ok((Type::Prod(Box::new(a), Box::new(b)), k)),
                Err(e) => Err(e),
            }
        } else {
            Ok((a, j))
        },
    }
}

pub open spec fn type_arrow_spec(t: Seq<PosToken>, i: int) -> Parsed<Type>
    decreases t.len() - i, 3nat,
{
    match type_ref_spec(t, i) {
        Err(e) => Err(e),
        Ok((a, j)) => if moved(t, i, j) && tok_at(t, j) == Some(Token::Arrow) {
            match type_arrow_spec(t, j + 1) {
                Ok((b, k)) => Ok((Type::Arrow(Box::new(a), Box::new(b)), k)),
                Err(e) => Err(e),
            }
        } else {
            Ok((a, j))
        },
    }
}

pub open spec fn type_ref_spec(t: Seq<PosToken>, i: int) -> Parsed<Type>
    decreases t.len() - i, 2nat,
{
    if tok_at(t, i) == Some(Token::Keyword(Keyword::Ref)) {
        match type_ref_spec(t, i + 1) {
            Ok((a, j)) => Ok((Type::Ref(Box::new(a)), j)),
            Err(e) => Err(e),
        }
    } else {
        type_atom_spec(t, i)
    }
}

pub open spec fn type_atom_spec(t: Seq<PosToken>, i: int) -> Parsed<Type>
    decreases t.len() - i, 1nat,
{
    match tok_at(t, i) {
        Some(Token::Unit) => Ok((Type::Unit, i + 1)),
        Some(Token::Keyword(Keyword::Int)) => Ok((Type::Int, i + 1)),
        Some(Token::Keyword(Keyword::Bool)) => Ok((Type::Bool, i + 1)),
        Some(Token::LParen) => match type_spec(t, i + 1) {
            Err(e) => Err(e),
            Ok((a, j)) => if tok_at(t, j) == Some(Token::RParen) {
                Ok((a, j + 1))
            } else {
                Err(missing(t, j, Token::RParen))
            },
        },
        _ => Err(unexpected(t, i)),
    }
}

/// Binding strength of the infix and postfix operators, loosest first.
#[derive(Debug, Clone, Copy, PartialEq, Eq, Structural)]
pub enum Precedence {
    /// What binds nothing: the end of an expression.
    Zero,
    Assign,
    /// The function-type arrow `->`. It has a place in the table, but no
    /// expression applies it: met after an operand, it is an unexpected token.
    Arrow,
    Or,
    And,
    Cmp,
    PlusMinus,
    MultiplyDivide,
    RefDeref,
}

pub open spec fn level(p: Precedence) -> nat {
    match p {
        Precedence::Zero => 0,
        Precedence::Assign => 1,
        Precedence::Arrow => 2,
        Precedence::Or => 3,
        Precedence::And => 4,
        Precedence::Cmp => 5,
        Precedence::PlusMinus => 6,
        Precedence::MultiplyDivide => 7,
        Precedence::RefDeref => 8,
    }
}

/// The precedence of a token that follows an operand; tokens that are no
/// operator (nor the arrow) end the expression.
pub open spec fn precedence_of(t: Option<Token>) -> Precedence {
    match t {
        Some(Token::Assign) => Precedence::Assign,
        Some(Token::Arrow) => Precedence::Arrow,
        Some(Token::Or) => Precedence::Or,
        Some(Token::And) => Precedence::And,
        Some(Token::Eqeq) => Precedence::Cmp,
        Some(Token::Neq) => Precedence::Cmp,
        Some(Token::Ge) => Precedence::Cmp,
        Some(Token::Le) => Precedence::Cmp,
        Some(Token::Gt) => Precedence::Cmp,
        Some(Token::Lt) => Precedence::Cmp,
        Some(Token::Plus) => Precedence::PlusMinus,
        Some(Token::Minus) => Precedence::PlusMinus,
        Some(Token::Mult) => Precedence::MultiplyDivide,
        Some(Token::Div) => Precedence::MultiplyDivide,
        Some(Token::Keyword(Keyword::Ref)) => Precedence::RefDeref,
        Some(Token::Bang) => Precedence::RefDeref,
        _ => Precedence::Zero,
    }
}

impl Precedence {
    pub fn rank(&self) -> (r: u8)
        ensures
            r == level(*self),
    {
        match self {
            Precedence::Zero => 0,
            Precedence::Assign => 1,
            Precedence::Arrow => 2,
            Precedence::Or => 3,
            Precedence::And => 4,
            Precedence::Cmp => 5,
            Precedence::PlusMinus => 6,
            Precedence::MultiplyDivide => 7,
            Precedence::RefDeref => 8,
        }
    }

    /// The threshold for the right operand of an operator of this precedence.
    pub fn right_threshold(&self) -> (r: Precedence)
        ensures
            r == right_threshold(*self),
    {
        match self {
            Precedence::Assign => Precedence::Zero,
            _ => *self,
        }
    }
}

/// Whether a token can begin an atom.
pub fn can_start_atom(t: &Token) -> (r: bool)
    ensures
        r == starts_atom(*t),
{
    match t {
        Token::Keyword(Keyword::Ref) => true,
        Token::Keyword(Keyword::Fst) => true,
        Token::Keyword(Keyword::Snd) => true,
        Token::Keyword(Keyword::Inl) => true,
        Token::Keyword(Keyword::Inr) => true,
        Token::Keyword(Keyword::True) => true,
        Token::Keyword(Keyword::False) => true,
        Token::Literal(_) => true,
        Token::Unit => true,
        Token::Ident(_) => true,
        Token::LParen => true,
        _ => false,
    }
}

/// The binary operator that a token names.
pub fn binary_operator(t: &Token) -> (r: Option<Bop>)
    ensures
        r == bop_of(*t),
{
    match t {
        Token::Or => Some(Bop::Or),
        Token::And => Some(Bop::And),
        Token::Eqeq => Some(Bop::Eq),
        Token::Neq => Some(Bop::Neq),
        Token::Ge => Some(Bop::Ge),
        Token::Le => Some(Bop::Le),
        Token::Gt => Some(Bop::Gt),
        Token::Lt => Some(Bop::Lt),
        Token::Plus => Some(Bop::Plus),
        Token::Minus => Some(Bop::Minus),
        Token::Mult => Some(Bop::Mul),
        Token::Div => Some(Bop::Div),
        _ => None,
    }
}

/// The binary operator that a token names.
pub open spec fn bop_of(t: Token) -> Option<Bop> {
    match t {
        Token::Or => Some(Bop::Or),
        Token::And => Some(Bop::And),
        Token::Eqeq => Some(Bop::Eq),
        Token::Neq => Some(Bop::Neq),
        Token::Ge => Some(Bop::Ge),
        Token::Le => Some(Bop::Le),
        Token::Gt => Some(Bop::Gt),
        Token::Lt => Some(Bop::Lt),
        Token::Plus => Some(Bop::Plus),
        Token::Minus => Some(Bop::Minus),
        Token::Mult => Some(Bop::Mul),
        Token::Div => Some(Bop::Div),
        _ => None,
    }
}

/// The threshold for the right operand of an operator of precedence `p`.
/// Operators group to the left: the right operand stops at the next operator
/// of the same precedence. Assignment groups to the right: `a := b := c` is
/// `a := (b := c)`.
pub open spec fn right_threshold(p: Precedence) -> Precedence {
    if p == Precedence::Assign {
        Precedence::Zero
    } else {
        p
    }
}

pub open spec fn injection(at: Pos, left: bool, ty: Type, e: Exp) -> Exp {
    if left {
        Exp::Inl(at, ty, Box::new(e))
    } else {
        Exp::Inr(at, ty, Box::new(e))
    }
}

/// An expression at index `i`.
pub open spec fn expr_spec(t: Seq<PosToken>, i: int) -> Parsed<Exp>
    decreases t.len() - i, 8nat,
{
    subexpr_spec(t, i, Precedence::Zero)
}

/// An expression at `i` whose operators all bind tighter than `p`.
pub open spec fn subexpr_spec(t: Seq<PosToken>, i: int, p: Precedence) -> Parsed<Exp>
    decreases t.len() - i, 7nat,
{
    match prefix_spec(t, i) {
        Err(e) => Err(e),
        Ok((e, j)) => if moved(t, i, j) {
            seeded_spec(t, j, p, e)
        } else {
            Ok((e, j))
        },
    }
}

/// Extends the operand `lhs` with the operators at `i` that bind tighter
/// than `p`.
pub open spec fn seeded_spec(t: Seq<PosToken>, i: int, p: Precedence, lhs: Exp) -> Parsed<Exp>
    decreases t.len() - i, 2nat,
{
    let np = precedence_of(tok_at(t, i));
    if level(np) <= level(p) {
        Ok((lhs, i))
    } else {
        match infix_spec(t, i, lhs, np) {
            Err(e) => Err(e),
            Ok((e, j)) => if moved(t, i, j) {
                seeded_spec(t, j, p, e)
            } else {
                Ok((e, j))
            },
        }
    }
}

/// Applies the operator at `i`, of precedence `p`, to `lhs`.
pub open spec fn infix_spec(t: Seq<PosToken>, i: int, lhs: Exp, p: Precedence) -> Parsed<Exp>
    decreases t.len() - i, 1nat,
{
    match tok_at(t, i) {
        None => Err(unexpected(t, i)),
        Some(op) => {
            let at = t[i].pos;
            if op == Token::Keyword(Keyword::Ref) {
                Ok((Exp::Ref(at, Box::new(lhs)), i + 1))
            } else if op == Token::Bang {
                Ok((Exp::Deref(at, Box::new(lhs)), i + 1))
            } else if op == Token::Assign || bop_of(op) is Some {
                match subexpr_spec(t, i + 1, right_threshold(p)) {
                    Err(e) => Err(e),
                    Ok((rhs, j)) => Ok(
                        (
                            if op == Token::Assign {
                                Exp::Asgn(at, Box::new(lhs), Box::new(rhs))
                            } else {
                                Exp::Bop(at, bop_of(op)->Some_0, Box::new(lhs), Box::new(rhs))
                            },
                            j,
                        ),
                    ),
                }
            } else {
                Err(unexpected(t, i))
            }
        },
    }
}

/// An expression with any number of leading `~`.
pub open spec fn prefix_spec(t: Seq<PosToken>, i: int) -> Parsed<Exp>
    decreases t.len() - i, 6nat,
{
    if tok_at(t, i) == Some(Token::Not) {
        match prefix_spec(t, i + 1) {
            Ok((e, j)) => Ok((Exp::Uop(t[i].pos, Uop::Not, Box::new(e)), j)),
            Err(e) => Err(e),
        }
    } else {
        app_spec(t, i)
    }
}

/// One or more atoms side by side, applied from the left: `f a b` is
/// `(f a) b`.
pub open spec fn app_spec(t: Seq<PosToken>, i: int) -> Parsed<Exp>
    decreases t.len() - i, 5nat,
{
    match un2_spec(t, i) {
        Err(e) => Err(e),
        Ok((f, j)) => if moved(t, i, j) {
            app_rest_spec(t, j, t[i].pos, f)
        } else {
            Ok((f, j))
        },
    }
}

/// Whether a token can begin an atom.
pub open spec fn starts_atom(t: Token) -> bool {
    match t {
        Token::Keyword(k) => k == Keyword::Ref || k == Keyword::Fst || k == Keyword::Snd || k
            == Keyword::Inl || k == Keyword::Inr || k == Keyword::True || k == Keyword::False,
        Token::Literal(_) => true,
        Token::Unit => true,
        Token::Ident(_) => true,
        Token::LParen => true,
        _ => false,
    }
}

/// Applies `f` to the atoms at `i`. The chain ends before a token that
/// cannot begin an atom. An atom that has begun must be finished, and its
/// error is the error of the whole: the one exception is `ref`, which may
/// also be the postfix `ref` of the chain, so an argument that fails after
/// it ends the chain instead.
pub open spec fn app_rest_spec(t: Seq<PosToken>, i: int, at: Pos, f: Exp) -> Parsed<Exp>
    decreases t.len() - i, 4nat,
{
    match tok_at(t, i) {
        Some(tk) => if starts_atom(tk) {
            match un2_spec(t, i) {
                Err(e) => if tk == Token::Keyword(Keyword::Ref) {
                    Ok((f, i))
                } else {
                    Err(e)
                },
                Ok((a, j)) => if moved(t, i, j) {
                    app_rest_spec(t, j, at, Exp::App(at, Box::new(f), Box::new(a)))
                } else {
                    Ok((f, i))
                },
            }
        } else {
            Ok((f, i))
        },
        None => Ok((f, i)),
    }
}

/// The rest of `inl(T) e` or `inr(T) e` from the `(` at `i`; `at` is the
/// offset of the keyword.
pub open spec fn inject_spec(t: Seq<PosToken>, i: int, at: Pos, left: bool) -> Parsed<Exp>
    decreases t.len() - i, 2nat,
{
    if tok_at(t, i) != Some(Token::LParen) {
        Err(missing(t, i, Token::LParen))
    } else {
        match type_spec(t, i + 1) {
            Err(e) => Err(e),
            Ok((ty, j)) => if moved(t, i, j) && tok_at(t, j) == Some(Token::RParen) {
                match un2_spec(t, j + 1) {
                    Ok((e, k)) => Ok((injection(at, left, ty, e), k)),
                    Err(e) => Err(e),
                }
            } else {
                Err(missing(t, j, Token::RParen))
            },
        }
    }
}

/// An atom, possibly under the prefix keywords `ref`, `fst`, `snd`, `inl`
/// and `inr`: a literal, a name, or a parenthesised expression or pair.
pub open spec fn un2_spec(t: Seq<PosToken>, i: int) -> Parsed<Exp>
    decreases t.len() - i, 3nat,
{
    match tok_at(t, i) {
        None => Err(unexpected(t, i)),
        Some(tk) => {
            let at = t[i].pos;
            match tk {
                Token::Keyword(Keyword::Ref) => match un2_spec(t, i + 1) {
                    Ok((e, j)) => Ok((Exp::Ref(at, Box::new(e)), j)),
                    Err(e) => Err(e),
                },
                Token::Keyword(Keyword::Fst) => match un2_spec(t, i + 1) {
                    Ok((e, j)) => Ok((Exp::Fst(at, Box::new(e)), j)),
                    Err(e) => Err(e),
                },
                Token::Keyword(Keyword::Snd) => match un2_spec(t, i + 1) {
                    Ok((e, j)) => Ok((Exp::Snd(at, Box::new(e)), j)),
                    Err(e) => Err(e),
                },
                Token::Keyword(Keyword::Inl) => inject_spec(t, i + 1, at, true),
                Token::Keyword(Keyword::Inr) => inject_spec(t, i + 1, at, false),
                Token::Keyword(Keyword::True) => Ok((Exp::BoolLit(at, true), i + 1)),
                Token::Keyword(Keyword::False) => Ok((Exp::BoolLit(at, false), i + 1)),
                Token::Literal(n) => Ok((Exp::NumLit(at, n), i + 1)),
                Token::Unit => Ok((Exp::Unit(at), i + 1)),
                Token::Ident(name) => Ok((Exp::Var(at, name), i + 1)),
                Token::LParen => match expr_spec(t, i + 1) {
                    Err(e) => Err(e),
                    Ok((a, j)) => if moved(t, i, j) && tok_at(t, j) == Some(Token::Comma) {
                        match expr_spec(t, j + 1) {
                            Err(e) => Err(e),
                            Ok((b, k)) => if tok_at(t, k) == Some(Token::RParen) {
                                Ok((Exp::Pair(at, Box::new(a), Box::new(b)), k + 1))
                            } else {
                                Err(missing(t, k, Token::RParen))
                            },
                        }
                    } else if tok_at(t, j) == Some(Token::RParen) {
                        Ok((a, j + 1))
                    } else {
                        Err(missing(t, j, Token::RParen))
                    },
                },
                _ => Err(unexpected(t, i)),
            }
        },
    }
}

/// A cursor over a token sequence. Parsing reads it left to right; the one
/// place that moves it back is `maybe_parse`, which undoes a failed attempt.
pub struct Parser {
    pub tokens: Vec<PosToken>,
    pub index: usize,
}

/// `r` is what the parse `s` describes, and `j` is where it stopped.
pub open spec fn agrees<T>(r: Result<T, ParseError>, j: int, s: Parsed<T>) -> bool {
    match s {
        Ok((v, k)) => r == Ok::<T, ParseError>(v) && j == k,
        Err(e) => r == Err::<T, ParseError>(e),
    }
}

impl Parser {
    pub open spec fn wf(&self) -> bool {
        self.index <= self.tokens.len()
    }

    pub open spec fn toks(&self) -> Seq<PosToken> {
        self.tokens@
    }

    /// A parser at the start of `tokens`.
    pub fn new(tokens: Vec<PosToken>) -> (r: Parser)
        ensures
            r.wf(),
            r.tokens == tokens,
            r.index == 0,
    {
        Parser { tokens, index: 0 }
    }

    /// The next unread token, or `None` at the end, moving past it. Past the
    /// end it keeps returning `None`.
    pub fn next_token(&mut self) -> (r: Option<Token>)
        requires
            old(self).wf(),
        ensures
            final(self).wf(),
            final(self).tokens == old(self).tokens,
            r == tok_at(old(self).toks(), old(self).index as int),
            final(self).index == if r is Some { old(self).index + 1 } else { old(self).index as int },
    {
        if self.index < self.tokens.len() {
            let t = self.tokens[self.index].token.duplicate();
            self.index = self.index + 1;
            Some(t)
        } else {
            None
        }
    }

    /// The next unread token, or `None` at the end.
    pub fn peek_token(&self) -> (r: Option<Token>)
        requires
            self.wf(),
        ensures
            r == tok_at(self.toks(), self.index as int),
    {
        if self.index < self.tokens.len() {
            Some(self.tokens[self.index].token.duplicate())
        } else {
            None
        }
    }

    /// The offset at which the next unread token starts, or `END_POS`.
    pub fn pos(&self) -> (r: usize)
        requires
            self.wf(),
        ensures
            r == pos_at(self.toks(), self.index as int),
    {
        if self.index < self.tokens.len() {
            self.tokens[self.index].pos
        } else {
            END_POS
        }
    }

    /// Moves past the next token if it is `expected`; returns whether it did.
    pub fn consume_token(&mut self, expected: &Token) -> (r: bool)
        requires
            old(self).wf(),
        ensures
            final(self).wf(),
            final(self).tokens == old(self).tokens,
            r == (tok_at(old(self).toks(), old(self).index as int) matches Some(x) && same_token(
                x,
                *expected,
            )),
            final(self).index == if r { old(self).index + 1 } else { old(self).index as int },
    {
        if self.index < self.tokens.len() && self.tokens[self.index].token.same_as(expected) {
            self.index = self.index + 1;
            true
        } else {
            false
        }
    }

    /// Moves past the next token if it is `expected`, and fails otherwise.
    pub fn expect_token(&mut self, expected: &Token) -> (r: Result<(), ParseError>)
        requires
            old(self).wf(),
        ensures
            final(self).wf(),
            final(self).tokens == old(self).tokens,
            ({
                let (t, i) = (old(self).toks(), old(self).index as int);
                if tok_at(t, i) matches Some(x) && same_token(x, *expected) {
                    r is Ok && final(self).index == i + 1
                } else {
                    r == Err::<(), ParseError>(missing(t, i, *expected)) && final(self).index == i
                }
            }),
    {
        let pos = self.pos();
        let found = self.peek_token();
        if self.consume_token(expected) {
            Ok(())
        } else {
            Err(ParseError::ExpectedToken { expected: expected.duplicate(), found, pos })
        }
    }

    /// The error for the next token, which cannot start what is parsed here.
    fn unexpected_here(&self) -> (r: ParseError)
        requires
            self.wf(),
        ensures
            r == unexpected(self.toks(), self.index as int),
    {
        if self.index < self.tokens.len() {
            ParseError::UnexpectedToken {
                found: self.tokens[self.index].token.duplicate(),
                pos: self.tokens[self.index].pos,
            }
        } else {
            ParseError::UnexpectedEnd { pos: END_POS }
        }
    }

    /// Parses a type, leaving the cursor just after it. On failure the
    /// cursor is put back where it was.
    pub fn parse_type(&mut self) -> (r: Result<Type, ParseError>)
        requires
            old(self).wf(),
        ensures
            final(self).wf(),
            final(self).tokens == old(self).tokens,
            agrees(r, final(self).index as int, type_spec(old(self).toks(), old(self).index as int)),
            r is Ok ==> old(self).index < final(self).index,
            r is Err ==> final(self).index == old(self).index,
        decreases old(self).tokens.len() - old(self).index, 5nat,
    {
        let start = self.index;
        let a = match self.parse_type_prod() {
            Ok(a) => a,
            Err(e) => {
                self.index = start;
                return Err(e);
            },
        };
        if self.consume_token(&Token::Plus) {
            match self.parse_type() {
                Ok(b) => Ok(Type::Sum(Box::new(a), Box::new(b))),
                Err(e) => {
                    self.index = start;
                    Err(e)
                },
            }
        } else {
            Ok(a)
        }
    }

    fn parse_type_prod(&mut self) -> (r: Result<Type, ParseError>)
        requires
            old(self).wf(),
        ensures
            final(self).wf(),
            final(self).tokens == old(self).tokens,
            agrees(r, final(self).index as int, type_prod_spec(old(self).toks(), old(self).index as int)),
            r is Ok ==> old(self).index < final(self).index,
        decreases old(self).tokens.len() - old(self).index, 4nat,
    {
        let a = match self.parse_type_arrow() {
            Ok(a) => a,
            Err(e) => return Err(e),
        };
        if self.consume_token(&Token::Mult) {
            match self.parse_type_prod() {
                Ok(b) => Ok(Type::Prod(Box::new(a), Box::new(b))),
                Err(e) => Err(e),
            }
        } else {
            Ok(a)
        }
    }

    fn parse_type_arrow(&mut self) -> (r: Result<Type, ParseError>)
        requires
            old(self).wf(),
        ensures
            final(self).wf(),
            final(self).tokens == old(self).tokens,
            agrees(r, final(self).index as int, type_arrow_spec(old(self).toks(), old(self).index as int)),
            r is Ok ==> old(self).index < final(self).index,
        decreases old(self).tokens.len() - old(self).index, 3nat,
    {
        let a = match self.parse_type_ref() {
            Ok(a) => a,
            Err(e) => return Err(e),
        };
        if self.consume_token(&Token::Arrow) {
            match self.parse_type_arrow() {
                Ok(b) => Ok(Type::Arrow(Box::new(a), Box::new(b))),
                Err(e) => Err(e),
            }
        } else {
            Ok(a)
        }
    }

    fn parse_type_ref(&mut self) -> (r: Result<Type, ParseError>)
        requires
            old(self).wf(),
        ensures
            final(self).wf(),
            final(self).tokens == old(self).tokens,
            agrees(r, final(self).index as int, type_ref_spec(old(self).toks(), old(self).index as int)),
            r is Ok ==> old(self).index < final(self).index,
        decreases old(self).tokens.len() - old(self).index, 2nat,
    {
        if self.consume_token(&Token::Keyword(Keyword::Ref)) {
            match self.parse_type_ref() {
                Ok(a) => Ok(Type::Ref(Box::new(a))),
                Err(e) => Err(e),
            }
        } else {
            self.parse_type_atom()
        }
    }

    fn parse_type_atom(&mut self) -> (r: Result<Type, ParseError>)
        requires
            old(self).wf(),
        ensures
            final(self).wf(),
            final(self).tokens == old(self).tokens,
            agrees(r, final(self).index as int, type_atom_spec(old(self).toks(), old(self).index as int)),
            r is Ok ==> old(self).index < final(self).index,
        decreases old(self).tokens.len() - old(self).index, 1nat,
    {
        let err = self.unexpected_here();
        match self.next_token() {
            Some(Token::Unit) => Ok(Type::Unit),
            Some(Token::Keyword(Keyword::Int)) => Ok(Type::Int),
            Some(Token::Keyword(Keyword::Bool)) => Ok(Type::Bool),
            Some(Token::LParen) => {
                let a = match self.parse_type() {
                    Ok(a) => a,
                    Err(e) => return Err(e),
                };
                match self.expect_token(&Token::RParen) {
                    Ok(()) => Ok(a),
                    Err(e) => Err(e),
                }
            },
            _ => Err(err),
        }
    }

    /// The precedence of the next unread token.
    pub fn get_next_precedence(&self) -> (r: Precedence)
        requires
            self.wf(),
        ensures
            r == precedence_of(tok_at(self.toks(), self.index as int)),
    {
        match self.peek_token() {
            Some(Token::Assign) => Precedence::Assign,
            Some(Token::Arrow) => Precedence::Arrow,
            Some(Token::Or) => Precedence::Or,
            Some(Token::And) => Precedence::And,
            Some(Token::Eqeq) => Precedence::Cmp,
            Some(Token::Neq) => Precedence::Cmp,
            Some(Token::Ge) => Precedence::Cmp,
            Some(Token::Le) => Precedence::Cmp,
            Some(Token::Gt) => Precedence::Cmp,
            Some(Token::Lt) => Precedence::Cmp,
            Some(Token::Plus) => Precedence::PlusMinus,
            Some(Token::Minus) => Precedence::PlusMinus,
            Some(Token::Mult) => Precedence::MultiplyDivide,
            Some(Token::Div) => Precedence::MultiplyDivide,
            Some(Token::Keyword(Keyword::Ref)) => Precedence::RefDeref,
            Some(Token::Bang) => Precedence::RefDeref,
            _ => Precedence::Zero,
        }
    }

    /// Parses an expression, leaving the cursor just after it. Tokens after
    /// it are left for the caller. On failure the cursor is put back where
    /// it was.
    pub fn parse_expr(&mut self) -> (r: Result<Exp, ParseError>)
        requires
            old(self).wf(),
        ensures
            final(self).wf(),
            final(self).tokens == old(self).tokens,
            agrees(r, final(self).index as int, expr_spec(old(self).toks(), old(self).index as int)),
            r is Ok ==> old(self).index < final(self).index,
            r is Err ==> final(self).index == old(self).index,
        decreases old(self).tokens.len() - old(self).index, 8nat,
    {
        let start = self.index;
        let r = self.parse_subexpr(Precedence::Zero);
        if r.is_err() {
            self.index = start;
        }
        r
    }

    /// Parses an expression whose operators all bind tighter than
    /// `precedence`.
    pub fn parse_subexpr(&mut self, precedence: Precedence) -> (r: Result<Exp, ParseError>)
        requires
            old(self).wf(),
        ensures
            final(self).wf(),
            final(self).tokens == old(self).tokens,
            agrees(
                r,
                final(self).index as int,
                subexpr_spec(old(self).toks(), old(self).index as int, precedence),
            ),
            r is Ok ==> old(self).index < final(self).index,
        decreases old(self).tokens.len() - old(self).index, 7nat,
    {
        let expr = match self.parse_prefix() {
            Ok(e) => e,
            Err(e) => return Err(e),
        };
        self.parse_subexpr_seeded(precedence, expr)
    }

    /// Extends `expr` with the operators ahead that bind tighter than
    /// `precedence`.
    pub fn parse_subexpr_seeded(&mut self, precedence: Precedence, expr: Exp) -> (r: Result<
        Exp,
        ParseError,
    >)
        requires
            old(self).wf(),
        ensures
            final(self).wf(),
            final(self).tokens == old(self).tokens,
            agrees(
                r,
                final(self).index as int,
                seeded_spec(old(self).toks(), old(self).index as int, precedence, expr),
            ),
            r is Ok ==> old(self).index <= final(self).index,
        decreases old(self).tokens.len() - old(self).index, 2nat,
    {
        let ghost t = self.toks();
        let ghost i0 = self.index as int;
        let ghost e0 = expr;
        let mut acc = expr;
        loop
            invariant
                self.wf(),
                self.tokens == old(self).tokens,
                t == old(self).toks(),
                i0 == old(self).index,
                e0 == expr,
                i0 <= self.index,
                seeded_spec(t, i0, precedence, e0) == seeded_spec(
                    t,
                    self.index as int,
                    precedence,
                    acc,
                ),
            decreases self.tokens.len() - self.index,
        {
            let next_precedence = self.get_next_precedence();
            if precedence.rank() >= next_precedence.rank() {
                return Ok(acc);
            }
            acc = match self.parse_infix(acc, next_precedence) {
                Ok(e) => e,
                Err(e) => return Err(e),
            };
        }
    }


    /// Applies the operator under the cursor, of precedence `precedence`, to
    /// `expr`, parsing its right operand where it has one.
    pub fn parse_infix(&mut self, expr: Exp, precedence: Precedence) -> (r: Result<Exp, ParseError>)
        requires
            old(self).wf(),
        ensures
            final(self).wf(),
            final(self).tokens == old(self).tokens,
            agrees(
                r,
                final(self).index as int,
                infix_spec(old(self).toks(), old(self).index as int, expr, precedence),
            ),
            r is Ok ==> old(self).index < final(self).index,
        decreases old(self).tokens.len() - old(self).index, 1nat,
    {
        let at = self.pos();
        let err = self.unexpected_here();
        let op = match self.next_token() {
            Some(op) => op,
            None => return Err(err),
        };
        match op {
            Token::Keyword(Keyword::Ref) => Ok(Exp::Ref(at, Box::new(expr))),
            Token::Bang => Ok(Exp::Deref(at, Box::new(expr))),
            Token::Assign => match self.parse_subexpr(precedence.right_threshold()) {
                Ok(rhs) => Ok(Exp::Asgn(at, Box::new(expr), Box::new(rhs))),
                Err(e) => Err(e),
            },
            _ => match binary_operator(&op) {
                Some(bop) => match self.parse_subexpr(precedence.right_threshold()) {
                    Ok(rhs) => Ok(Exp::Bop(at, bop, Box::new(expr), Box::new(rhs))),
                    Err(e) => Err(e),
                },
                None => Err(err),
            },
        }
    }

    /// Parses an expression with any number of leading `~`.
    pub fn parse_prefix(&mut self) -> (r: Result<Exp, ParseError>)
        requires
            old(self).wf(),
        ensures
            final(self).wf(),
            final(self).tokens == old(self).tokens,
            agrees(r, final(self).index as int, prefix_spec(old(self).toks(), old(self).index as int)),
            r is Ok ==> old(self).index < final(self).index,
        decreases old(self).tokens.len() - old(self).index, 6nat,
    {
        let at = self.pos();
        if self.consume_token(&Token::Not) {
            match self.parse_prefix() {
                Ok(e) => Ok(Exp::Uop(at, Uop::Not, Box::new(e))),
                Err(e) => Err(e),
            }
        } else {
            self.parse_exp_app()
        }
    }

    /// Tries to parse an atom; where that fails, puts the cursor back and
    /// returns `None`.
    pub fn maybe_parse(&mut self) -> (r: Option<Exp>)
        requires
            old(self).wf(),
        ensures
            final(self).wf(),
            final(self).tokens == old(self).tokens,
            match un2_spec(old(self).toks(), old(self).index as int) {
                Ok((e, j)) => r == Some(e) && final(self).index == j,
                Err(_) => r is None && final(self).index == old(self).index,
            },
            r is Some ==> old(self).index < final(self).index,
        decreases old(self).tokens.len() - old(self).index, 4nat,
    {
        let index = self.index;
        match self.parse_exp_un2() {
            Ok(e) => Some(e),
            Err(_) => {
                self.index = index;
                None
            },
        }
    }

    /// Parses one or more atoms side by side as a left-nested application.
    /// It stops before a token that cannot begin an atom; an argument that
    /// begins and then fails fails the whole, except after `ref` (see
    /// `app_rest_spec`).
    pub fn parse_exp_app(&mut self) -> (r: Result<Exp, ParseError>)
        requires
            old(self).wf(),
        ensures
            final(self).wf(),
            final(self).tokens == old(self).tokens,
            agrees(r, final(self).index as int, app_spec(old(self).toks(), old(self).index as int)),
            r is Ok ==> old(self).index < final(self).index,
        decreases old(self).tokens.len() - old(self).index, 5nat,
    {
        let ghost t = self.toks();
        let at = self.pos();
        let mut f = match self.parse_exp_un2() {
            Ok(e) => e,
            Err(e) => return Err(e),
        };
        loop
            invariant
                self.wf(),
                self.tokens == old(self).tokens,
                t == old(self).toks(),
                old(self).index < self.index,
                at == t[old(self).index as int].pos,
                app_spec(t, old(self).index as int) == app_rest_spec(t, self.index as int, at, f),
            decreases self.tokens.len() - self.index,
        {
            let next = match self.peek_token() {
                Some(tk) => tk,
                None => return Ok(f),
            };
            if !can_start_atom(&next) {
                return Ok(f);
            }
            if next.same_as(&Token::Keyword(Keyword::Ref)) {
                match self.maybe_parse() {
                    Some(a) => {
                        f = Exp::App(at, Box::new(f), Box::new(a));
                    },
                    None => {
                        return Ok(f);
                    },
                }
            } else {
                match self.parse_exp_un2() {
                    Ok(a) => {
                        f = Exp::App(at, Box::new(f), Box::new(a));
                    },
                    Err(e) => {
                        return Err(e);
                    },
                }
            }
        }
    }

    /// The rest of `inl(T) e` or `inr(T) e` after the keyword at offset
    /// `at`.
    fn parse_injection(&mut self, at: Pos, left: bool) -> (r: Result<Exp, ParseError>)
        requires
            old(self).wf(),
        ensures
            final(self).wf(),
            final(self).tokens == old(self).tokens,
            agrees(
                r,
                final(self).index as int,
                inject_spec(old(self).toks(), old(self).index as int, at, left),
            ),
            r is Ok ==> old(self).index < final(self).index,
        decreases old(self).tokens.len() - old(self).index, 2nat,
    {
        match self.expect_token(&Token::LParen) {
            Ok(()) => {},
            Err(e) => return Err(e),
        }
        let ty = match self.parse_type() {
            Ok(ty) => ty,
            Err(e) => return Err(e),
        };
        match self.expect_token(&Token::RParen) {
            Ok(()) => {},
            Err(e) => return Err(e),
        }
        let inner = match self.parse_exp_un2() {
            Ok(e) => e,
            Err(e) => return Err(e),
        };
        if left {
            Ok(Exp::Inl(at, ty, Box::new(inner)))
        } else {
            Ok(Exp::Inr(at, ty, Box::new(inner)))
        }
    }

    /// Parses an atom, possibly under the prefix keywords `ref`, `fst`,
    /// `snd`, `inl` and `inr`.
    pub fn parse_exp_un2(&mut self) -> (r: Result<Exp, ParseError>)
        requires
            old(self).wf(),
        ensures
            final(self).wf(),
            final(self).tokens == old(self).tokens,
            agrees(r, final(self).index as int, un2_spec(old(self).toks(), old(self).index as int)),
            r is Ok ==> old(self).index < final(self).index,
        decreases old(self).tokens.len() - old(self).index, 3nat,
    {
        let at = self.pos();
        let err = self.unexpected_here();
        let tk = match self.next_token() {
            Some(tk) => tk,
            None => return Err(err),
        };
        match tk {
            Token::Keyword(Keyword::Ref) => match self.parse_exp_un2() {
                Ok(e) => Ok(Exp::Ref(at, Box::new(e))),
                Err(e) => Err(e),
            },
            Token::Keyword(Keyword::Fst) => match self.parse_exp_un2() {
                Ok(e) => Ok(Exp::Fst(at, Box::new(e))),
                Err(e) => Err(e),
            },
            Token::Keyword(Keyword::Snd) => match self.parse_exp_un2() {
                Ok(e) => Ok(Exp::Snd(at, Box::new(e))),
                Err(e) => Err(e),
            },
            Token::Keyword(Keyword::Inl) => self.parse_injection(at, true),
            Token::Keyword(Keyword::Inr) => self.parse_injection(at, false),
            Token::Keyword(Keyword::True) => Ok(Exp::BoolLit(at, true)),
            Token::Keyword(Keyword::False) => Ok(Exp::BoolLit(at, false)),
            Token::Literal(n) => Ok(Exp::NumLit(at, n)),
            Token::Unit => Ok(Exp::Unit(at)),
            Token::Ident(name) => Ok(Exp::Var(at, name)),
            Token::LParen => {
                let first = match self.parse_expr() {
                    Ok(e) => e,
                    Err(e) => return Err(e),
                };
                if self.consume_token(&Token::Comma) {
                    let second = match self.parse_expr() {
                        Ok(e) => e,
                        Err(e) => return Err(e),
                    };
                    match self.expect_token(&Token::RParen) {
                        Ok(()) => Ok(Exp::Pair(at, Box::new(first), Box::new(second))),
                        Err(e) => Err(e),
                    }
                } else {
                    match self.expect_token(&Token::RParen) {
                        Ok(()) => Ok(first),
                        Err(e) => Err(e),
                    }
                }
            },
            _ => Err(err),
        }
    }

}

/// Parses one expression from the start of `tokens`. Tokens after it are
/// not looked at: a caller that needs the whole input to be one expression
/// checks that itself.
pub fn parse_expression(tokens: Vec<PosToken>) -> (r: Result<Exp, ParseError>)
    ensures
        match expr_spec(tokens@, 0) {
            Ok((e, _)) => r == Ok::<Exp, ParseError>(e),
            Err(x) => r == Err::<Exp, ParseError>(x),
        },
{
    let mut parser = Parser::new(tokens);
    parser.parse_expr()
}

} // verus!
