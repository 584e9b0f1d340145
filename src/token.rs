use vstd::prelude::*;

verus! {

/// Byte offset into the source text.
pub type Pos = usize;

/// The reserved words of the language.
#[derive(Debug, Clone, Copy, PartialEq, Eq, Structural)]
pub enum Keyword {
    Let,
    Rec,
    In,
    Fun,
    Ref,
    If,
    Then,
    Else,
    Fst,
    Snd,
    True,
    False,
    Case,
    Of,
    Inl,
    Inr,
    Int,
    Bool,
}

/// One lexical unit of the language.
#[derive(Debug, Clone, PartialEq, Eq)]
pub enum Token {
    Keyword(Keyword),
    Ident(String),
    Literal(i64),
    /// `:=`
    Assign,
    /// `->`
    Arrow,
    /// `!`
    Bang,
    /// `+`
    Plus,
    /// `-`
    Minus,
    /// `*`
    Mult,
    /// `/`
    Div,
    /// `==`
    Eqeq,
    /// `/=`
    Neq,
    /// `>=`
    Ge,
    /// `<=`
    Le,
    /// `>`
    Gt,
    /// `<`
    Lt,
    /// `~`
    Not,
    /// `&&`
    And,
    /// `||`
    Or,
    /// `(`
    LParen,
    /// `)`
    RParen,
    /// `()`
    Unit,
    /// `=`
    Eq,
    /// `,`
    Comma,
    /// `:`
    Colon,
    /// `|`
    Bar,
}

/// A token together with the offset of its first character in the source.
#[derive(Debug, Clone, PartialEq, Eq)]
pub struct PosToken {
    pub token: Token,
    pub pos: Pos,
}

/// The keyword spelled by `w`, if any.
pub open spec fn keyword_of(w: Seq<char>) -> Option<Keyword> {
    if w == "let"@ {
        Some(Keyword::Let)
    } else if w == "rec"@ {
        Some(Keyword::Rec)
    } else if w == "in"@ {
        Some(Keyword::In)
    } else if w == "fun"@ {
        Some(Keyword::Fun)
    } else if w == "ref"@ {
        Some(Keyword::Ref)
    } else if w == "if"@ {
        Some(Keyword::If)
    } else if w == "then"@ {
        Some(Keyword::Then)
    } else if w == "else"@ {
        Some(Keyword::Else)
    } else if w == "fst"@ {
        Some(Keyword::Fst)
    } else if w == "snd"@ {
        Some(Keyword::Snd)
    } else if w == "true"@ {
        Some(Keyword::True)
    } else if w == "false"@ {
        Some(Keyword::False)
    } else if w == "case"@ {
        Some(Keyword::Case)
    } else if w == "of"@ {
        Some(Keyword::Of)
    } else if w == "inl"@ {
        Some(Keyword::Inl)
    } else if w == "inr"@ {
        Some(Keyword::Inr)
    } else if w == "int"@ {
        Some(Keyword::Int)
    } else if w == "bool"@ {
        Some(Keyword::Bool)
    } else {
        None
    }
}

/// The fixed spelling of a punctuation token; empty for keywords,
/// identifiers and literals, whose text is not fixed by their kind.
pub open spec fn punct_spelling(t: Token) -> Seq<char> {
    match t {
        Token::Assign => seq![':', '='],
        Token::Arrow => seq!['-', '>'],
        Token::Bang => seq!['!'],
        Token::Plus => seq!['+'],
        Token::Minus => seq!['-'],
        Token::Mult => seq!['*'],
        Token::Div => seq!['/'],
        Token::Eqeq => seq!['=', '='],
        Token::Neq => seq!['/', '='],
        Token::Ge => seq!['>', '='],
        Token::Le => seq!['<', '='],
        Token::Gt => seq!['>'],
        Token::Lt => seq!['<'],
        Token::Not => seq!['~'],
        Token::And => seq!['&', '&'],
        Token::Or => seq!['|', '|'],
        Token::LParen => seq!['('],
        Token::RParen => seq![')'],
        Token::Unit => seq!['(', ')'],
        Token::Eq => seq!['='],
        Token::Comma => seq![','],
        Token::Colon => seq![':'],
        Token::Bar => seq!['|'],
        _ => Seq::empty(),
    }
}

/// Whether two tokens are the same; identifiers are the same when their
/// names have the same characters.
pub open spec fn same_token(a: Token, b: Token) -> bool {
    match (a, b) {
        (Token::Ident(x), Token::Ident(y)) => x@ == y@,
        _ => a == b,
    }
}

/// Whether `t` is one of the punctuation tokens.
pub open spec fn is_punct(t: Token) -> bool {
    !(t is Keyword || t is Ident || t is Literal)
}

impl Token {
    /// An exact copy of this token.
    pub fn duplicate(&self) -> (r: Token)
        ensures
            r == *self,
    {
        match self {
            Token::Keyword(k) => Token::Keyword(*k),
            Token::Ident(s) => Token::Ident(s.clone()),
            Token::Literal(n) => Token::Literal(*n),
            Token::Assign => Token::Assign,
            Token::Arrow => Token::Arrow,
            Token::Bang => Token::Bang,
            Token::Plus => Token::Plus,
            Token::Minus => Token::Minus,
            Token::Mult => Token::Mult,
            Token::Div => Token::Div,
            Token::Eqeq => Token::Eqeq,
            Token::Neq => Token::Neq,
            Token::Ge => Token::Ge,
            Token::Le => Token::Le,
            Token::Gt => Token::Gt,
            Token::Lt => Token::Lt,
            Token::Not => Token::Not,
            Token::And => Token::And,
            Token::Or => Token::Or,
            Token::LParen => Token::LParen,
            Token::RParen => Token::RParen,
            Token::Unit => Token::Unit,
            Token::Eq => Token::Eq,
            Token::Comma => Token::Comma,
            Token::Colon => Token::Colon,
            Token::Bar => Token::Bar,
        }
    }

    /// Whether this token is `other`; identifiers compare by their text.
    pub fn same_as(&self, other: &Token) -> (r: bool)
        ensures
            r == same_token(*self, *other),
    {
        match (self, other) {
            (Token::Ident(a), Token::Ident(b)) => *a == *b,
            (Token::Keyword(a), Token::Keyword(b)) => *a == *b,
            (Token::Literal(a), Token::Literal(b)) => *a == *b,
            (Token::Assign, Token::Assign) => true,
            (Token::Arrow, Token::Arrow) => true,
            (Token::Bang, Token::Bang) => true,
            (Token::Plus, Token::Plus) => true,
            (Token::Minus, Token::Minus) => true,
            (Token::Mult, Token::Mult) => true,
            (Token::Div, Token::Div) => true,
            (Token::Eqeq, Token::Eqeq) => true,
            (Token::Neq, Token::Neq) => true,
            (Token::Ge, Token::Ge) => true,
            (Token::Le, Token::Le) => true,
            (Token::Gt, Token::Gt) => true,
            (Token::Lt, Token::Lt) => true,
            (Token::Not, Token::Not) => true,
            (Token::And, Token::And) => true,
            (Token::Or, Token::Or) => true,
            (Token::LParen, Token::LParen) => true,
            (Token::RParen, Token::RParen) => true,
            (Token::Unit, Token::Unit) => true,
            (Token::Eq, Token::Eq) => true,
            (Token::Comma, Token::Comma) => true,
            (Token::Colon, Token::Colon) => true,
            (Token::Bar, Token::Bar) => true,
            _ => false,
        }
    }
}

} // verus!
