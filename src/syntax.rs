use vstd::prelude::*;

use crate::token::Pos;

verus! {

/// The types that annotations in expressions spell out.
#[derive(Debug, PartialEq, Eq)]
pub enum Type {
    Unit,
    Int,
    Bool,
    /// A function type `domain -> codomain`.
    Arrow(Box<Type>, Box<Type>),
    /// A product `left * right`.
    Prod(Box<Type>, Box<Type>),
    /// A sum `left + right`.
    Sum(Box<Type>, Box<Type>),
    /// A reference `ref pointee`.
    Ref(Box<Type>),
}

/// An expression tree. Each node carries the offset of the token that
/// introduces it: its operator, keyword, literal or name; an application
/// carries the offset of the first token of its function part.
#[derive(Debug, PartialEq, Eq)]
pub enum Exp {
    Uop(Pos, Uop, Box<Exp>),
    Bop(Pos, Bop, Box<Exp>, Box<Exp>),
    App(Pos, Box<Exp>, Box<Exp>),
    Fst(Pos, Box<Exp>),
    Snd(Pos, Box<Exp>),
    /// A left injection; the type is that of the right side of the sum.
    Inl(Pos, Type, Box<Exp>),
    /// A right injection; the type is that of the left side of the sum.
    Inr(Pos, Type, Box<Exp>),
    BoolLit(Pos, bool),
    NumLit(Pos, i64),
    Unit(Pos),
    Var(Pos, String),
    Pair(Pos, Box<Exp>, Box<Exp>),
    Deref(Pos, Box<Exp>),
    Ref(Pos, Box<Exp>),
    Asgn(Pos, Box<Exp>, Box<Exp>),
}

/// Unary operators.
#[derive(Debug, Clone, Copy, PartialEq, Eq, Structural)]
pub enum Uop {
    Not,
}

/// Binary operators.
#[derive(Debug, Clone, Copy, PartialEq, Eq, Structural)]
pub enum Bop {
    Plus,
    Minus,
    Mul,
    Div,
    And,
    Or,
    Lt,
    Gt,
    Le,
    Ge,
    Eq,
    Neq,
}

} // verus!
