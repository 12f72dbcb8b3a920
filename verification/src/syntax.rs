//! Operators and literals of the surface language, as the typed tree keeps them.
use vstd::prelude::*;

verus! {

#[derive(Clone, Copy, Debug, PartialEq, Eq, Hash, Structural)]
pub enum BinaryOp {
    Add,
    Subtract,
    Multiply,
    Divide,
    Modulo,
    Less,
    LessEqual,
    Greater,
    GreaterEqual,
    Equal,
    NotEqual,
    And,
    Or,
    Assign,
}

#[derive(Clone, Copy, Debug, PartialEq, Eq, Hash, Structural)]
pub enum UnaryOp {
    Plus,
    Minus,
    Not,
    Deref,
    AddressOf,
}

#[derive(Clone, Copy, Debug, PartialEq, Eq, Hash, Structural)]
pub enum Signedness {
    Signed,
    Unsigned,
}

#[derive(Clone, Copy, Debug, PartialEq, Eq, Hash, Structural)]
pub enum Size {
    Bit8,
    Bit16,
    Bit32,
}

/// An integer literal: its bit pattern, and the suffix it was written with, if any.
#[derive(Clone, Copy, Debug, PartialEq, Eq, Hash, Structural)]
pub struct Number {
    pub value: u64,
    pub signedness: Option<Signedness>,
    pub size: Option<Size>,
}

#[derive(Clone, Debug, PartialEq, Eq, Hash)]
pub enum Literal {
    Number(Number),
    Bool(bool),
    Char(u8),
    Str(Vec<u8>),
}

/// Whether a function carries a body here or is only declared.
#[derive(Clone, Copy, Debug, PartialEq, Eq, Hash, Structural)]
pub enum FunctionType {
    Normal,
    Extern,
}

impl Literal {
    /// The integer constant a literal stands for. A string literal has none.
    pub open spec fn constant(self) -> Option<u64> {
        match self {
            Literal::Number(n) => Some(n.value),
            Literal::Bool(b) => Some(if b { 1u64 } else { 0u64 }),
            Literal::Char(c) => Some(c as u64),
            Literal::Str(_) => None,
        }
    }

    /// Computes [`Literal::constant`].
    pub fn as_constant(&self) -> (c: Option<u64>)
        ensures
            c == self.constant(),
    {
        match self {
            Literal::Number(n) => Some(n.value),
            Literal::Bool(b) => Some(if *b { 1 } else { 0 }),
            Literal::Char(c) => Some(*c as u64),
            Literal::Str(_) => None,
        }
    }
}

} // verus!
