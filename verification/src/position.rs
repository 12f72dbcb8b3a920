//! Source positions, and values tagged with the stretch of source they came from.
use vstd::prelude::*;

verus! {

/// A place in the source text.
#[derive(Clone, Copy, Debug, PartialEq, Eq, Hash, Structural)]
pub struct Position {
    pub line: u32,
    pub column: u32,
}

/// A stretch of source text, from `start` up to `end`.
#[derive(Clone, Copy, Debug, PartialEq, Eq, Hash, Structural)]
pub struct Span {
    pub start: Position,
    pub end: Position,
}

/// A value together with the span it was read from.
#[derive(Clone, Copy, Debug, PartialEq, Eq)]
pub struct Spanned<T> {
    pub value: T,
    pub span: Span,
}

impl Position {
    pub fn new(line: u32, column: u32) -> (p: Position)
        ensures
            p == (Position { line, column }),
    {
        Position { line, column }
    }
}

impl Span {
    pub fn new(start: Position, end: Position) -> (s: Span)
        ensures
            s == (Span { start, end }),
    {
        Span { start, end }
    }
}

impl<T> Spanned<T> {
    pub fn new(value: T, span: Span) -> (s: Spanned<T>)
        ensures
            s == (Spanned { value, span }),
    {
        Spanned { value, span }
    }

    pub fn value(this: &Spanned<T>) -> (v: &T)
        ensures
            *v == this.value,
    {
        &this.value
    }

    pub fn span(this: &Spanned<T>) -> (s: Span)
        ensures
            s == this.span,
    {
        this.span
    }

    pub fn into_value(this: Spanned<T>) -> (v: T)
        ensures
            v == this.value,
    {
        this.value
    }
}

} // verus!
