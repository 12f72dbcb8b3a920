//! What the lowering reports about the program it is given.
//!
//! A report never stops the lowering: it is recorded, and the lowering goes
//! on with a placeholder.
use crate::position::Span;
use vstd::prelude::*;

verus! {

/// The misuses that the lowering detects.
#[derive(Clone, Copy, Debug, PartialEq, Eq, Hash, Structural)]
pub enum Problem {
    /// The target of an assignment or of address-of is no place.
    InvalidLvalue,
    BreakOutsideLoop,
    ContinueOutsideLoop,
}

/// One report: what is wrong, and the span it is wrong at.
#[derive(Clone, Copy, Debug, PartialEq, Eq, Hash, Structural)]
pub struct Diagnostic {
    pub problem: Problem,
    pub span: Span,
}

/// What a compilation carries from pass to pass: the reports made so far.
#[derive(Debug)]
pub struct CompileCtx {
    pub diagnostics: Vec<Diagnostic>,
}

impl Problem {
    /// The text shown for the problem.
    pub fn message(&self) -> (text: &'static str)
        ensures
            text@ == match *self {
                Problem::InvalidLvalue => "invalid lvalue"@,
                Problem::BreakOutsideLoop => "cannot use `break` outside loop"@,
                Problem::ContinueOutsideLoop => "cannot use `continue` outside loop"@,
            },
    {
        match self {
            Problem::InvalidLvalue => "invalid lvalue",
            Problem::BreakOutsideLoop => "cannot use `break` outside loop",
            Problem::ContinueOutsideLoop => "cannot use `continue` outside loop",
        }
    }
}

impl CompileCtx {
    /// A context that holds no report.
    pub fn new() -> (ctx: CompileCtx)
        ensures
            ctx.diagnostics@ == Seq::<Diagnostic>::empty(),
    {
        CompileCtx { diagnostics: Vec::new() }
    }
}

} // verus!
