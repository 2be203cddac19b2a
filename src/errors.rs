//! The errors that the lexer reports.
use vstd::prelude::*;

verus! {

/// Why a piece of source text could not be read.
#[derive(Clone, Copy, Debug, PartialEq, Eq, Structural)]
pub enum JuliaParseError {
    /// The left-hand side of an assignment is not something one can assign to.
    LValue,
    /// No grammar rule applies at this position.
    Unparseable,
}

impl JuliaParseError {
    /// A short description of the error.
    pub fn message(&self) -> (r: &'static str)
        ensures
            *self == JuliaParseError::LValue ==> r@ == "invalid lvalue"@,
            *self == JuliaParseError::Unparseable ==> r@ == "unknown parser error"@,
    {
        match self {
            JuliaParseError::LValue => "invalid lvalue",
            JuliaParseError::Unparseable => "unknown parser error",
        }
    }
}

} // verus!
