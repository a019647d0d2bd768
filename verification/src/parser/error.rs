//! The ways parsing a module can fail.
use vstd::prelude::*;

use crate::lexer::Range;

verus! {

#[derive(Debug)]
pub enum Error {
    UnexpectedToken { expected: String, found: String, range: Range },
    UnexpectedEnd,
    TokenNotAtLineStart(Range),
    Indent { range: Range },
    TokensRemaining(Vec<String>),
    NoOperand,
    NoOperator,
    EmptyOperatorStack,
    UnknownOperator(String),
    UnknownExposing(String),
    NegativePrecendence,
    NameMismatch,
    Unknown,
}

} // verus!
