//! The ways in which reading and evaluating can fail.

use crate::object::{Object, Value};
use vstd::prelude::*;

verus! {

/// The mathematical content of a [`BelError`].
pub enum Failure {
    /// The named feature of the language is not supported.
    NotImplemented(Seq<char>),
    /// The text could not be read, for the given reason.
    ParseError(Seq<char>),
    /// The named symbol is bound neither locally nor globally.
    UnboundSymbol(Seq<char>),
    /// A value of the kind `found` stood where the kind `expected` was
    /// required.
    InvalidObject { expected: Seq<char>, found: Seq<char> },
    /// `quote` was not given exactly one operand.
    InvalidQuote,
    /// `def` was not given exactly a name, parameters and a body.
    InvalidDef,
    /// A function has a malformed body, or was given too many arguments.
    InvalidFn,
}

/// An error of the reader or of the evaluator. Every error ends the call that
/// raised it.
#[derive(Debug, PartialEq, Eq)]
pub enum BelError {
    /// The named feature of the language is not supported.
    NotImplemented(String),
    /// The text could not be read; the payload says why.
    ParseError(String),
    /// The named symbol is bound neither locally nor globally.
    UnboundSymbol(String),
    /// A value of one kind stood where another kind was required.
    InvalidObject { expected: String, found: String },
    /// `quote` was not given exactly one operand.
    InvalidQuote,
    /// `def` was not given exactly a name, parameters and a body.
    InvalidDef,
    /// A function has a malformed body, or was given too many arguments.
    InvalidFn,
}

impl View for BelError {
    type V = Failure;

    open spec fn view(&self) -> Failure {
        match self {
            BelError::NotImplemented(feature) => Failure::NotImplemented(feature@),
            BelError::ParseError(reason) => Failure::ParseError(reason@),
            BelError::UnboundSymbol(name) => Failure::UnboundSymbol(name@),
            BelError::InvalidObject { expected, found } => Failure::InvalidObject {
                expected: expected@,
                found: found@,
            },
            BelError::InvalidQuote => Failure::InvalidQuote,
            BelError::InvalidDef => Failure::InvalidDef,
            BelError::InvalidFn => Failure::InvalidFn,
        }
    }
}

/// The mathematical content of what a fallible operation returned.
pub open spec fn outcome(r: Result<Object, BelError>) -> Result<Value, Failure> {
    match r {
        Ok(object) => Ok(object@),
        Err(error) => Err(error@),
    }
}

} // verus!
