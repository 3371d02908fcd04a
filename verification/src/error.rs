//! Diagnostics: recorded errors carrying source context.  A diagnostic is a
//! value, not a control-flow abort; rendering and process exit policy belong
//! to the calling shell.

use vstd::prelude::*;

use crate::token::{Object, Token};

verus! {

/// The error families of the front end.  `ParseError` records a structural
/// grammar violation together with the offending token; the other variants
/// cover the surrounding toolchain.
#[derive(Debug, PartialEq, Eq)]
pub enum Problem {
    ParseError { token: Token, message: String },
    RuntimeError { token: Token, message: String },
    Error { line: usize, message: String },
    SystemError { message: String },
    ReturnValue { value: Object },
    Break,
    Fail,
}

impl Problem {
    /// A bare failure marker.
    pub fn fail() -> (r: Problem)
        ensures
            r == Problem::Fail,
    {
        Problem::Fail
    }

    /// Wraps a value produced by an early return.
    pub fn return_value(value: Object) -> (r: Problem)
        ensures
            r == (Problem::ReturnValue { value }),
    {
        Problem::ReturnValue { value }
    }

    /// A diagnostic bound to a source line.
    pub fn error(line: usize, message: &str) -> (r: Problem)
        ensures
            r matches Problem::Error { line: l, message: m } && l == line && m@ == message@,
    {
        Problem::Error { line, message: message.to_owned() }
    }

    /// A parse diagnostic carrying the offending token, for accurate
    /// source-location reporting.
    pub fn parse_error(token: &Token, message: &str) -> (r: Problem)
        ensures
            r matches Problem::ParseError { token: t, message: m } && t == *token && m@
                == message@,
    {
        Problem::ParseError { token: token.dup(), message: message.to_owned() }
    }

    /// A runtime diagnostic carrying the offending token.
    pub fn runtime_error(token: &Token, message: &str) -> (r: Problem)
        ensures
            r matches Problem::RuntimeError { token: t, message: m } && t == *token && m@
                == message@,
    {
        Problem::RuntimeError { token: token.dup(), message: message.to_owned() }
    }

    /// A structurally equal copy.
    pub fn dup(&self) -> (r: Problem)
        ensures
            r == *self,
    {
        match self {
            Problem::ParseError { token, message } => Problem::ParseError {
                token: token.dup(),
                message: message.clone(),
            },
            Problem::RuntimeError { token, message } => Problem::RuntimeError {
                token: token.dup(),
                message: message.clone(),
            },
            Problem::Error { line, message } => Problem::Error {
                line: *line,
                message: message.clone(),
            },
            Problem::SystemError { message } => Problem::SystemError { message: message.clone() },
            Problem::ReturnValue { value } => Problem::ReturnValue { value: value.dup() },
            Problem::Break => Problem::Break,
            Problem::Fail => Problem::Fail,
        }
    }

    /// A diagnostic of the surrounding system, with no source context.
    pub fn system_error(message: &str) -> (r: Problem)
        ensures
            r matches Problem::SystemError { message: m } && m@ == message@,
    {
        Problem::SystemError { message: message.to_owned() }
    }
}

} // verus!
