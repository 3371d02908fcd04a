//! Front end of a small scripting-language toolchain: a recursive-descent
//! parser that turns a lexical token stream into a flat intermediate
//! representation (IR), and a scope-aware type checker that validates that
//! representation.
//!
//! Lexing and code emission are external collaborators: the parser consumes an
//! already-produced token sequence, and the IR it returns is handed to an
//! external emitter.

pub mod ast;
pub mod context;
pub mod environment;
pub mod error;
pub mod parser;
pub mod token;
pub mod typechecker;
pub mod types;
