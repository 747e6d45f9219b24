//! Turns source text into a tree of statements.

pub mod alternation;
pub mod chars;
pub mod comments;
pub mod expr;
pub mod laws;
pub mod outcome;
pub mod punctuated;
pub mod render;
pub mod sequences;
pub mod signature;
pub mod span;
pub mod stmt;
pub mod stream;
pub mod tokens;
pub mod ty;
pub mod typed_variable;
pub mod x_times;

use crate::error::{diagnose, Error};
use crate::parse::outcome::Outcome;
use crate::parse::stmt::{parse_program, program_spec, Stmt};
use crate::parse::stream::StreamState;
use vstd::prelude::*;
use vstd::string::*;

verus! {

/// Turns the text `code` of the file `filename` into its statements, or
/// into the diagnostic for the first statement that cannot be read.
pub fn parse(code: &str, filename: &str) -> (r: Result<Vec<Stmt>, Error>)
    requires
        code@.len() + 2 <= usize::MAX,
    ensures
        match r {
            Ok(stmts) => program_spec(StreamState::start(code@)) matches Outcome::Parsed {
                value,
                ..
            } && value == stmts.deep_view(),
            Err(error) => program_spec(StreamState::start(code@)) matches Outcome::Failed(failure)
                && error@ == diagnose(failure, code@, filename@),
        },
{
    match parse_program(code) {
        Ok(stmts) => Ok(stmts),
        Err(failure) => Err(failure.to_error(code, String::from_str(filename))),
    }
}

} // verus!
