//! Lexical error records. Each detected problem yields one structured record
//! carrying line, span, message and help text; a scan that found any problem
//! returns the whole ordered collection as a single aggregate value, never a
//! first-error-only result.
//!
//! Failures of the source-loading layer (a missing file, an I/O fault) occur
//! strictly before a scanner is constructed and are not represented here.

use vstd::prelude::*;
use crate::token::Token;

verus! {

/// One detected lexical problem: its line, the half-open character span of
/// the offending text, a message, and a hint for the user.
#[derive(Debug, PartialEq)]
pub struct SyntaxError {
    pub line: usize,
    pub span: (usize, usize),
    pub err_message: String,
    pub help_message: String,
}

/// Mathematical model of a [`SyntaxError`]: the same fields over `Seq<char>`
/// and `int`.
pub ghost struct SyntaxErrorModel {
    pub line: int,
    pub span: (int, int),
    pub err_message: Seq<char>,
    pub help_message: Seq<char>,
}

impl View for SyntaxError {
    type V = SyntaxErrorModel;

    open spec fn view(&self) -> SyntaxErrorModel {
        SyntaxErrorModel {
            line: self.line as int,
            span: (self.span.0 as int, self.span.1 as int),
            err_message: self.err_message@,
            help_message: self.help_message@,
        }
    }
}

impl SyntaxError {
    /// Builds a syntax error positioned at the given token.
    pub fn new(token: &Token, err: String, help: String) -> (e: SyntaxError)
        ensures
            e.line == token.line,
            e.span == token.span,
            e.err_message == err,
            e.help_message == help,
    {
        SyntaxError {
            line: token.line,
            span: token.span,
            err_message: err,
            help_message: help,
        }
    }
}

/// An error of this subsystem. Lexical errors leave the scanner only as the
/// non-empty aggregate `SyntaxErrors`; `RuntimeError` is the shape reserved
/// for faults of later evaluation stages.
#[derive(Debug, PartialEq)]
pub enum LoxError {
    SyntaxErrors(Vec<SyntaxError>),
    RuntimeError {
        line: usize,
        span: (usize, usize),
        err_message: String,
        help_message: String,
    },
}

impl LoxError {
    /// Builds a runtime error positioned at the given token.
    pub fn new_runtime_err(token: &Token, err_msg: String, help_msg: String) -> (e: LoxError)
        ensures
            e == (LoxError::RuntimeError {
                line: token.line,
                span: token.span,
                err_message: err_msg,
                help_message: help_msg,
            }),
    {
        LoxError::RuntimeError {
            line: token.line,
            span: token.span,
            err_message: err_msg,
            help_message: help_msg,
        }
    }
}

/// Message attached to an unexpected-character error.
pub open spec fn unexpected_character_message() -> Seq<char> {
    "unexpected character"@
}

/// Hint attached to an unexpected-character error.
pub open spec fn unexpected_character_help() -> Seq<char> {
    "try removing the character"@
}

/// Message attached to an unterminated-string error.
pub open spec fn unterminated_string_message() -> Seq<char> {
    "unterminated string"@
}

/// Hint attached to an unterminated-string error.
pub open spec fn unterminated_string_help() -> Seq<char> {
    "add a '\"' after the string"@
}

} // verus!
