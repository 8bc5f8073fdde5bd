//! Parse errors.
//!
//! Two kinds suffice for this front end: a token mismatch (a required
//! delimiter, keyword or shape was absent — including the case that the
//! input ended early, where `found` is `None`) and a semantic error (a rule
//! of the Information Object System was broken by otherwise well-shaped
//! input). Both propagate unchanged to the caller of the enclosing
//! declaration; there is no local recovery.

use vstd::prelude::*;

use crate::token::Token;

verus! {

/// An error raised by one of the parsers.
#[derive(Debug)]
pub enum Error {
    /// A required token was absent: what was expected, and the token actually
    /// found (`None` when the input ended instead).
    TokenMismatch { expected: String, found: Option<Token> },
    /// A semantic rule was broken; the message names the rule and, where one
    /// is involved, the offending field id.
    SemanticError { message: String },
}

/// The mathematical value of an [`Error`]: the same two cases, with text as
/// character sequences.
pub enum ErrorModel {
    TokenMismatch { expected: Seq<char>, found: Option<Token> },
    Semantic { message: Seq<char> },
}

impl View for Error {
    type V = ErrorModel;

    open spec fn view(&self) -> ErrorModel {
        match self {
            Error::TokenMismatch { expected, found } => ErrorModel::TokenMismatch {
                expected: expected@,
                found: *found,
            },
            Error::SemanticError { message } => ErrorModel::Semantic { message: message@ },
        }
    }
}

/// The mismatch error for position `at` of `toks`: it reports the token
/// found there, or the end of the input.
pub open spec fn spec_mismatch(toks: Seq<Token>, at: int, expected: Seq<char>) -> ErrorModel {
    ErrorModel::TokenMismatch {
        expected,
        found: if 0 <= at && at < toks.len() {
            Some(toks[at])
        } else {
            None
        },
    }
}

/// A semantic error with the given message.
pub open spec fn spec_semantic(message: Seq<char>) -> ErrorModel {
    ErrorModel::Semantic { message }
}

/// Builds the [`Error::TokenMismatch`] for position `at` of `tokens`.
pub fn mismatch_at(tokens: &[Token], at: usize, expected: &str) -> (e: Error)
    ensures
        e@ == spec_mismatch(tokens@, at as int, expected@),
{
    let found = if at < tokens.len() {
        Some(tokens[at].clone())
    } else {
        None
    };
    Error::TokenMismatch { expected: expected.to_owned(), found }
}

} // verus!
