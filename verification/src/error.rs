//! The single error kind of the pipeline.
//!
//! Every lexing or parsing failure is a `SyntaxError`; each variant carries
//! the offending piece of input, which is all a caller needs to render a
//! descriptive message. The first error met anywhere aborts the whole
//! pipeline: there is no partial result and no recovery.

use vstd::prelude::*;

use crate::lexer::{SpecToken, Token};

verus! {

/// A lexing or parsing failure, carrying what was found where something
/// else was required.
#[derive(Debug)]
pub enum SyntaxError {
    /// The lexer met a character that starts no token.
    UnrecognisedCharacter(char),
    /// A maximal run of digits and decimal points is not one number:
    /// it has no digit at all, or more than one decimal point.
    InvalidNumber(String),
    /// A token that is no operator stood where an operator was required.
    OperatorExpected(Token),
    /// After a complete term the next token is neither an operator nor a
    /// valid terminator (end of input or a closing bracket).
    ExpectedOperatorOrEnd(Token),
    /// A bracketed sub-expression is not followed by a closing bracket;
    /// `None` means the token sequence ended instead.
    ExpectedClosingBracket(Option<Token>),
    /// A number, constant name or opening bracket was required; `None`
    /// means the token sequence ended instead.
    ExpectedNumberOrParen(Option<Token>),
    /// An identifier that names no known constant.
    UnknownVariable(String),
}

/// Mathematical model of [`SyntaxError`]: the same variants over sequences
/// of characters instead of heap strings.
pub enum SpecSyntaxError {
    UnrecognisedCharacter(char),
    InvalidNumber(Seq<char>),
    OperatorExpected(SpecToken),
    ExpectedOperatorOrEnd(SpecToken),
    ExpectedClosingBracket(Option<SpecToken>),
    ExpectedNumberOrParen(Option<SpecToken>),
    UnknownVariable(Seq<char>),
}

impl View for SyntaxError {
    type V = SpecSyntaxError;

    open spec fn view(&self) -> SpecSyntaxError {
        match self {
            SyntaxError::UnrecognisedCharacter(c) => SpecSyntaxError::UnrecognisedCharacter(*c),
            SyntaxError::InvalidNumber(text) => SpecSyntaxError::InvalidNumber(text@),
            SyntaxError::OperatorExpected(t) => SpecSyntaxError::OperatorExpected(t@),
            SyntaxError::ExpectedOperatorOrEnd(t) => SpecSyntaxError::ExpectedOperatorOrEnd(t@),
            SyntaxError::ExpectedClosingBracket(t) => SpecSyntaxError::ExpectedClosingBracket(
                match t {
                    Some(t) => Some(t@),
                    None => None,
                },
            ),
            SyntaxError::ExpectedNumberOrParen(t) => SpecSyntaxError::ExpectedNumberOrParen(
                match t {
                    Some(t) => Some(t@),
                    None => None,
                },
            ),
            SyntaxError::UnknownVariable(name) => SpecSyntaxError::UnknownVariable(name@),
        }
    }
}

} // verus!
