//! A verified arithmetic expression front end: a lexer that turns a line of
//! text into tokens, and a recursive-descent parser that turns the tokens
//! into an expression tree honouring the usual operator precedence.
//!
//! Numeric literals are carried through the pipeline as their exact source
//! text; turning that text into a machine number, and reducing a finished
//! tree to one, is left to the (unverified) caller, since floating-point
//! arithmetic lies outside what the verifier can reason about. Every run a
//! literal carries is guaranteed well-formed — at least one digit, at most
//! one decimal point — so reading a number from it cannot fail.

use vstd::prelude::*;

pub mod error;
pub mod laws;
pub mod lexer;
pub mod parser;

use crate::error::{SpecSyntaxError, SyntaxError};
use crate::lexer::{lexer, spec_lex};
use crate::parser::{node_literals_valid, spec_parse_expression, Node, Parser, SpecNode};

verus! {

/// What the whole front end yields on a line of text: the expression tree
/// of the input, or the first error met at whichever stage it occurs.
/// A closing bracket the expression never opened simply terminates it, as
/// inside a bracketed sub-expression; tokens after it are left unread.
pub open spec fn spec_parse_input(s: Seq<char>) -> Result<SpecNode, SpecSyntaxError> {
    match spec_lex(s) {
        Ok(toks) => match spec_parse_expression(toks, 0) {
            Ok((node, _)) => Ok(node),
            Err(e) => Err(e),
        },
        Err(e) => Err(e),
    }
}

/// Run the verified part of the pipeline on one line of text: lex it, then
/// parse one expression, exactly as [`spec_parse_input`] describes. The
/// result is a function of the text alone; no state survives a call.
pub fn parse_input(input: &str) -> (r: Result<Node, SyntaxError>)
    ensures
        match r {
            Ok(node) => spec_parse_input(input@) == Ok::<_, SpecSyntaxError>(node@)
                && node_literals_valid(node@),
            Err(e) => spec_parse_input(input@) == Err::<SpecNode, _>(e@),
        },
{
    match lexer(input) {
        Ok(tokens) => {
            let mut parser = Parser::new(tokens);
            match parser.parse_expression() {
                Ok(node) => Ok(node),
                Err(e) => Err(e),
            }
        },
        Err(e) => Err(e),
    }
}

} // verus!
