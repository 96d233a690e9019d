//! The grammar's governing properties, stated over the parser's
//! specification and proved once for all inputs of the given shape: how
//! same-precedence operators fold, how the levels bind, and how brackets
//! override them.

use vstd::prelude::*;

use crate::error::SpecSyntaxError;
use crate::lexer::SpecToken;
use crate::parser::{
    spec_parse_exponent, spec_parse_exponent_rest, spec_parse_expression,
    spec_parse_expression_rest, spec_parse_factor, spec_parse_term, spec_parse_term_rest, Operator,
    SpecNode,
};

verus! {

/// The token an operator tag reads back as.
pub open spec fn token_of_operator(op: Operator) -> SpecToken {
    match op {
        Operator::Add => SpecToken::Add,
        Operator::Subtract => SpecToken::Subtract,
        Operator::Multiply => SpecToken::Multiply,
        Operator::Divide => SpecToken::Divide,
        Operator::Modulo => SpecToken::Modulo,
        Operator::Exponent => SpecToken::Exponent,
    }
}

/// A number with neither an exponent nor a term operator after it parses,
/// up through the term level, as just that number, consuming one token.
proof fn lemma_number_atom(t: Seq<SpecToken>, pos: int, v: Seq<char>)
    requires
        0 <= pos,
        pos + 1 < t.len(),
        t[pos] == SpecToken::Number(v),
        !(t[pos + 1] is Exponent),
        !(t[pos + 1] is Multiply),
        !(t[pos + 1] is Divide),
        !(t[pos + 1] is Modulo),
    ensures
        spec_parse_term(t, pos) == Ok::<_, SpecSyntaxError>((SpecNode::Number(v), pos + 1)),
        spec_parse_exponent(t, pos) == Ok::<_, SpecSyntaxError>((SpecNode::Number(v), pos + 1)),
{
    let nv = SpecNode::Number(v);
    assert(spec_parse_factor(t, pos) == Ok::<_, SpecSyntaxError>((nv, pos + 1)));
    assert(spec_parse_exponent_rest(t, pos + 1, nv) == Ok::<_, SpecSyntaxError>((nv, pos + 1)));
    assert(spec_parse_exponent(t, pos) == Ok::<_, SpecSyntaxError>((nv, pos + 1)));
    assert(spec_parse_term_rest(t, pos + 1, nv) == Ok::<_, SpecSyntaxError>((nv, pos + 1)));
}

/// Left-associativity at the addition level: for any two operators of that
/// level (`+` or `-`, in any combination) and any three literals, the
/// middle literal binds to the left, so `x op1 y op2 z` parses as
/// `(x op1 y) op2 z` — never as `x op1 (y op2 z)`.
pub proof fn lemma_same_precedence_folds_left(
    x: Seq<char>,
    y: Seq<char>,
    z: Seq<char>,
    op1: Operator,
    op2: Operator,
)
    requires
        op1 == Operator::Add || op1 == Operator::Subtract,
        op2 == Operator::Add || op2 == Operator::Subtract,
    ensures
        spec_parse_expression(
            seq![
                SpecToken::Number(x),
                token_of_operator(op1),
                SpecToken::Number(y),
                token_of_operator(op2),
                SpecToken::Number(z),
                SpecToken::EOF,
            ],
            0,
        ) == Ok::<_, SpecSyntaxError>(
            (
                SpecNode::BinaryOp {
                    op: op2,
                    left: Box::new(
                        SpecNode::BinaryOp {
                            op: op1,
                            left: Box::new(SpecNode::Number(x)),
                            right: Box::new(SpecNode::Number(y)),
                        },
                    ),
                    right: Box::new(SpecNode::Number(z)),
                },
                5int,
            ),
        ),
{
    let t = seq![
        SpecToken::Number(x),
        token_of_operator(op1),
        SpecToken::Number(y),
        token_of_operator(op2),
        SpecToken::Number(z),
        SpecToken::EOF,
    ];
    let nx = SpecNode::Number(x);
    let ny = SpecNode::Number(y);
    let nz = SpecNode::Number(z);
    let acc1 = SpecNode::BinaryOp { op: op1, left: Box::new(nx), right: Box::new(ny) };
    let acc2 = SpecNode::BinaryOp { op: op2, left: Box::new(acc1), right: Box::new(nz) };
    lemma_number_atom(t, 0, x);
    lemma_number_atom(t, 2, y);
    lemma_number_atom(t, 4, z);
    assert(spec_parse_expression_rest(t, 5, acc2) == Ok::<_, SpecSyntaxError>((acc2, 5int)));
    assert(spec_parse_expression_rest(t, 3, acc1) == Ok::<_, SpecSyntaxError>((acc2, 5int)));
    assert(spec_parse_expression_rest(t, 1, nx) == Ok::<_, SpecSyntaxError>((acc2, 5int)));
}

/// Left-associativity at the term level: for any two operators of that
/// level (`*`, `/` or `%`, in any combination) and any three literals,
/// `x op1 y op2 z` parses as `(x op1 y) op2 z`.
pub proof fn lemma_term_operators_fold_left(
    x: Seq<char>,
    y: Seq<char>,
    z: Seq<char>,
    op1: Operator,
    op2: Operator,
)
    requires
        op1 == Operator::Multiply || op1 == Operator::Divide || op1 == Operator::Modulo,
        op2 == Operator::Multiply || op2 == Operator::Divide || op2 == Operator::Modulo,
    ensures
        spec_parse_expression(
            seq![
                SpecToken::Number(x),
                token_of_operator(op1),
                SpecToken::Number(y),
                token_of_operator(op2),
                SpecToken::Number(z),
                SpecToken::EOF,
            ],
            0,
        ) == Ok::<_, SpecSyntaxError>(
            (
                SpecNode::BinaryOp {
                    op: op2,
                    left: Box::new(
                        SpecNode::BinaryOp {
                            op: op1,
                            left: Box::new(SpecNode::Number(x)),
                            right: Box::new(SpecNode::Number(y)),
                        },
                    ),
                    right: Box::new(SpecNode::Number(z)),
                },
                5int,
            ),
        ),
{
    let t = seq![
        SpecToken::Number(x),
        token_of_operator(op1),
        SpecToken::Number(y),
        token_of_operator(op2),
        SpecToken::Number(z),
        SpecToken::EOF,
    ];
    let nx = SpecNode::Number(x);
    let ny = SpecNode::Number(y);
    let nz = SpecNode::Number(z);
    let acc1 = SpecNode::BinaryOp { op: op1, left: Box::new(nx), right: Box::new(ny) };
    let acc2 = SpecNode::BinaryOp { op: op2, left: Box::new(acc1), right: Box::new(nz) };
    assert(spec_parse_factor(t, 0) == Ok::<_, SpecSyntaxError>((nx, 1int)));
    assert(spec_parse_exponent_rest(t, 1, nx) == Ok::<_, SpecSyntaxError>((nx, 1int)));
    assert(spec_parse_exponent(t, 0) == Ok::<_, SpecSyntaxError>((nx, 1int)));
    assert(spec_parse_factor(t, 2) == Ok::<_, SpecSyntaxError>((ny, 3int)));
    assert(spec_parse_exponent_rest(t, 3, ny) == Ok::<_, SpecSyntaxError>((ny, 3int)));
    assert(spec_parse_exponent(t, 2) == Ok::<_, SpecSyntaxError>((ny, 3int)));
    assert(spec_parse_factor(t, 4) == Ok::<_, SpecSyntaxError>((nz, 5int)));
    assert(spec_parse_exponent_rest(t, 5, nz) == Ok::<_, SpecSyntaxError>((nz, 5int)));
    assert(spec_parse_exponent(t, 4) == Ok::<_, SpecSyntaxError>((nz, 5int)));
    assert(spec_parse_term_rest(t, 5, acc2) == Ok::<_, SpecSyntaxError>((acc2, 5int)));
    assert(spec_parse_term_rest(t, 3, acc1) == Ok::<_, SpecSyntaxError>((acc2, 5int)));
    assert(spec_parse_term_rest(t, 1, nx) == Ok::<_, SpecSyntaxError>((acc2, 5int)));
    assert(spec_parse_term(t, 0) == Ok::<_, SpecSyntaxError>((acc2, 5int)));
    assert(spec_parse_expression_rest(t, 5, acc2) == Ok::<_, SpecSyntaxError>((acc2, 5int)));
}

/// Exponentiation folds left-associatively: for any three literals,
/// `x ^ y ^ z` parses as `(x ^ y) ^ z`, not as `x ^ (y ^ z)` — the
/// documented, mathematically unconventional associativity choice.
pub proof fn lemma_exponent_folds_left(x: Seq<char>, y: Seq<char>, z: Seq<char>)
    ensures
        spec_parse_expression(
            seq![
                SpecToken::Number(x),
                SpecToken::Exponent,
                SpecToken::Number(y),
                SpecToken::Exponent,
                SpecToken::Number(z),
                SpecToken::EOF,
            ],
            0,
        ) == Ok::<_, SpecSyntaxError>(
            (
                SpecNode::BinaryOp {
                    op: Operator::Exponent,
                    left: Box::new(
                        SpecNode::BinaryOp {
                            op: Operator::Exponent,
                            left: Box::new(SpecNode::Number(x)),
                            right: Box::new(SpecNode::Number(y)),
                        },
                    ),
                    right: Box::new(SpecNode::Number(z)),
                },
                5int,
            ),
        ),
{
    let t = seq![
        SpecToken::Number(x),
        SpecToken::Exponent,
        SpecToken::Number(y),
        SpecToken::Exponent,
        SpecToken::Number(z),
        SpecToken::EOF,
    ];
    let nx = SpecNode::Number(x);
    let ny = SpecNode::Number(y);
    let nz = SpecNode::Number(z);
    let acc1 = SpecNode::BinaryOp {
        op: Operator::Exponent,
        left: Box::new(nx),
        right: Box::new(ny),
    };
    let acc2 = SpecNode::BinaryOp {
        op: Operator::Exponent,
        left: Box::new(acc1),
        right: Box::new(nz),
    };
    assert(spec_parse_factor(t, 0) == Ok::<_, SpecSyntaxError>((nx, 1int)));
    assert(spec_parse_factor(t, 2) == Ok::<_, SpecSyntaxError>((ny, 3int)));
    assert(spec_parse_factor(t, 4) == Ok::<_, SpecSyntaxError>((nz, 5int)));
    assert(spec_parse_exponent_rest(t, 5, acc2) == Ok::<_, SpecSyntaxError>((acc2, 5int)));
    assert(spec_parse_exponent_rest(t, 3, acc1) == Ok::<_, SpecSyntaxError>((acc2, 5int)));
    assert(spec_parse_exponent_rest(t, 1, nx) == Ok::<_, SpecSyntaxError>((acc2, 5int)));
    assert(spec_parse_exponent(t, 0) == Ok::<_, SpecSyntaxError>((acc2, 5int)));
    assert(spec_parse_term_rest(t, 5, acc2) == Ok::<_, SpecSyntaxError>((acc2, 5int)));
    assert(spec_parse_term(t, 0) == Ok::<_, SpecSyntaxError>((acc2, 5int)));
    assert(spec_parse_expression_rest(t, 5, acc2) == Ok::<_, SpecSyntaxError>((acc2, 5int)));
}

/// A term operator binds tighter than an addition operator on whichever
/// side it stands: `x low y high z` parses as `x low (y high z)`, and
/// `x high y low z` parses as `(x high y) low z`, for any `low` in
/// `{+, -}` and `high` in `{*, /, %}`.
pub proof fn lemma_term_binds_tighter(
    x: Seq<char>,
    y: Seq<char>,
    z: Seq<char>,
    low: Operator,
    high: Operator,
)
    requires
        low == Operator::Add || low == Operator::Subtract,
        high == Operator::Multiply || high == Operator::Divide || high == Operator::Modulo,
    ensures
        spec_parse_expression(
            seq![
                SpecToken::Number(x),
                token_of_operator(low),
                SpecToken::Number(y),
                token_of_operator(high),
                SpecToken::Number(z),
                SpecToken::EOF,
            ],
            0,
        ) == Ok::<_, SpecSyntaxError>(
            (
                SpecNode::BinaryOp {
                    op: low,
                    left: Box::new(SpecNode::Number(x)),
                    right: Box::new(
                        SpecNode::BinaryOp {
                            op: high,
                            left: Box::new(SpecNode::Number(y)),
                            right: Box::new(SpecNode::Number(z)),
                        },
                    ),
                },
                5int,
            ),
        ),
        spec_parse_expression(
            seq![
                SpecToken::Number(x),
                token_of_operator(high),
                SpecToken::Number(y),
                token_of_operator(low),
                SpecToken::Number(z),
                SpecToken::EOF,
            ],
            0,
        ) == Ok::<_, SpecSyntaxError>(
            (
                SpecNode::BinaryOp {
                    op: low,
                    left: Box::new(
                        SpecNode::BinaryOp {
                            op: high,
                            left: Box::new(SpecNode::Number(x)),
                            right: Box::new(SpecNode::Number(y)),
                        },
                    ),
                    right: Box::new(SpecNode::Number(z)),
                },
                5int,
            ),
        ),
{
    let nx = SpecNode::Number(x);
    let ny = SpecNode::Number(y);
    let nz = SpecNode::Number(z);
    // First shape: x low (y high z).
    let t1 = seq![
        SpecToken::Number(x),
        token_of_operator(low),
        SpecToken::Number(y),
        token_of_operator(high),
        SpecToken::Number(z),
        SpecToken::EOF,
    ];
    let inner1 = SpecNode::BinaryOp { op: high, left: Box::new(ny), right: Box::new(nz) };
    let full1 = SpecNode::BinaryOp { op: low, left: Box::new(nx), right: Box::new(inner1) };
    lemma_number_atom(t1, 0, x);
    assert(spec_parse_factor(t1, 2) == Ok::<_, SpecSyntaxError>((ny, 3int)));
    assert(spec_parse_exponent_rest(t1, 3, ny) == Ok::<_, SpecSyntaxError>((ny, 3int)));
    assert(spec_parse_exponent(t1, 2) == Ok::<_, SpecSyntaxError>((ny, 3int)));
    assert(spec_parse_factor(t1, 4) == Ok::<_, SpecSyntaxError>((nz, 5int)));
    assert(spec_parse_exponent_rest(t1, 5, nz) == Ok::<_, SpecSyntaxError>((nz, 5int)));
    assert(spec_parse_exponent(t1, 4) == Ok::<_, SpecSyntaxError>((nz, 5int)));
    assert(spec_parse_term_rest(t1, 5, inner1) == Ok::<_, SpecSyntaxError>((inner1, 5int)));
    assert(spec_parse_term_rest(t1, 3, ny) == Ok::<_, SpecSyntaxError>((inner1, 5int)));
    assert(spec_parse_term(t1, 2) == Ok::<_, SpecSyntaxError>((inner1, 5int)));
    assert(spec_parse_expression_rest(t1, 5, full1) == Ok::<_, SpecSyntaxError>((full1, 5int)));
    assert(spec_parse_expression_rest(t1, 1, nx) == Ok::<_, SpecSyntaxError>((full1, 5int)));
    // Second shape: (x high y) low z.
    let t2 = seq![
        SpecToken::Number(x),
        token_of_operator(high),
        SpecToken::Number(y),
        token_of_operator(low),
        SpecToken::Number(z),
        SpecToken::EOF,
    ];
    let inner2 = SpecNode::BinaryOp { op: high, left: Box::new(nx), right: Box::new(ny) };
    let full2 = SpecNode::BinaryOp { op: low, left: Box::new(inner2), right: Box::new(nz) };
    assert(spec_parse_factor(t2, 0) == Ok::<_, SpecSyntaxError>((nx, 1int)));
    assert(spec_parse_exponent_rest(t2, 1, nx) == Ok::<_, SpecSyntaxError>((nx, 1int)));
    assert(spec_parse_exponent(t2, 0) == Ok::<_, SpecSyntaxError>((nx, 1int)));
    assert(spec_parse_factor(t2, 2) == Ok::<_, SpecSyntaxError>((ny, 3int)));
    assert(spec_parse_exponent_rest(t2, 3, ny) == Ok::<_, SpecSyntaxError>((ny, 3int)));
    assert(spec_parse_exponent(t2, 2) == Ok::<_, SpecSyntaxError>((ny, 3int)));
    assert(spec_parse_term_rest(t2, 3, inner2) == Ok::<_, SpecSyntaxError>((inner2, 3int)));
    assert(spec_parse_term_rest(t2, 1, nx) == Ok::<_, SpecSyntaxError>((inner2, 3int)));
    assert(spec_parse_term(t2, 0) == Ok::<_, SpecSyntaxError>((inner2, 3int)));
    lemma_number_atom(t2, 4, z);
    assert(spec_parse_expression_rest(t2, 5, full2) == Ok::<_, SpecSyntaxError>((full2, 5int)));
    assert(spec_parse_expression_rest(t2, 3, inner2) == Ok::<_, SpecSyntaxError>((full2, 5int)));
}

/// Brackets override precedence: `( x low y ) high z` parses as
/// `(x low y) high z` — the bracketed addition-level operation becomes the
/// left operand of the term operator, the opposite of what precedence
/// alone would build, and the bracket tokens leave no node behind.
pub proof fn lemma_parentheses_override_precedence(
    x: Seq<char>,
    y: Seq<char>,
    z: Seq<char>,
    low: Operator,
    high: Operator,
)
    requires
        low == Operator::Add || low == Operator::Subtract,
        high == Operator::Multiply || high == Operator::Divide || high == Operator::Modulo,
    ensures
        spec_parse_expression(
            seq![
                SpecToken::LeftParen,
                SpecToken::Number(x),
                token_of_operator(low),
                SpecToken::Number(y),
                SpecToken::RightParen,
                token_of_operator(high),
                SpecToken::Number(z),
                SpecToken::EOF,
            ],
            0,
        ) == Ok::<_, SpecSyntaxError>(
            (
                SpecNode::BinaryOp {
                    op: high,
                    left: Box::new(
                        SpecNode::BinaryOp {
                            op: low,
                            left: Box::new(SpecNode::Number(x)),
                            right: Box::new(SpecNode::Number(y)),
                        },
                    ),
                    right: Box::new(SpecNode::Number(z)),
                },
                7int,
            ),
        ),
{
    let t = seq![
        SpecToken::LeftParen,
        SpecToken::Number(x),
        token_of_operator(low),
        SpecToken::Number(y),
        SpecToken::RightParen,
        token_of_operator(high),
        SpecToken::Number(z),
        SpecToken::EOF,
    ];
    let nx = SpecNode::Number(x);
    let ny = SpecNode::Number(y);
    let nz = SpecNode::Number(z);
    let inner = SpecNode::BinaryOp { op: low, left: Box::new(nx), right: Box::new(ny) };
    let full = SpecNode::BinaryOp { op: high, left: Box::new(inner), right: Box::new(nz) };
    // The bracketed sub-expression: x low y, stopping at the closing bracket.
    lemma_number_atom(t, 1, x);
    assert(spec_parse_factor(t, 3) == Ok::<_, SpecSyntaxError>((ny, 4int)));
    assert(spec_parse_exponent_rest(t, 4, ny) == Ok::<_, SpecSyntaxError>((ny, 4int)));
    assert(spec_parse_exponent(t, 3) == Ok::<_, SpecSyntaxError>((ny, 4int)));
    assert(spec_parse_term_rest(t, 4, ny) == Ok::<_, SpecSyntaxError>((ny, 4int)));
    assert(spec_parse_term(t, 3) == Ok::<_, SpecSyntaxError>((ny, 4int)));
    assert(spec_parse_expression_rest(t, 4, inner) == Ok::<_, SpecSyntaxError>((inner, 4int)));
    assert(spec_parse_expression_rest(t, 2, nx) == Ok::<_, SpecSyntaxError>((inner, 4int)));
    assert(spec_parse_expression(t, 1) == Ok::<_, SpecSyntaxError>((inner, 4int)));
    // The factor swallows both brackets and yields the inner node.
    assert(spec_parse_factor(t, 0) == Ok::<_, SpecSyntaxError>((inner, 5int)));
    assert(spec_parse_exponent_rest(t, 5, inner) == Ok::<_, SpecSyntaxError>((inner, 5int)));
    assert(spec_parse_exponent(t, 0) == Ok::<_, SpecSyntaxError>((inner, 5int)));
    // The term level folds the bracketed node with `high` and the last literal.
    assert(spec_parse_factor(t, 6) == Ok::<_, SpecSyntaxError>((nz, 7int)));
    assert(spec_parse_exponent_rest(t, 7, nz) == Ok::<_, SpecSyntaxError>((nz, 7int)));
    assert(spec_parse_exponent(t, 6) == Ok::<_, SpecSyntaxError>((nz, 7int)));
    assert(spec_parse_term_rest(t, 7, full) == Ok::<_, SpecSyntaxError>((full, 7int)));
    assert(spec_parse_term_rest(t, 5, inner) == Ok::<_, SpecSyntaxError>((full, 7int)));
    assert(spec_parse_term(t, 0) == Ok::<_, SpecSyntaxError>((full, 7int)));
    assert(spec_parse_expression_rest(t, 7, full) == Ok::<_, SpecSyntaxError>((full, 7int)));
}

} // verus!
