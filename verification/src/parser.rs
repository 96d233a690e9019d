//! Recursive-descent parsing: the token sequence becomes one expression
//! tree that encodes operator precedence structurally.
//!
//! Four mutually recursive levels, lowest to highest binding power:
//! expression (`+` `-`), term (`*` `/` `%`), exponent (`^`), and factor
//! (a number, a constant name, or a bracketed sub-expression). Each level
//! folds its operators left-associatively — including `^`, whose
//! left-associative folding (`2 ^ 3 ^ 2` is `(2 ^ 3) ^ 2`) is a deliberate,
//! documented choice. A single cursor is threaded through all levels, so an
//! inner level's consumption is visible to the outer ones; parsing never
//! backtracks.
//!
//! In the specification functions below, each fold recurses only behind a
//! check that the inner level moved the cursor forward, which makes their
//! termination evident; an inner result that had not advanced would fall
//! into an `arbitrary()` branch. The executable functions' contracts prove
//! that every level consumes at least one token on success, so those
//! branches are never reached.

use vstd::prelude::*;

use vstd::string::StringExecFns;

use crate::error::{SpecSyntaxError, SyntaxError};
use crate::lexer::{dot_count, digit_count, is_valid_number, tokens_numbers_valid, tokens_view, SpecToken, Token};

verus! {

/// The operator of a binary node.
#[derive(Clone, Copy, Debug, PartialEq, Eq, Structural)]
pub enum Operator {
    Add,
    Subtract,
    Multiply,
    Divide,
    Modulo,
    Exponent,
}

/// One node of the expression tree: a numeric literal, kept as its exact
/// source text, or a binary operation owning its two children outright.
/// The tree is finite and strict: every leaf is a literal.
#[derive(Debug)]
pub enum Node {
    Number(String),
    BinaryOp { left: Box<Node>, op: Operator, right: Box<Node> },
}

/// Mathematical model of [`Node`].
pub enum SpecNode {
    Number(Seq<char>),
    BinaryOp { op: Operator, left: Box<SpecNode>, right: Box<SpecNode> },
}

/// The tree a [`Node`] stands for.
pub open spec fn node_view(n: Node) -> SpecNode
    decreases n,
{
    match n {
        Node::Number(text) => SpecNode::Number(text@),
        Node::BinaryOp { left, op, right } => SpecNode::BinaryOp {
            op,
            left: Box::new(node_view(*left)),
            right: Box::new(node_view(*right)),
        },
    }
}

impl View for Node {
    type V = SpecNode;

    open spec fn view(&self) -> SpecNode {
        node_view(*self)
    }
}

/// Every literal of the tree carries one valid number run: at least one
/// digit, at most one decimal point. The parser establishes this for every
/// tree it builds from a lexed token sequence, so reducing the tree can
/// read a number out of every leaf without failure.
pub open spec fn node_literals_valid(n: SpecNode) -> bool
    decreases n,
{
    match n {
        SpecNode::Number(text) => is_valid_number(text),
        SpecNode::BinaryOp { op, left, right } => node_literals_valid(*left)
            && node_literals_valid(*right),
    }
}

/// The operator a token stands for, for the six operator tokens; any other
/// token here is a contract violation surfaced as a syntax error.
pub open spec fn spec_to_operator(t: SpecToken) -> Result<Operator, SpecSyntaxError> {
    match t {
        SpecToken::Add => Ok(Operator::Add),
        SpecToken::Subtract => Ok(Operator::Subtract),
        SpecToken::Multiply => Ok(Operator::Multiply),
        SpecToken::Divide => Ok(Operator::Divide),
        SpecToken::Modulo => Ok(Operator::Modulo),
        SpecToken::Exponent => Ok(Operator::Exponent),
        _ => Err(SpecSyntaxError::OperatorExpected(t)),
    }
}

impl Token {
    /// Resolve an operator token to its [`Operator`] tag, exactly as
    /// [`spec_to_operator`] describes.
    pub fn to_operator(&self) -> (r: Result<Operator, SyntaxError>)
        ensures
            match r {
                Ok(op) => spec_to_operator(self@) == Ok::<_, SpecSyntaxError>(op),
                Err(e) => spec_to_operator(self@) == Err::<Operator, _>(e@),
            },
    {
        match self {
            Token::Add => Ok(Operator::Add),
            Token::Subtract => Ok(Operator::Subtract),
            Token::Multiply => Ok(Operator::Multiply),
            Token::Divide => Ok(Operator::Divide),
            Token::Modulo => Ok(Operator::Modulo),
            Token::Exponent => Ok(Operator::Exponent),
            _ => Err(SyntaxError::OperatorExpected(self.clone())),
        }
    }
}

/// The fixed constant table: the value a constant name stands for, kept as
/// the numeric text that reads back to that value, or an error for a name
/// the table does not hold. The table holds exactly `pi`.
pub open spec fn spec_evaluate_variable(name: Seq<char>) -> Result<Seq<char>, SpecSyntaxError> {
    if name == "pi"@ {
        Ok("3.1415927"@)
    } else {
        Err(SpecSyntaxError::UnknownVariable(name))
    }
}

/// Whatever name it is asked for, the constant table only ever hands out
/// valid number runs.
pub proof fn lemma_constant_values_valid(name: Seq<char>)
    ensures
        spec_evaluate_variable(name) matches Ok(v) ==> is_valid_number(v),
{
    if name == "pi"@ {
        reveal_strlit("3.1415927");
        let v = "3.1415927"@;
        assert(digit_count(v) >= 1 && dot_count(v) <= 1) by {
            reveal_with_fuel(digit_count, 10);
            reveal_with_fuel(dot_count, 10);
            assert(v.len() == 9);
            assert(v.drop_last().drop_last().drop_last().drop_last().drop_last().drop_last()
                .drop_last().drop_last().drop_last() =~= Seq::<char>::empty());
        }
    }
}

/// What parsing one factor from position `pos` yields: the node and the
/// position after it, or the error. A factor is a number, a constant name
/// (resolved at once against the constant table), or a bracketed
/// sub-expression that must be followed by a closing bracket.
pub open spec fn spec_parse_factor(t: Seq<SpecToken>, pos: int) -> Result<
    (SpecNode, int),
    SpecSyntaxError,
>
    decreases t.len() - pos, 0int,
{
    if !(0 <= pos < t.len()) {
        Err(SpecSyntaxError::ExpectedNumberOrParen(None))
    } else {
        match t[pos] {
            SpecToken::Number(text) => Ok((SpecNode::Number(text), pos + 1)),
            SpecToken::Variable(name) => match spec_evaluate_variable(name) {
                Ok(value) => Ok((SpecNode::Number(value), pos + 1)),
                Err(e) => Err(e),
            },
            SpecToken::LeftParen => match spec_parse_expression(t, pos + 1) {
                Ok((inner, p)) => if p < t.len() && t[p] is RightParen {
                    Ok((inner, p + 1))
                } else if 0 <= p < t.len() {
                    Err(SpecSyntaxError::ExpectedClosingBracket(Some(t[p])))
                } else {
                    Err(SpecSyntaxError::ExpectedClosingBracket(None))
                },
                Err(e) => Err(e),
            },
            tok => Err(SpecSyntaxError::ExpectedNumberOrParen(Some(tok))),
        }
    }
}

/// What parsing one exponent level from `pos` yields: a factor, then a
/// left-associative fold of `^` operations.
pub open spec fn spec_parse_exponent(t: Seq<SpecToken>, pos: int) -> Result<
    (SpecNode, int),
    SpecSyntaxError,
>
    decreases t.len() - pos, 1int,
{
    match spec_parse_factor(t, pos) {
        Ok((node, p)) => if pos < p <= t.len() {
            spec_parse_exponent_rest(t, p, node)
        } else {
            arbitrary()
        },
        Err(e) => Err(e),
    }
}

/// The left-associative `^` fold: while the next token is `^`, consume it,
/// parse the next factor, and hang the running node to its left.
pub open spec fn spec_parse_exponent_rest(t: Seq<SpecToken>, pos: int, acc: SpecNode) -> Result<
    (SpecNode, int),
    SpecSyntaxError,
>
    decreases t.len() - pos, 2int,
{
    if !(0 <= pos < t.len()) {
        Ok((acc, pos))
    } else if t[pos] is Exponent {
        match spec_parse_factor(t, pos + 1) {
            Ok((right, p2)) => if pos < p2 <= t.len() {
                spec_parse_exponent_rest(
                    t,
                    p2,
                    SpecNode::BinaryOp {
                        op: Operator::Exponent,
                        left: Box::new(acc),
                        right: Box::new(right),
                    },
                )
            } else {
                arbitrary()
            },
            Err(e) => Err(e),
        }
    } else {
        Ok((acc, pos))
    }
}

/// What parsing one term from `pos` yields: an exponent level, then a
/// left-associative fold of `*`, `/` and `%` operations.
pub open spec fn spec_parse_term(t: Seq<SpecToken>, pos: int) -> Result<
    (SpecNode, int),
    SpecSyntaxError,
>
    decreases t.len() - pos, 3int,
{
    match spec_parse_exponent(t, pos) {
        Ok((node, p)) => if pos < p <= t.len() {
            spec_parse_term_rest(t, p, node)
        } else {
            arbitrary()
        },
        Err(e) => Err(e),
    }
}

/// The left-associative `*` `/` `%` fold. On any token that is none of the
/// three, the fold stops without error: a lower level decides what it means.
pub open spec fn spec_parse_term_rest(t: Seq<SpecToken>, pos: int, acc: SpecNode) -> Result<
    (SpecNode, int),
    SpecSyntaxError,
>
    decreases t.len() - pos, 4int,
{
    if !(0 <= pos < t.len()) {
        Ok((acc, pos))
    } else {
        let tok = t[pos];
        if tok is Multiply || tok is Divide || tok is Modulo {
            let op = if tok is Multiply {
                Operator::Multiply
            } else if tok is Divide {
                Operator::Divide
            } else {
                Operator::Modulo
            };
            match spec_parse_exponent(t, pos + 1) {
                Ok((right, p2)) => if pos < p2 <= t.len() {
                    spec_parse_term_rest(
                        t,
                        p2,
                        SpecNode::BinaryOp { op, left: Box::new(acc), right: Box::new(right) },
                    )
                } else {
                    arbitrary()
                },
                Err(e) => Err(e),
            }
        } else {
            Ok((acc, pos))
        }
    }
}

/// What parsing one whole expression from `pos` yields: a term, then a
/// left-associative fold of `+` and `-` operations.
pub open spec fn spec_parse_expression(t: Seq<SpecToken>, pos: int) -> Result<
    (SpecNode, int),
    SpecSyntaxError,
>
    decreases t.len() - pos, 5int,
{
    match spec_parse_term(t, pos) {
        Ok((node, p)) => if pos < p <= t.len() {
            spec_parse_expression_rest(t, p, node)
        } else {
            arbitrary()
        },
        Err(e) => Err(e),
    }
}

/// The left-associative `+` `-` fold. The fold stops without error on the
/// end-of-input token or a closing bracket — the two valid terminators of
/// an expression — and leaves either unconsumed; any other token here is
/// an error.
pub open spec fn spec_parse_expression_rest(t: Seq<SpecToken>, pos: int, acc: SpecNode) -> Result<
    (SpecNode, int),
    SpecSyntaxError,
>
    decreases t.len() - pos, 6int,
{
    if !(0 <= pos < t.len()) {
        Ok((acc, pos))
    } else {
        let tok = t[pos];
        if tok is Add || tok is Subtract {
            let op = if tok is Add {
                Operator::Add
            } else {
                Operator::Subtract
            };
            match spec_parse_term(t, pos + 1) {
                Ok((right, p2)) => if pos < p2 <= t.len() {
                    spec_parse_expression_rest(
                        t,
                        p2,
                        SpecNode::BinaryOp { op, left: Box::new(acc), right: Box::new(right) },
                    )
                } else {
                    arbitrary()
                },
                Err(e) => Err(e),
            }
        } else if tok is EOF || tok is RightParen {
            Ok((acc, pos))
        } else {
            Err(SpecSyntaxError::ExpectedOperatorOrEnd(tok))
        }
    }
}


/// Resolve a constant name against the fixed constant table, exactly as
/// [`spec_evaluate_variable`] describes. The value comes back as numeric
/// text — the shortest decimal form that reads back to the constant — so
/// it flows through the tree like any other literal.
pub fn evaluate_variable(var_name: &String) -> (r: Result<String, SyntaxError>)
    ensures
        match r {
            Ok(value) => spec_evaluate_variable(var_name@) == Ok::<_, SpecSyntaxError>(value@),
            Err(e) => spec_evaluate_variable(var_name@) == Err::<Seq<char>, _>(e@),
        },
{
    let pi = String::from_str("pi");
    if var_name.eq(&pi) {
        Ok(String::from_str("3.1415927"))
    } else {
        Err(SyntaxError::UnknownVariable(var_name.clone()))
    }
}

/// Parse one factor at `pos`, exactly as [`spec_parse_factor`] describes.
fn parse_factor_at(tokens: &Vec<Token>, pos: usize) -> (r: Result<(Node, usize), SyntaxError>)
    requires
        pos <= tokens@.len(),
    ensures
        match r {
            Ok((node, p)) => spec_parse_factor(tokens_view(tokens@), pos as int) == Ok::<
                _,
                SpecSyntaxError,
            >((node@, p as int)) && pos < p <= tokens@.len() && (tokens_numbers_valid(
                tokens_view(tokens@),
            ) ==> node_literals_valid(node@)),
            Err(e) => spec_parse_factor(tokens_view(tokens@), pos as int) == Err::<
                (SpecNode, int),
                _,
            >(e@),
        },
    decreases tokens@.len() - pos, 0int,
{
    let ghost t = tokens_view(tokens@);
    if pos >= tokens.len() {
        return Err(SyntaxError::ExpectedNumberOrParen(None));
    }
    proof {
        assert(t[pos as int] == tokens@[pos as int]@);
    }
    match &tokens[pos] {
        Token::Number(text) => Ok((Node::Number(text.clone()), pos + 1)),
        Token::Variable(name) => match evaluate_variable(name) {
            Ok(value) => {
                proof {
                    lemma_constant_values_valid(name@);
                }
                Ok((Node::Number(value), pos + 1))
            },
            Err(e) => Err(e),
        },
        Token::LeftParen => match parse_expression_at(tokens, pos + 1) {
            Ok((inner, p)) => {
                if p < tokens.len() {
                    proof {
                        assert(t[p as int] == tokens@[p as int]@);
                    }
                    match &tokens[p] {
                        Token::RightParen => Ok((inner, p + 1)),
                        other => Err(SyntaxError::ExpectedClosingBracket(Some(other.clone()))),
                    }
                } else {
                    Err(SyntaxError::ExpectedClosingBracket(None))
                }
            },
            Err(e) => Err(e),
        },
        other => Err(SyntaxError::ExpectedNumberOrParen(Some(other.clone()))),
    }
}

/// Parse one exponent level at `pos`, exactly as [`spec_parse_exponent`]
/// describes: a factor, then the left-associative `^` fold.
fn parse_exponent_at(tokens: &Vec<Token>, pos: usize) -> (r: Result<(Node, usize), SyntaxError>)
    requires
        pos <= tokens@.len(),
    ensures
        match r {
            Ok((node, p)) => spec_parse_exponent(tokens_view(tokens@), pos as int) == Ok::<
                _,
                SpecSyntaxError,
            >((node@, p as int)) && pos < p <= tokens@.len() && (tokens_numbers_valid(
                tokens_view(tokens@),
            ) ==> node_literals_valid(node@)),
            Err(e) => spec_parse_exponent(tokens_view(tokens@), pos as int) == Err::<
                (SpecNode, int),
                _,
            >(e@),
        },
    decreases tokens@.len() - pos, 1int,
{
    let ghost t = tokens_view(tokens@);
    let first = parse_factor_at(tokens, pos);
    let mut node: Node;
    let mut cur: usize;
    match first {
        Ok((n, p)) => {
            node = n;
            cur = p;
        },
        Err(e) => {
            return Err(e);
        },
    }
    loop
        invariant_except_break
            t == tokens_view(tokens@),
            pos < cur <= tokens@.len(),
            spec_parse_exponent_rest(t, cur as int, node@) == spec_parse_exponent(t, pos as int),
            tokens_numbers_valid(t) ==> node_literals_valid(node@),
        ensures
            pos < cur <= tokens@.len(),
            spec_parse_exponent(t, pos as int) == Ok::<_, SpecSyntaxError>((node@, cur as int)),
            tokens_numbers_valid(t) ==> node_literals_valid(node@),
        decreases tokens@.len() - cur,
    {
        if cur == tokens.len() {
            break ;
        }
        proof {
            assert(t[cur as int] == tokens@[cur as int]@);
        }
        let tok = &tokens[cur];
        if !matches!(tok, Token::Exponent) {
            break ;
        }
        let op = match tok.to_operator() {
            Ok(op) => op,
            Err(_) => unreached(),
        };
        match parse_factor_at(tokens, cur + 1) {
            Ok((right, p2)) => {
                node = Node::BinaryOp { left: Box::new(node), op, right: Box::new(right) };
                cur = p2;
            },
            Err(e) => {
                return Err(e);
            },
        }
    }
    Ok((node, cur))
}

/// Parse one term at `pos`, exactly as [`spec_parse_term`] describes: an
/// exponent level, then the left-associative `*` `/` `%` fold.
fn parse_term_at(tokens: &Vec<Token>, pos: usize) -> (r: Result<(Node, usize), SyntaxError>)
    requires
        pos <= tokens@.len(),
    ensures
        match r {
            Ok((node, p)) => spec_parse_term(tokens_view(tokens@), pos as int) == Ok::<
                _,
                SpecSyntaxError,
            >((node@, p as int)) && pos < p <= tokens@.len() && (tokens_numbers_valid(
                tokens_view(tokens@),
            ) ==> node_literals_valid(node@)),
            Err(e) => spec_parse_term(tokens_view(tokens@), pos as int) == Err::<
                (SpecNode, int),
                _,
            >(e@),
        },
    decreases tokens@.len() - pos, 3int,
{
    let ghost t = tokens_view(tokens@);
    let first = parse_exponent_at(tokens, pos);
    let mut node: Node;
    let mut cur: usize;
    match first {
        Ok((n, p)) => {
            node = n;
            cur = p;
        },
        Err(e) => {
            return Err(e);
        },
    }
    loop
        invariant_except_break
            t == tokens_view(tokens@),
            pos < cur <= tokens@.len(),
            spec_parse_term_rest(t, cur as int, node@) == spec_parse_term(t, pos as int),
            tokens_numbers_valid(t) ==> node_literals_valid(node@),
        ensures
            pos < cur <= tokens@.len(),
            spec_parse_term(t, pos as int) == Ok::<_, SpecSyntaxError>((node@, cur as int)),
            tokens_numbers_valid(t) ==> node_literals_valid(node@),
        decreases tokens@.len() - cur,
    {
        if cur == tokens.len() {
            break ;
        }
        proof {
            assert(t[cur as int] == tokens@[cur as int]@);
        }
        let tok = &tokens[cur];
        if !matches!(tok, Token::Multiply | Token::Divide | Token::Modulo) {
            break ;
        }
        let op = match tok.to_operator() {
            Ok(op) => op,
            Err(_) => unreached(),
        };
        match parse_exponent_at(tokens, cur + 1) {
            Ok((right, p2)) => {
                node = Node::BinaryOp { left: Box::new(node), op, right: Box::new(right) };
                cur = p2;
            },
            Err(e) => {
                return Err(e);
            },
        }
    }
    Ok((node, cur))
}

/// Parse one whole expression at `pos`, exactly as
/// [`spec_parse_expression`] describes: a term, then the left-associative
/// `+` `-` fold, stopping only on the two valid terminators.
fn parse_expression_at(tokens: &Vec<Token>, pos: usize) -> (r: Result<(Node, usize), SyntaxError>)
    requires
        pos <= tokens@.len(),
    ensures
        match r {
            Ok((node, p)) => spec_parse_expression(tokens_view(tokens@), pos as int) == Ok::<
                _,
                SpecSyntaxError,
            >((node@, p as int)) && pos < p <= tokens@.len() && (tokens_numbers_valid(
                tokens_view(tokens@),
            ) ==> node_literals_valid(node@)),
            Err(e) => spec_parse_expression(tokens_view(tokens@), pos as int) == Err::<
                (SpecNode, int),
                _,
            >(e@),
        },
    decreases tokens@.len() - pos, 5int,
{
    let ghost t = tokens_view(tokens@);
    let first = parse_term_at(tokens, pos);
    let mut node: Node;
    let mut cur: usize;
    match first {
        Ok((n, p)) => {
            node = n;
            cur = p;
        },
        Err(e) => {
            return Err(e);
        },
    }
    loop
        invariant_except_break
            t == tokens_view(tokens@),
            pos < cur <= tokens@.len(),
            spec_parse_expression_rest(t, cur as int, node@) == spec_parse_expression(
                t,
                pos as int,
            ),
            tokens_numbers_valid(t) ==> node_literals_valid(node@),
        ensures
            pos < cur <= tokens@.len(),
            spec_parse_expression(t, pos as int) == Ok::<_, SpecSyntaxError>((node@, cur as int)),
            tokens_numbers_valid(t) ==> node_literals_valid(node@),
        decreases tokens@.len() - cur,
    {
        if cur == tokens.len() {
            break ;
        }
        proof {
            assert(t[cur as int] == tokens@[cur as int]@);
        }
        let tok = &tokens[cur];
        if matches!(tok, Token::EOF | Token::RightParen) {
            break ;
        }
        if !matches!(tok, Token::Add | Token::Subtract) {
            return Err(SyntaxError::ExpectedOperatorOrEnd(tok.clone()));
        }
        let op = match tok.to_operator() {
            Ok(op) => op,
            Err(_) => unreached(),
        };
        match parse_term_at(tokens, cur + 1) {
            Ok((right, p2)) => {
                node = Node::BinaryOp { left: Box::new(node), op, right: Box::new(right) };
                cur = p2;
            },
            Err(e) => {
                return Err(e);
            },
        }
    }
    Ok((node, cur))
}

/// The parsing process: the token sequence under parse and the single
/// mutable cursor threaded through the four levels.
pub struct Parser {
    tokens: Vec<Token>,
    pos: usize,
}

impl Parser {
    /// The token sequence this parser walks.
    pub closed spec fn toks(self) -> Seq<SpecToken> {
        tokens_view(self.tokens@)
    }

    /// Where the cursor stands.
    pub closed spec fn cursor(self) -> int {
        self.pos as int
    }

    /// The cursor never stands past the end of the token sequence.
    pub closed spec fn wf(self) -> bool {
        self.pos <= self.tokens@.len()
    }

    /// A parser over the given tokens, with the cursor at the start.
    pub fn new(input: Vec<Token>) -> (p: Parser)
        ensures
            p.wf(),
            p.toks() == tokens_view(input@),
            p.cursor() == 0,
    {
        Parser { tokens: input, pos: 0 }
    }

    /// Parse one expression from the cursor on, exactly as
    /// [`spec_parse_expression`] describes, advancing the cursor past what
    /// was consumed. The result is a function of the token sequence and
    /// the cursor alone: parsing the same tokens twice yields structurally
    /// identical trees, since the cursor is this parser's only state.
    pub fn parse_expression(&mut self) -> (r: Result<Node, SyntaxError>)
        requires
            old(self).wf(),
        ensures
            final(self).wf(),
            final(self).toks() == old(self).toks(),
            match r {
                Ok(node) => spec_parse_expression(old(self).toks(), old(self).cursor()) == Ok::<
                    _,
                    SpecSyntaxError,
                >((node@, final(self).cursor())) && old(self).cursor() < final(self).cursor()
                    && (tokens_numbers_valid(old(self).toks()) ==> node_literals_valid(node@)),
                Err(e) => spec_parse_expression(old(self).toks(), old(self).cursor()) == Err::<
                    (SpecNode, int),
                    _,
                >(e@) && final(self).cursor() == old(self).cursor(),
            },
    {
        match parse_expression_at(&self.tokens, self.pos) {
            Ok((node, p)) => {
                self.pos = p;
                Ok(node)
            },
            Err(e) => Err(e),
        }
    }
}

} // verus!
