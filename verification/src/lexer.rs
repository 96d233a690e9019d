//! Lexical analysis: a line of text becomes an ordered sequence of tokens.
//!
//! The lexer walks the input left to right. Whitespace is skipped; a maximal
//! run of digits and decimal points becomes one numeric literal token (kept
//! as its exact text); a maximal run of ASCII letters becomes an identifier
//! token; each of `+ - * / % ^ ( )` becomes its own token; anything else
//! fails the whole lex. An end-of-input token is always appended, so the
//! parser can detect "no more input" without special cases.

use vstd::prelude::*;

use vstd::string::{StrSliceExecFns, StringExecFns};

use crate::error::{SpecSyntaxError, SyntaxError};

verus! {

/// One lexical unit of the input text. A numeric literal keeps the exact
/// text of its run; turning that text into a machine number is left to the
/// caller, after parsing.
#[derive(Debug)]
pub enum Token {
    Number(String),
    Variable(String),
    Add,
    Subtract,
    Multiply,
    Divide,
    Modulo,
    Exponent,
    LeftParen,
    RightParen,
    EOF,
}

/// Mathematical model of [`Token`]: the same variants over sequences of
/// characters instead of heap strings.
pub enum SpecToken {
    Number(Seq<char>),
    Variable(Seq<char>),
    Add,
    Subtract,
    Multiply,
    Divide,
    Modulo,
    Exponent,
    LeftParen,
    RightParen,
    EOF,
}

impl View for Token {
    type V = SpecToken;

    open spec fn view(&self) -> SpecToken {
        match self {
            Token::Number(text) => SpecToken::Number(text@),
            Token::Variable(name) => SpecToken::Variable(name@),
            Token::Add => SpecToken::Add,
            Token::Subtract => SpecToken::Subtract,
            Token::Multiply => SpecToken::Multiply,
            Token::Divide => SpecToken::Divide,
            Token::Modulo => SpecToken::Modulo,
            Token::Exponent => SpecToken::Exponent,
            Token::LeftParen => SpecToken::LeftParen,
            Token::RightParen => SpecToken::RightParen,
            Token::EOF => SpecToken::EOF,
        }
    }
}

impl Clone for Token {
    fn clone(&self) -> (r: Token)
        ensures
            r == *self,
    {
        match self {
            Token::Number(text) => Token::Number(text.clone()),
            Token::Variable(name) => Token::Variable(name.clone()),
            Token::Add => Token::Add,
            Token::Subtract => Token::Subtract,
            Token::Multiply => Token::Multiply,
            Token::Divide => Token::Divide,
            Token::Modulo => Token::Modulo,
            Token::Exponent => Token::Exponent,
            Token::LeftParen => Token::LeftParen,
            Token::RightParen => Token::RightParen,
            Token::EOF => Token::EOF,
        }
    }
}

/// The token sequence a vector of tokens stands for.
pub open spec fn tokens_view(ts: Seq<Token>) -> Seq<SpecToken> {
    ts.map_values(|t: Token| t@)
}

/// The whitespace characters the lexer skips: the ASCII spacing characters.
pub open spec fn is_space_char(c: char) -> bool {
    c == ' ' || c == '\t' || c == '\n' || c == '\r' || c == '\x0b' || c == '\x0c'
}

/// An ASCII decimal digit.
pub open spec fn is_digit_char(c: char) -> bool {
    '0' as u32 <= c as u32 && c as u32 <= '9' as u32
}

/// A character that may stand inside a numeric literal run: a digit or the
/// decimal point.
pub open spec fn is_number_char(c: char) -> bool {
    is_digit_char(c) || c == '.'
}

/// An ASCII letter, the only characters allowed in identifiers.
pub open spec fn is_letter_char(c: char) -> bool {
    ('a' as u32 <= c as u32 && c as u32 <= 'z' as u32) || ('A' as u32 <= c as u32 && c as u32
        <= 'Z' as u32)
}

/// Where the maximal run of number characters starting at `i` ends: the
/// first position at or after `i` holding no digit and no decimal point.
pub open spec fn number_run_end(s: Seq<char>, i: int) -> int
    decreases s.len() - i,
{
    if i < s.len() && is_number_char(s[i]) {
        number_run_end(s, i + 1)
    } else {
        i
    }
}

/// Where the maximal run of letters starting at `i` ends.
pub open spec fn letter_run_end(s: Seq<char>, i: int) -> int
    decreases s.len() - i,
{
    if i < s.len() && is_letter_char(s[i]) {
        letter_run_end(s, i + 1)
    } else {
        i
    }
}

pub proof fn lemma_number_run_end_bounds(s: Seq<char>, i: int)
    requires
        0 <= i <= s.len(),
    ensures
        i <= number_run_end(s, i) <= s.len(),
    decreases s.len() - i,
{
    if i < s.len() && is_number_char(s[i]) {
        lemma_number_run_end_bounds(s, i + 1);
    }
}

pub proof fn lemma_letter_run_end_bounds(s: Seq<char>, i: int)
    requires
        0 <= i <= s.len(),
    ensures
        i <= letter_run_end(s, i) <= s.len(),
    decreases s.len() - i,
{
    if i < s.len() && is_letter_char(s[i]) {
        lemma_letter_run_end_bounds(s, i + 1);
    }
}

/// How many decimal points a run holds.
pub open spec fn dot_count(s: Seq<char>) -> nat
    decreases s.len(),
{
    if s.len() == 0 {
        0
    } else {
        dot_count(s.drop_last()) + (if s.last() == '.' {
            1nat
        } else {
            0nat
        })
    }
}

/// How many digits a run holds.
pub open spec fn digit_count(s: Seq<char>) -> nat
    decreases s.len(),
{
    if s.len() == 0 {
        0
    } else {
        digit_count(s.drop_last()) + (if is_digit_char(s.last()) {
            1nat
        } else {
            0nat
        })
    }
}

/// A run of digits and decimal points is one valid numeric literal exactly
/// when it holds at least one digit and at most one decimal point. These
/// are precisely the runs the number grammar accepts, so a run rejected
/// here (a lone `.`, or a second decimal point) fails lexing outright
/// rather than producing a literal no number could be read from.
pub open spec fn is_valid_number(s: Seq<char>) -> bool {
    digit_count(s) >= 1 && dot_count(s) <= 1
}

/// The token sequence the input lexes to from position `i` on, or the
/// first lexing error. The end-of-input token is appended unconditionally
/// once the text is exhausted.
pub open spec fn spec_lex_from(s: Seq<char>, i: int) -> Result<Seq<SpecToken>, SpecSyntaxError>
    decreases s.len() - i,
{
    if !(0 <= i < s.len()) {
        Ok(seq![SpecToken::EOF])
    } else {
        let c = s[i];
        if is_space_char(c) {
            spec_lex_from(s, i + 1)
        } else if is_number_char(c) {
            let j = number_run_end(s, i);
            let text = s.subrange(i, j);
            if is_valid_number(text) {
                proof {
                    lemma_number_run_end_bounds(s, i + 1);
                }
                match spec_lex_from(s, j) {
                    Ok(rest) => Ok(seq![SpecToken::Number(text)] + rest),
                    Err(e) => Err(e),
                }
            } else {
                Err(SpecSyntaxError::InvalidNumber(text))
            }
        } else if is_letter_char(c) {
            let j = letter_run_end(s, i);
            proof {
                lemma_letter_run_end_bounds(s, i + 1);
            }
            match spec_lex_from(s, j) {
                Ok(rest) => Ok(seq![SpecToken::Variable(s.subrange(i, j))] + rest),
                Err(e) => Err(e),
            }
        } else if c == '+' {
            spec_lex_single(SpecToken::Add, spec_lex_from(s, i + 1))
        } else if c == '-' {
            spec_lex_single(SpecToken::Subtract, spec_lex_from(s, i + 1))
        } else if c == '*' {
            spec_lex_single(SpecToken::Multiply, spec_lex_from(s, i + 1))
        } else if c == '/' {
            spec_lex_single(SpecToken::Divide, spec_lex_from(s, i + 1))
        } else if c == '%' {
            spec_lex_single(SpecToken::Modulo, spec_lex_from(s, i + 1))
        } else if c == '^' {
            spec_lex_single(SpecToken::Exponent, spec_lex_from(s, i + 1))
        } else if c == '(' {
            spec_lex_single(SpecToken::LeftParen, spec_lex_from(s, i + 1))
        } else if c == ')' {
            spec_lex_single(SpecToken::RightParen, spec_lex_from(s, i + 1))
        } else {
            Err(SpecSyntaxError::UnrecognisedCharacter(c))
        }
    }
}

/// Prepend one finished token to the outcome of lexing the rest.
pub open spec fn spec_lex_single(
    t: SpecToken,
    rest: Result<Seq<SpecToken>, SpecSyntaxError>,
) -> Result<Seq<SpecToken>, SpecSyntaxError> {
    match rest {
        Ok(tokens) => Ok(seq![t] + tokens),
        Err(e) => Err(e),
    }
}

/// The token sequence a whole input lexes to, or the first lexing error.
pub open spec fn spec_lex(s: Seq<char>) -> Result<Seq<SpecToken>, SpecSyntaxError> {
    spec_lex_from(s, 0)
}

/// Every numeric literal token of the sequence carries one valid number
/// run. The lexer establishes this for all its output, which is what lets
/// a consumer read a number out of every literal without failure.
pub open spec fn tokens_numbers_valid(t: Seq<SpecToken>) -> bool {
    forall|k: int|
        #![trigger t[k]]
        0 <= k < t.len() ==> match t[k] {
            SpecToken::Number(v) => is_valid_number(v),
            _ => true,
        }
}

/// Prepending a finished token commutes with collecting the views of a
/// token vector: pushing the token and then lexing on is the same sequence.
proof fn lemma_tokens_view_push(ts: Seq<Token>, t: Token)
    ensures
        tokens_view(ts.push(t)) == tokens_view(ts).push(t@),
{
    assert(tokens_view(ts.push(t)) =~= tokens_view(ts).push(t@));
}

proof fn lemma_cons_assoc(a: Seq<SpecToken>, t: SpecToken, rest: Seq<SpecToken>)
    ensures
        a + (seq![t] + rest) == a.push(t) + rest,
{
    assert(a + (seq![t] + rest) =~= a.push(t) + rest);
}

/// Every character of a maximal number run is a digit or a decimal point.
proof fn lemma_number_run_in_class(s: Seq<char>, i: int, m: int)
    requires
        0 <= i <= m < number_run_end(s, i),
        number_run_end(s, i) <= s.len(),
    ensures
        is_number_char(s[m]),
    decreases m - i,
{
    if i < s.len() && is_number_char(s[i]) {
        if m > i {
            lemma_number_run_in_class(s, i + 1, m);
        }
    }
}

fn is_space(c: char) -> (r: bool)
    ensures
        r == is_space_char(c),
{
    c == ' ' || c == '\t' || c == '\n' || c == '\r' || c == '\x0b' || c == '\x0c'
}

fn is_digit(c: char) -> (r: bool)
    ensures
        r == is_digit_char(c),
{
    let u = c as u32;
    '0' as u32 <= u && u <= '9' as u32
}

fn is_number(c: char) -> (r: bool)
    ensures
        r == is_number_char(c),
{
    is_digit(c) || c == '.'
}

fn is_letter(c: char) -> (r: bool)
    ensures
        r == is_letter_char(c),
{
    let u = c as u32;
    ('a' as u32 <= u && u <= 'z' as u32) || ('A' as u32 <= u && u <= 'Z' as u32)
}

/// Lex a whole input line into tokens, exactly as [`spec_lex`] describes:
/// on success the result is the token sequence of the input, ending in the
/// end-of-input token; on failure it is the first error met. Lexing is
/// all-or-nothing: no partial token sequence is ever returned.
pub fn lexer(input: &str) -> (r: Result<Vec<Token>, SyntaxError>)
    ensures
        match r {
            Ok(tokens) => spec_lex(input@) == Ok::<_, SpecSyntaxError>(tokens_view(tokens@))
                && tokens_numbers_valid(tokens_view(tokens@)) && tokens_view(tokens@).len() >= 1
                && tokens_view(tokens@).last() == SpecToken::EOF,
            Err(e) => spec_lex(input@) == Err::<Seq<SpecToken>, _>(e@),
        },
{
    let ghost s = input@;
    let n = input.unicode_len();
    let mut tokens: Vec<Token> = Vec::new();
    let mut i: usize = 0;
    while i < n
        invariant
            s == input@,
            n == s.len(),
            i <= n,
            tokens_numbers_valid(tokens_view(tokens@)),
            match spec_lex_from(s, i as int) {
                Ok(rest) => spec_lex(s) == Ok::<_, SpecSyntaxError>(tokens_view(tokens@) + rest),
                Err(e) => spec_lex(s) == Err::<Seq<SpecToken>, _>(e),
            },
        decreases n - i,
    {
        let c = input.get_char(i);
        if is_space(c) {
            i = i + 1;
        } else if is_number(c) {
            let mut j: usize = i + 1;
            loop
                invariant_except_break
                    s == input@,
                    n == s.len(),
                    i < j <= n,
                    number_run_end(s, i as int) == number_run_end(s, j as int),
                ensures
                    i < j <= n,
                    number_run_end(s, i as int) == j,
                decreases n - j,
            {
                if j == n {
                    break ;
                }
                if !is_number(input.get_char(j)) {
                    break ;
                }
                j = j + 1;
            }
            let ghost text = s.subrange(i as int, j as int);
            proof {
                assert forall|m: int| i <= m < j implies is_number_char(#[trigger] s[m]) by {
                    lemma_number_run_in_class(s, i as int, m);
                }
            }
            let mut dots: usize = 0;
            let mut digits: usize = 0;
            let mut k: usize = i;
            while k < j
                invariant
                    s == input@,
                    n == s.len(),
                    i <= k <= j <= n,
                    forall|m: int| i <= m < j ==> is_number_char(#[trigger] s[m]),
                    dots == dot_count(s.subrange(i as int, k as int)),
                    digits == digit_count(s.subrange(i as int, k as int)),
                    dots <= k - i,
                    digits <= k - i,
                decreases j - k,
            {
                let ck = input.get_char(k);
                proof {
                    assert(s.subrange(i as int, k as int + 1).drop_last() =~= s.subrange(
                        i as int,
                        k as int,
                    ));
                    assert(s.subrange(i as int, k as int + 1).last() == s[k as int]);
                }
                if is_digit(ck) {
                    digits = digits + 1;
                } else {
                    dots = dots + 1;
                }
                k = k + 1;
            }
            let run = input.substring_char(i, j);
            let text_string = String::from_str(run);
            if digits >= 1 && dots <= 1 {
                let ghost before = tokens@;
                tokens.push(Token::Number(text_string));
                proof {
                    lemma_tokens_view_push(before, tokens@.last());
                    match spec_lex_from(s, j as int) {
                        Ok(rest) => {
                            lemma_cons_assoc(tokens_view(before), SpecToken::Number(text), rest);
                        },
                        Err(e) => {},
                    }
                }
                i = j;
            } else {
                return Err(SyntaxError::InvalidNumber(text_string));
            }
        } else if is_letter(c) {
            let mut j: usize = i + 1;
            loop
                invariant_except_break
                    s == input@,
                    n == s.len(),
                    i < j <= n,
                    letter_run_end(s, i as int) == letter_run_end(s, j as int),
                ensures
                    i < j <= n,
                    letter_run_end(s, i as int) == j,
                decreases n - j,
            {
                if j == n {
                    break ;
                }
                if !is_letter(input.get_char(j)) {
                    break ;
                }
                j = j + 1;
            }
            let ghost text = s.subrange(i as int, j as int);
            let run = input.substring_char(i, j);
            let name = String::from_str(run);
            let ghost before = tokens@;
            tokens.push(Token::Variable(name));
            proof {
                lemma_tokens_view_push(before, tokens@.last());
                match spec_lex_from(s, j as int) {
                    Ok(rest) => {
                        lemma_cons_assoc(tokens_view(before), SpecToken::Variable(text), rest);
                    },
                    Err(e) => {},
                }
            }
            i = j;
        } else {
            let tok: Token;
            if c == '+' {
                tok = Token::Add;
            } else if c == '-' {
                tok = Token::Subtract;
            } else if c == '*' {
                tok = Token::Multiply;
            } else if c == '/' {
                tok = Token::Divide;
            } else if c == '%' {
                tok = Token::Modulo;
            } else if c == '^' {
                tok = Token::Exponent;
            } else if c == '(' {
                tok = Token::LeftParen;
            } else if c == ')' {
                tok = Token::RightParen;
            } else {
                return Err(SyntaxError::UnrecognisedCharacter(c));
            }
            let ghost before = tokens@;
            let ghost tokv = tok@;
            tokens.push(tok);
            proof {
                lemma_tokens_view_push(before, tokens@.last());
                match spec_lex_from(s, i as int + 1) {
                    Ok(rest) => {
                        lemma_cons_assoc(tokens_view(before), tokv, rest);
                    },
                    Err(e) => {},
                }
            }
            i = i + 1;
        }
    }
    let ghost before = tokens@;
    tokens.push(Token::EOF);
    proof {
        lemma_tokens_view_push(before, Token::EOF);
        assert(tokens_view(before) + seq![SpecToken::EOF] =~= tokens_view(tokens@));
    }
    Ok(tokens)
}

} // verus!
