use calculator::error::SyntaxError;
use calculator::lexer::{lexer, Token};
use calculator::parse_input;
use calculator::parser::{evaluate_variable, Node, Operator, Parser};

fn num(text: &str) -> Node {
    Node::Number(text.to_string())
}

fn bin(op: Operator, left: Node, right: Node) -> Node {
    Node::BinaryOp { left: Box::new(left), op, right: Box::new(right) }
}

fn node_eq(a: &Node, b: &Node) -> bool {
    match (a, b) {
        (Node::Number(x), Node::Number(y)) => x == y,
        (
            Node::BinaryOp { left: l1, op: o1, right: r1 },
            Node::BinaryOp { left: l2, op: o2, right: r2 },
        ) => o1 == o2 && node_eq(l1, l2) && node_eq(r1, r2),
        _ => false,
    }
}

/// Reduce a finished tree to a number, the way an embedding program would:
/// every literal's text is guaranteed by the library to read as a number.
fn run(node: &Node) -> f32 {
    match node {
        Node::Number(text) => text.parse::<f32>().unwrap(),
        Node::BinaryOp { left, op, right } => {
            let l = run(left);
            let r = run(right);
            match op {
                Operator::Add => l + r,
                Operator::Subtract => l - r,
                Operator::Multiply => l * r,
                Operator::Divide => l / r,
                Operator::Modulo => l % r,
                Operator::Exponent => l.powf(r),
            }
        }
    }
}

fn eval(input: &str) -> f32 {
    run(&parse_input(input).unwrap())
}

#[test]
fn lex_simple_expression() {
    let toks = lexer("2 + 3").unwrap();
    assert_eq!(toks.len(), 4);
    assert!(matches!(&toks[0], Token::Number(s) if s == "2"));
    assert!(matches!(&toks[1], Token::Add));
    assert!(matches!(&toks[2], Token::Number(s) if s == "3"));
    assert!(matches!(&toks[3], Token::EOF));
}

#[test]
fn lex_every_symbol() {
    let toks = lexer("+-*/%^()").unwrap();
    assert!(matches!(&toks[0], Token::Add));
    assert!(matches!(&toks[1], Token::Subtract));
    assert!(matches!(&toks[2], Token::Multiply));
    assert!(matches!(&toks[3], Token::Divide));
    assert!(matches!(&toks[4], Token::Modulo));
    assert!(matches!(&toks[5], Token::Exponent));
    assert!(matches!(&toks[6], Token::LeftParen));
    assert!(matches!(&toks[7], Token::RightParen));
    assert!(matches!(&toks[8], Token::EOF));
    assert_eq!(toks.len(), 9);
}

#[test]
fn lex_empty_input_yields_eof() {
    let toks = lexer("").unwrap();
    assert_eq!(toks.len(), 1);
    assert!(matches!(&toks[0], Token::EOF));
}

#[test]
fn lex_skips_whitespace() {
    let toks = lexer(" \t 12 \n ").unwrap();
    assert_eq!(toks.len(), 2);
    assert!(matches!(&toks[0], Token::Number(s) if s == "12"));
    assert!(matches!(&toks[1], Token::EOF));
}

#[test]
fn lex_identifier_run() {
    let toks = lexer("pie").unwrap();
    assert_eq!(toks.len(), 2);
    assert!(matches!(&toks[0], Token::Variable(s) if s == "pie"));
}

#[test]
fn lex_unrecognised_character() {
    match lexer("2 $ 3") {
        Err(SyntaxError::UnrecognisedCharacter('$')) => {}
        other => panic!("unexpected: {:?}", other),
    }
}

#[test]
fn lex_two_decimal_points_rejected() {
    match lexer("1.2.3") {
        Err(SyntaxError::InvalidNumber(s)) => assert_eq!(s, "1.2.3"),
        other => panic!("unexpected: {:?}", other),
    }
}

#[test]
fn lex_lone_decimal_point_rejected() {
    match lexer(".") {
        Err(SyntaxError::InvalidNumber(s)) => assert_eq!(s, "."),
        other => panic!("unexpected: {:?}", other),
    }
}

#[test]
fn precedence_multiplication_on_the_right() {
    let tree = parse_input("2 + 3 * 4").unwrap();
    let expected = bin(Operator::Add, num("2"), bin(Operator::Multiply, num("3"), num("4")));
    assert!(node_eq(&tree, &expected));
    assert_eq!(eval("2 + 3 * 4"), 14.0);
}

#[test]
fn precedence_multiplication_on_the_left() {
    let tree = parse_input("2 * 3 + 4").unwrap();
    let expected = bin(Operator::Add, bin(Operator::Multiply, num("2"), num("3")), num("4"));
    assert!(node_eq(&tree, &expected));
    assert_eq!(eval("2 * 3 + 4"), 10.0);
}

#[test]
fn parentheses_override_precedence() {
    let tree = parse_input("(2 + 3) * 4").unwrap();
    let expected = bin(Operator::Multiply, bin(Operator::Add, num("2"), num("3")), num("4"));
    assert!(node_eq(&tree, &expected));
    assert_eq!(eval("(2 + 3) * 4"), 20.0);
}

#[test]
fn subtraction_folds_left_associative() {
    let tree = parse_input("10 - 2 - 3").unwrap();
    let expected = bin(
        Operator::Subtract,
        bin(Operator::Subtract, num("10"), num("2")),
        num("3"),
    );
    assert!(node_eq(&tree, &expected));
    assert_eq!(eval("10 - 2 - 3"), 5.0);
}

#[test]
fn exponent_folds_left_associative() {
    let tree = parse_input("2 ^ 3 ^ 2").unwrap();
    let expected = bin(
        Operator::Exponent,
        bin(Operator::Exponent, num("2"), num("3")),
        num("2"),
    );
    assert!(node_eq(&tree, &expected));
    assert_eq!(eval("2 ^ 3 ^ 2"), 64.0);
}

#[test]
fn constant_pi_resolves() {
    let tree = parse_input("pi").unwrap();
    assert!(node_eq(&tree, &num("3.1415927")));
    assert!((eval("pi") - std::f32::consts::PI).abs() < 1e-6);
}

#[test]
fn evaluate_variable_table() {
    assert_eq!(evaluate_variable(&"pi".to_string()).unwrap(), "3.1415927");
    match evaluate_variable(&"tau".to_string()) {
        Err(SyntaxError::UnknownVariable(s)) => assert_eq!(s, "tau"),
        other => panic!("unexpected: {:?}", other),
    }
}

#[test]
fn unknown_variable_fails() {
    match parse_input("pie") {
        Err(SyntaxError::UnknownVariable(s)) => assert_eq!(s, "pie"),
        other => panic!("unexpected: {:?}", other),
    }
}

#[test]
fn trailing_operator_fails() {
    match parse_input("2 +") {
        Err(SyntaxError::ExpectedNumberOrParen(Some(Token::EOF))) => {}
        other => panic!("unexpected: {:?}", other),
    }
}

#[test]
fn missing_closing_bracket_fails() {
    match parse_input("(2 + 3") {
        Err(SyntaxError::ExpectedClosingBracket(Some(Token::EOF))) => {}
        other => panic!("unexpected: {:?}", other),
    }
}

#[test]
fn unrecognised_character_fails_the_pipeline() {
    match parse_input("2 $ 3") {
        Err(SyntaxError::UnrecognisedCharacter('$')) => {}
        other => panic!("unexpected: {:?}", other),
    }
}

#[test]
fn empty_input_fails() {
    match parse_input("") {
        Err(SyntaxError::ExpectedNumberOrParen(Some(Token::EOF))) => {}
        other => panic!("unexpected: {:?}", other),
    }
}

#[test]
fn unary_minus_rejected() {
    match parse_input("-5") {
        Err(SyntaxError::ExpectedNumberOrParen(Some(Token::Subtract))) => {}
        other => panic!("unexpected: {:?}", other),
    }
}

#[test]
fn adjacent_numbers_rejected() {
    match parse_input("2 3") {
        Err(SyntaxError::ExpectedOperatorOrEnd(Token::Number(s))) => assert_eq!(s, "3"),
        other => panic!("unexpected: {:?}", other),
    }
}

#[test]
fn stray_closing_bracket_terminates_the_expression() {
    let tree = parse_input("2) * 3").unwrap();
    assert!(node_eq(&tree, &num("2")));
}

#[test]
fn decimal_literals() {
    assert_eq!(eval("1.5 + 2.25"), 3.75);
}

#[test]
fn bare_dot_edges_of_literals() {
    assert_eq!(eval(".5 + 1."), 1.5);
}

#[test]
fn modulo_and_division() {
    assert_eq!(eval("7 % 4"), 3.0);
    assert_eq!(eval("8 / 2"), 4.0);
}

#[test]
fn division_by_zero_follows_ieee() {
    assert!(eval("1 / 0").is_infinite());
}

#[test]
fn mixed_precedence_chain() {
    assert_eq!(eval("1 + 2 * 3 ^ 2 - 4 / 2"), 17.0);
}

#[test]
fn to_operator_resolves_operator_tokens() {
    assert!(matches!(Token::Add.to_operator(), Ok(Operator::Add)));
    assert!(matches!(Token::Subtract.to_operator(), Ok(Operator::Subtract)));
    assert!(matches!(Token::Multiply.to_operator(), Ok(Operator::Multiply)));
    assert!(matches!(Token::Divide.to_operator(), Ok(Operator::Divide)));
    assert!(matches!(Token::Modulo.to_operator(), Ok(Operator::Modulo)));
    assert!(matches!(Token::Exponent.to_operator(), Ok(Operator::Exponent)));
    match Token::EOF.to_operator() {
        Err(SyntaxError::OperatorExpected(Token::EOF)) => {}
        other => panic!("unexpected: {:?}", other),
    }
}

#[test]
fn parser_object_drives_the_levels() {
    let tokens = lexer("1 + 2").unwrap();
    let mut parser = Parser::new(tokens);
    let tree = parser.parse_expression().unwrap();
    let expected = bin(Operator::Add, num("1"), num("2"));
    assert!(node_eq(&tree, &expected));
}

#[test]
fn parsing_twice_yields_identical_trees() {
    let input = "(1 + 2) * 3 ^ 4 - 5 / 6 % 7";
    let first = parse_input(input).unwrap();
    let second = parse_input(input).unwrap();
    assert!(node_eq(&first, &second));

    let mut p1 = Parser::new(lexer(input).unwrap());
    let mut p2 = Parser::new(lexer(input).unwrap());
    let t1 = p1.parse_expression().unwrap();
    let t2 = p2.parse_expression().unwrap();
    assert!(node_eq(&t1, &t2));
    assert!(node_eq(&t1, &first));
}

#[test]
fn cursor_persists_across_calls() {
    // The first parse stops, without error, at the closing bracket it never
    // opened; a second parse from the same cursor then finds it in factor
    // position and reports it.
    let tokens = lexer("1 ) 2").unwrap();
    let mut parser = Parser::new(tokens);
    let first = parser.parse_expression().unwrap();
    assert!(node_eq(&first, &num("1")));
    match parser.parse_expression() {
        Err(SyntaxError::ExpectedNumberOrParen(Some(Token::RightParen))) => {}
        other => panic!("unexpected: {:?}", other),
    }
}

#[test]
fn nested_brackets() {
    assert_eq!(eval("((1 + 2) * (3 + 4))"), 21.0);
}

#[test]
fn exponent_binds_tighter_than_term_operators() {
    let tree = parse_input("2 * 3 ^ 2").unwrap();
    let expected = bin(
        Operator::Multiply,
        num("2"),
        bin(Operator::Exponent, num("3"), num("2")),
    );
    assert!(node_eq(&tree, &expected));
    assert_eq!(eval("2 * 3 ^ 2"), 18.0);
}
