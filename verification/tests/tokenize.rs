use lexical_analyse::{tokenize, FatalError, FloatLiteral, Lexer, Token, Type};

fn op(text: &str) -> Token {
    Token::Operator(text.to_string())
}

fn ident(name: &str) -> Token {
    Token::Identifier(name.to_string())
}

fn keyword(name: &str) -> Token {
    Token::Keyword(name.to_string())
}

fn integer(value: i32) -> Token {
    Token::Constant(Type::Integer(value))
}

fn error(message: &str) -> Token {
    Token::LexicalError(message.to_string())
}

#[test]
fn assignment_of_negative_integer() {
    let tokens = tokenize("x = -5").unwrap();
    assert_eq!(
        tokens,
        vec![Token::Variable((Type::Integer(-5), "x".to_string())), op("="), integer(-5)]
    );
}

#[test]
fn assignment_of_float_with_exponent() {
    let tokens = tokenize("k = 1e10").unwrap();
    let literal = FloatLiteral::new(false, "1e10").unwrap();
    assert_eq!(
        tokens,
        vec![
            Token::Variable((Type::Float(literal.clone()), "k".to_string())),
            op("="),
            Token::Constant(Type::Float(literal)),
        ]
    );
    match &tokens[2] {
        Token::Constant(Type::Float(f)) => {
            assert!(!f.is_negative());
            assert_eq!(f.digits().parse::<f64>().unwrap(), 1e10);
        }
        other => panic!("unexpected token {:?}", other),
    }
}

#[test]
fn colon_without_indent_is_reported() {
    let tokens = tokenize("if x < 10:\nprint(x)").unwrap();
    assert_eq!(
        tokens,
        vec![
            keyword("if"),
            ident("x"),
            op("<"),
            integer(10),
            op(":"),
            error("Invalid intent 2:0"),
            ident("print"),
            op("("),
            ident("x"),
            op(")"),
        ]
    );
}

#[test]
fn colon_with_one_indent_is_accepted() {
    let tokens = tokenize("if x < 10:\n    print(x)\n").unwrap();
    assert_eq!(
        tokens,
        vec![
            keyword("if"),
            ident("x"),
            op("<"),
            integer(10),
            op(":"),
            ident("print"),
            op("("),
            ident("x"),
            op(")"),
        ]
    );
}

#[test]
fn unterminated_string_is_fatal() {
    assert_eq!(tokenize("\"hello"), Err(FatalError::UnterminatedString));
    assert_eq!(tokenize("\"hello\nworld\""), Err(FatalError::UnterminatedString));
    assert_eq!(tokenize("x = \"a\\"), Err(FatalError::UnterminatedString));
    assert_eq!(tokenize("x = \"a\\\nb\""), Err(FatalError::UnterminatedString));
}

#[test]
fn comment_only_gives_no_tokens() {
    assert_eq!(tokenize("# comment only\n"), Ok(vec![]));
    assert_eq!(tokenize("# comment only"), Ok(vec![]));
}

#[test]
fn empty_input_gives_no_tokens() {
    assert_eq!(tokenize(""), Ok(vec![]));
    assert_eq!(tokenize("   "), Ok(vec![]));
}

#[test]
fn malformed_numbers_are_fatal() {
    assert_eq!(tokenize("x = 1e"), Err(FatalError::MalformedNumber));
    assert_eq!(tokenize("a - b"), Err(FatalError::MalformedNumber));
    assert_eq!(tokenize("x = -."), Err(FatalError::MalformedNumber));
    assert_eq!(tokenize("x = 2147483648"), Err(FatalError::MalformedNumber));
    assert_eq!(tokenize("x = -2147483648"), Err(FatalError::MalformedNumber));
    assert_eq!(tokenize("x = 99999999999999999999999"), Err(FatalError::MalformedNumber));
}

#[test]
fn largest_integers_are_read() {
    assert_eq!(
        tokenize("x = 2147483647").unwrap()[2],
        integer(2147483647)
    );
    assert_eq!(
        tokenize("x = -2147483647").unwrap()[2],
        integer(-2147483647)
    );
    assert_eq!(tokenize("x = 007").unwrap()[2], integer(7));
    assert_eq!(tokenize("x = -0").unwrap()[2], integer(0));
}

#[test]
fn characters_that_start_nothing_are_fatal() {
    assert_eq!(tokenize("x\t= 1"), Err(FatalError::UnexpectedCharacter));
    assert_eq!(tokenize("x = 1\r\n"), Err(FatalError::UnexpectedCharacter));
    assert_eq!(tokenize("\u{00BD}"), Err(FatalError::UnexpectedCharacter));
}

#[test]
fn failed_scan_leaves_cursor_at_the_fault() {
    let mut lexer = Lexer::new("ab = 12e +");
    assert_eq!(lexer.tokenize(), Err(FatalError::MalformedNumber));
    assert_eq!(lexer.position(), 8);
    assert_eq!(lexer.column(), 8);

    let mut lexer = Lexer::new("a\nb = \"cd\nef");
    assert_eq!(lexer.tokenize(), Err(FatalError::UnterminatedString));
    assert_eq!(lexer.position(), 9);
    assert_eq!(lexer.line(), 1);
    assert_eq!(lexer.column(), 7);

    let mut lexer = Lexer::new("a \t b");
    assert_eq!(lexer.tokenize(), Err(FatalError::UnexpectedCharacter));
    assert_eq!(lexer.position(), 2);

    let mut lexer = Lexer::new("a = 1");
    assert!(lexer.tokenize().is_ok());
    assert_eq!(lexer.position(), 5);
    assert!(lexer.is_at_end());
}

#[test]
fn order_finding_names_line_column_and_both_tokens() {
    assert_eq!(
        tokenize("5 + 3"),
        Ok(vec![
            error("Invalid order 1:2: Constant(Integer(5)) cannot be before Operator(\"+\")"),
            integer(5),
            op("+"),
            integer(3),
        ])
    );
    assert_eq!(
        tokenize("x = 1\ny = \"a\" + x"),
        Ok(vec![
            Token::Variable((Type::Integer(1), "x".to_string())),
            op("="),
            integer(1),
            ident("y"),
            op("="),
            error(
                "Invalid order 2:8: Constant(String(\"a\")) cannot be before Operator(\"+\")"
            ),
            Token::Constant(Type::String("a".to_string())),
            op("+"),
            Token::Variable((Type::Integer(1), "x".to_string())),
        ])
    );
}

#[test]
fn closing_operators_may_follow_anything() {
    assert_eq!(
        tokenize("f(1)"),
        Ok(vec![ident("f"), op("("), integer(1), op(")")])
    );
    assert_eq!(
        tokenize("a[2]:"),
        Ok(vec![
            ident("a"),
            op("["),
            error("Invalid order 1:3: Constant(Integer(2)) cannot be before Operator(\"]:\")"),
            integer(2),
            op("]:"),
        ])
    );
    assert_eq!(
        tokenize("a[2] :"),
        Ok(vec![ident("a"), op("["), integer(2), op("]"), op(":")])
    );
}

#[test]
fn later_uses_take_the_last_assigned_type() {
    assert_eq!(
        tokenize("x = 1\nx = \"s\"\nx\ny"),
        Ok(vec![
            Token::Variable((Type::Integer(1), "x".to_string())),
            op("="),
            integer(1),
            Token::Variable((Type::String("s".to_string()), "x".to_string())),
            op("="),
            Token::Constant(Type::String("s".to_string())),
            Token::Variable((Type::String("s".to_string()), "x".to_string())),
            ident("y"),
        ])
    );
}

#[test]
fn output_holds_no_structural_tokens() {
    let tokens = tokenize("def f:\n    a = 1\n    if a:\n        b = 2\nc = 3\n").unwrap();
    assert!(!tokens.is_empty());
    for token in &tokens {
        assert!(!token.is_structural());
        assert!(!token.is_error());
    }
}
