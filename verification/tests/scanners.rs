use lexical_analyse::chars::{
    classify, digit_of, digit_to_char, is_ascii_digit, is_ascii_whitespace, is_marker, lead_of,
    unescape, CharClass, Lead,
};
use lexical_analyse::text::{
    chars_of, decimal, is_keyword, parse_integer, same_text, signed_decimal, text_of,
};
use lexical_analyse::{FatalError, FloatLiteral, Lexer, Token, Type};

#[test]
fn cursor_advances_and_tracks_columns() {
    let mut lexer = Lexer::new("ab\nc");
    assert_eq!(lexer.position(), 0);
    assert_eq!(lexer.column(), 0);
    assert_eq!(lexer.peek(), Some('a'));
    assert_eq!(lexer.advance(), Some('a'));
    assert_eq!(lexer.column(), 1);
    assert_eq!(lexer.advance(), Some('b'));
    assert_eq!(lexer.column(), 2);
    assert_eq!(lexer.peek(), Some('\n'));
    assert_eq!(lexer.advance(), Some('\n'));
    assert_eq!(lexer.column(), 0);
    assert_eq!(lexer.position(), 3);
    assert!(!lexer.is_at_end());
    assert_eq!(lexer.advance(), Some('c'));
    assert_eq!(lexer.column(), 1);
    assert!(lexer.is_at_end());
    assert_eq!(lexer.peek(), None);
    assert_eq!(lexer.advance(), None);
    assert_eq!(lexer.position(), 4);
    assert_eq!(lexer.column(), 1);
}

#[test]
fn cursor_counts_lines() {
    let mut lexer = Lexer::new("a\n\nbc\n");
    assert_eq!(lexer.line(), 0);
    lexer.advance();
    assert_eq!(lexer.line(), 0);
    lexer.advance();
    assert_eq!((lexer.line(), lexer.column()), (1, 0));
    lexer.advance();
    assert_eq!((lexer.line(), lexer.column()), (2, 0));
    lexer.advance();
    lexer.advance();
    assert_eq!((lexer.line(), lexer.column()), (2, 2));
    lexer.advance();
    assert_eq!((lexer.line(), lexer.column()), (3, 0));
    assert_eq!(lexer.advance(), None);
    assert_eq!((lexer.line(), lexer.column()), (3, 0));
}

#[test]
fn cursor_counts_characters_not_bytes() {
    let mut lexer = Lexer::new("\u{00E9}t\u{00E9} = 1");
    assert_eq!(lexer.consume_identifier(), Token::Identifier("\u{00E9}t\u{00E9}".to_string()));
    assert_eq!(lexer.position(), 3);
    assert_eq!(lexer.column(), 3);
}

#[test]
fn comment_stops_before_the_line_feed() {
    let mut lexer = Lexer::new("# note\nx");
    lexer.consume_comment();
    assert_eq!(lexer.position(), 6);
    assert_eq!(lexer.peek(), Some('\n'));
    let mut lexer = Lexer::new("# note");
    lexer.consume_comment();
    assert!(lexer.is_at_end());
    let mut lexer = Lexer::new("\nx");
    lexer.consume_comment();
    assert_eq!(lexer.position(), 0);
}

#[test]
fn runs_are_maximal() {
    let mut lexer = Lexer::new("   12ab_3+=(");
    assert_eq!(lexer.skip_run(CharClass::Space), 3);
    assert_eq!(lexer.skip_run(CharClass::Space), 0);
    assert_eq!(lexer.take_run(CharClass::Digit), "12");
    assert_eq!(lexer.take_run(CharClass::IdentifierPart), "ab_3");
    assert_eq!(lexer.take_run(CharClass::OperatorPart), "+=(");
    assert_eq!(lexer.take_run(CharClass::OperatorPart), "");
    assert!(lexer.is_at_end());
}

#[test]
fn words_are_keywords_or_identifiers() {
    for word in ["if", "else", "for", "while", "def", "class", "and", "or", "is", "not"] {
        let mut lexer = Lexer::new(word);
        assert_eq!(lexer.consume_identifier(), Token::Keyword(word.to_string()));
        assert!(is_keyword(word));
    }
    for word in ["iff", "If", "x", "while_", "_x", "a1", "print"] {
        let mut lexer = Lexer::new(word);
        assert_eq!(lexer.consume_identifier(), Token::Identifier(word.to_string()));
        assert!(!is_keyword(word));
    }
    let mut lexer = Lexer::new("foo_bar2+1");
    assert_eq!(lexer.consume_identifier(), Token::Identifier("foo_bar2".to_string()));
    assert_eq!(lexer.position(), 8);
    let mut lexer = Lexer::new("+");
    assert_eq!(lexer.consume_identifier(), Token::Identifier(String::new()));
    assert_eq!(lexer.position(), 0);
}

#[test]
fn numbers_are_integers_or_floats() {
    let mut lexer = Lexer::new("42+");
    assert_eq!(lexer.consume_number(), Ok(Token::Constant(Type::Integer(42))));
    assert_eq!(lexer.position(), 2);

    let mut lexer = Lexer::new("-17 ");
    assert_eq!(lexer.consume_number(), Ok(Token::Constant(Type::Integer(-17))));
    assert_eq!(lexer.position(), 3);

    let mut lexer = Lexer::new("3.25)");
    let token = lexer.consume_number().unwrap();
    assert_eq!(token, Token::Constant(Type::Float(FloatLiteral::new(false, "3.25").unwrap())));
    assert_eq!(lexer.position(), 4);

    let mut lexer = Lexer::new("-.5");
    let token = lexer.consume_number().unwrap();
    match token {
        Token::Constant(Type::Float(f)) => {
            assert!(f.is_negative());
            assert_eq!(f.digits(), ".5");
            assert_eq!(-f.digits().parse::<f64>().unwrap(), -0.5);
        }
        other => panic!("unexpected token {:?}", other),
    }

    let mut lexer = Lexer::new("7.");
    let token = lexer.consume_number().unwrap();
    assert_eq!(token, Token::Constant(Type::Float(FloatLiteral::new(false, "7.").unwrap())));
}

#[test]
fn number_takes_one_marker_only() {
    let mut lexer = Lexer::new("1.5e3");
    let token = lexer.consume_number().unwrap();
    assert_eq!(token, Token::Constant(Type::Float(FloatLiteral::new(false, "1.5").unwrap())));
    assert_eq!(lexer.position(), 3);
    assert_eq!(lexer.peek(), Some('e'));

    let mut lexer = Lexer::new("1.2.3");
    assert!(lexer.consume_number().is_ok());
    assert_eq!(lexer.position(), 3);

    let mut lexer = Lexer::new("1e-5");
    assert_eq!(lexer.consume_number(), Err(FatalError::MalformedNumber));
    assert_eq!(lexer.position(), 2);
}

#[test]
fn malformed_number_ends_behind_the_lexeme() {
    for (text, end) in [("-", 1), ("-x", 1), ("x", 0), ("", 0), (".", 1), ("-e5", 3), ("5e", 2), ("4294967296 ", 10)] {
        let mut lexer = Lexer::new(text);
        assert_eq!(lexer.consume_number(), Err(FatalError::MalformedNumber));
        assert_eq!(lexer.position(), end);
    }
}

#[test]
fn string_literal_resolves_escapes() {
    let mut lexer = Lexer::new("a\\nb\\tc\\\\d\\\"e\\qf\" rest");
    assert_eq!(
        lexer.consume_string_literal(),
        Ok(Token::Constant(Type::String("a\nb\tc\\d\"eqf".to_string())))
    );
    assert_eq!(lexer.position(), 17);
    assert_eq!(lexer.peek(), Some(' '));
    let mut lexer = Lexer::new("\"");
    assert_eq!(
        lexer.consume_string_literal(),
        Ok(Token::Constant(Type::String(String::new())))
    );
    assert!(lexer.is_at_end());
}

#[test]
fn unterminated_string_leaves_cursor_at_line_end() {
    for (text, end) in [("abc", 3), ("abc\ndef\"", 3), ("", 0), ("ab\\", 3), ("ab\\\ncd\"", 3), ("\\\"", 2)] {
        let mut lexer = Lexer::new(text);
        assert_eq!(lexer.consume_string_literal(), Err(FatalError::UnterminatedString));
        assert_eq!(lexer.position(), end);
    }
}

#[test]
fn operators_are_runs_of_symbols() {
    let mut lexer = Lexer::new("== 1");
    assert_eq!(lexer.consume_operator(), Ok(Token::Operator("==".to_string())));
    assert_eq!(lexer.position(), 2);
    let mut lexer = Lexer::new(")->x");
    assert_eq!(lexer.consume_operator(), Ok(Token::Operator(")->".to_string())));
    let mut lexer = Lexer::new("+\"s\"");
    assert_eq!(lexer.consume_operator(), Ok(Token::Operator("+".to_string())));
    assert_eq!(lexer.peek(), Some('"'));
}

#[test]
fn operator_scanner_reads_string_at_a_quote() {
    let mut lexer = Lexer::new("\"hi\" x");
    assert_eq!(
        lexer.consume_operator(),
        Ok(Token::Constant(Type::String("hi".to_string())))
    );
    assert_eq!(lexer.position(), 4);
    let mut lexer = Lexer::new("\"hi");
    assert_eq!(lexer.consume_operator(), Err(FatalError::UnterminatedString));
    assert_eq!(lexer.position(), 3);
}

#[test]
fn operator_scanner_rejects_what_starts_no_operator() {
    for text in ["", " +", "x", "7", "\t", "\n"] {
        let mut lexer = Lexer::new(text);
        assert_eq!(lexer.consume_operator(), Err(FatalError::UnexpectedCharacter));
        assert_eq!(lexer.position(), 0);
    }
}

#[test]
fn float_literals_are_checked() {
    for text in ["1.5", "1.", ".5", "1e10", "0e0", "123.456"] {
        let literal = FloatLiteral::new(false, text).unwrap();
        assert_eq!(literal.digits(), text);
        assert!(text.parse::<f64>().is_ok());
    }
    for text in ["", ".", "e", "1", "1e", "e1", "1.5e3", "1..2", "-1.5", "1.5 ", "1E5", "1e+5"] {
        assert!(FloatLiteral::new(true, text).is_none());
    }
    assert!(FloatLiteral::new(true, "2.5").unwrap().is_negative());
    assert_eq!(FloatLiteral::new(true, "2.5").unwrap().to_string(), "-2.5");
    assert_eq!(FloatLiteral::new(false, "2.5").unwrap().to_string(), "2.5");
    assert_ne!(FloatLiteral::new(true, "2.5"), FloatLiteral::new(false, "2.5"));
    assert_ne!(FloatLiteral::new(true, "2.5"), FloatLiteral::new(true, "2.50"));
}

#[test]
fn character_classes() {
    assert!(is_ascii_digit('0') && is_ascii_digit('9') && !is_ascii_digit('a') && !is_ascii_digit('/') && !is_ascii_digit(':'));
    for c in [' ', '\t', '\n', '\u{000C}', '\r'] {
        assert!(is_ascii_whitespace(c));
        assert!(c.is_ascii_whitespace());
    }
    assert!(!is_ascii_whitespace('\u{000B}') && !is_ascii_whitespace('x') && !is_ascii_whitespace('\u{00A0}'));
    assert!(is_marker('.') && is_marker('e') && !is_marker('E') && !is_marker(','));
    assert!(CharClass::Digit.contains('7') && !CharClass::Digit.contains('x'));
    assert!(CharClass::Space.contains(' ') && !CharClass::Space.contains('\t'));
    assert!(CharClass::IdentifierPart.contains('_') && CharClass::IdentifierPart.contains('z'));
    assert!(CharClass::IdentifierPart.contains('5') && CharClass::IdentifierPart.contains('\u{00E9}'));
    assert!(!CharClass::IdentifierPart.contains('-') && !CharClass::IdentifierPart.contains(' '));
    assert!(CharClass::OperatorPart.contains('+') && CharClass::OperatorPart.contains('#'));
    assert!(!CharClass::OperatorPart.contains('"') && !CharClass::OperatorPart.contains('a'));
    assert!(!CharClass::OperatorPart.contains('\t') && !CharClass::OperatorPart.contains('3'));
    assert!(CharClass::CommentBody.contains('x') && !CharClass::CommentBody.contains('\n'));
    assert!(CharClass::IdentifierPart.accepts('+', true) && !CharClass::IdentifierPart.accepts('+', false));
    assert!(CharClass::OperatorPart.accepts('x', false) && !CharClass::OperatorPart.accepts('x', true));
}

#[test]
fn leads_follow_the_order_of_the_rules() {
    assert_eq!(classify(' '), Lead::Space);
    assert_eq!(classify('\n'), Lead::LineFeed);
    assert_eq!(classify('5'), Lead::Number);
    assert_eq!(classify('-'), Lead::Number);
    assert_eq!(classify('x'), Lead::Word);
    assert_eq!(classify('\u{00E9}'), Lead::Word);
    assert_eq!(classify('_'), Lead::Operator);
    assert_eq!(classify('#'), Lead::Comment);
    assert_eq!(classify('"'), Lead::Quote);
    assert_eq!(classify('+'), Lead::Operator);
    assert_eq!(classify('\t'), Lead::Operator);
    assert_eq!(lead_of('7', true), Lead::Number);
    assert_eq!(lead_of('#', true), Lead::Word);
    assert_eq!(lead_of('x', false), Lead::Operator);
}

#[test]
fn digits_and_escapes() {
    assert_eq!(digit_of('0'), 0);
    assert_eq!(digit_of('7'), 7);
    assert_eq!(digit_to_char(0), '0');
    assert_eq!(digit_to_char(9), '9');
    assert_eq!(unescape('n'), '\n');
    assert_eq!(unescape('t'), '\t');
    assert_eq!(unescape('\\'), '\\');
    assert_eq!(unescape('"'), '"');
    assert_eq!(unescape('q'), 'q');
}

#[test]
fn text_and_numbers() {
    assert_eq!(chars_of("a\u{00E9}b"), vec!['a', '\u{00E9}', 'b']);
    assert_eq!(text_of(&vec!['a', 'b', 'c', 'd'], 1, 3), "bc");
    assert_eq!(text_of(&vec!['a', 'b'], 1, 1), "");
    assert!(same_text("ab", "ab") && !same_text("ab", "abc") && !same_text("ab", "aB"));
    assert_eq!(parse_integer("0"), Some(0));
    assert_eq!(parse_integer("0012"), Some(12));
    assert_eq!(parse_integer("2147483647"), Some(2147483647));
    assert_eq!(parse_integer("2147483648"), None);
    assert_eq!(parse_integer(""), None);
    assert_eq!(parse_integer("12a"), None);
    assert_eq!(parse_integer("-1"), None);
    assert_eq!(parse_integer("+1"), None);
    assert_eq!(decimal(0), "0");
    assert_eq!(decimal(7), "7");
    assert_eq!(decimal(120), "120");
    assert_eq!(decimal(u64::MAX), "18446744073709551615");
    assert_eq!(signed_decimal(0), "0");
    assert_eq!(signed_decimal(-45), "-45");
    assert_eq!(signed_decimal(i32::MIN), "-2147483648");
    assert_eq!(signed_decimal(i32::MAX), "2147483647");
}
