use lexical_analyse::{FatalError, Indentation, Lexer, Token};

fn kinds(raw: &[(Token, usize)]) -> Vec<(&'static str, usize)> {
    raw.iter()
        .map(|(token, column)| {
            let kind = match token {
                Token::Indent => "indent",
                Token::Dedent => "dedent",
                Token::Newline => "newline",
                Token::Keyword(_) => "keyword",
                Token::Identifier(_) => "identifier",
                Token::Operator(_) => "operator",
                Token::Constant(_) => "constant",
                Token::Variable(_) => "variable",
                Token::LexicalError(_) => "error",
            };
            (kind, *column)
        })
        .collect()
}

fn count(raw: &[(Token, usize)], wanted: &Token) -> usize {
    raw.iter().filter(|(token, _)| token == wanted).count()
}

#[test]
fn tracker_starts_at_width_zero() {
    let tracker = Indentation::new();
    assert_eq!(tracker.current(), 0);
    assert_eq!(tracker.depth(), 0);
    let tracker = Indentation::default();
    assert_eq!(tracker.current(), 0);
    assert_eq!(tracker.depth(), 0);
}

#[test]
fn dedent_below_the_outermost_level_underflows() {
    let mut tracker = Indentation::new();
    assert_eq!(tracker.dedent(), Err(FatalError::IndentationUnderflow));
    assert_eq!(tracker.current(), 0);
    assert_eq!(tracker.depth(), 0);
    tracker.indent(4);
    assert_eq!(tracker.current(), 4);
    assert_eq!(tracker.depth(), 1);
    assert_eq!(tracker.dedent(), Ok(()));
    assert_eq!(tracker.current(), 0);
    assert_eq!(tracker.dedent(), Err(FatalError::IndentationUnderflow));
}

#[test]
fn deeper_line_opens_one_block() {
    let mut tracker = Indentation::new();
    let mut out = Vec::new();
    assert_eq!(tracker.begin_line(4, &mut out), Ok(()));
    assert_eq!(out, vec![(Token::Indent, 4)]);
    assert_eq!(tracker.current(), 4);
    assert_eq!(tracker.begin_line(4, &mut out), Ok(()));
    assert_eq!(out.len(), 1);
    assert_eq!(tracker.begin_line(9, &mut out), Ok(()));
    assert_eq!(out, vec![(Token::Indent, 4), (Token::Indent, 9)]);
    assert_eq!(tracker.depth(), 2);
}

#[test]
fn shallower_line_closes_blocks_until_it_fits() {
    let mut tracker = Indentation::new();
    let mut out = Vec::new();
    tracker.indent(2);
    tracker.indent(4);
    tracker.indent(8);
    assert_eq!(tracker.begin_line(2, &mut out), Ok(()));
    assert_eq!(out, vec![(Token::Dedent, 2), (Token::Dedent, 2)]);
    assert_eq!(tracker.current(), 2);
    assert_eq!(tracker.depth(), 1);
}

#[test]
fn misaligned_line_falls_to_the_level_below() {
    let mut tracker = Indentation::new();
    let mut out = Vec::new();
    tracker.indent(4);
    tracker.indent(8);
    assert_eq!(tracker.begin_line(6, &mut out), Ok(()));
    assert_eq!(out, vec![(Token::Dedent, 6)]);
    assert_eq!(tracker.current(), 4);
    assert_eq!(tracker.begin_line(6, &mut out), Ok(()));
    assert_eq!(out, vec![(Token::Dedent, 6), (Token::Indent, 6)]);
    assert_eq!(tracker.current(), 6);
    assert_eq!(tracker.depth(), 2);
}

#[test]
fn flush_closes_every_block() {
    let mut tracker = Indentation::new();
    let mut out = vec![(Token::Newline, 0)];
    tracker.indent(3);
    tracker.indent(5);
    assert_eq!(tracker.flush(7, &mut out), Ok(()));
    assert_eq!(out, vec![(Token::Newline, 0), (Token::Dedent, 7), (Token::Dedent, 7)]);
    assert_eq!(tracker.current(), 0);
    assert_eq!(tracker.depth(), 0);
    assert_eq!(tracker.flush(7, &mut out), Ok(()));
    assert_eq!(out.len(), 3);
}

#[test]
fn scan_emits_layout_tokens_with_columns() {
    let mut lexer = Lexer::new("a:\n  b\n    c\nd");
    let raw = lexer.scan().unwrap();
    assert_eq!(
        kinds(&raw),
        vec![
            ("identifier", 0),
            ("operator", 1),
            ("newline", 0),
            ("indent", 2),
            ("identifier", 2),
            ("newline", 0),
            ("indent", 4),
            ("identifier", 4),
            ("newline", 0),
            ("dedent", 0),
            ("dedent", 0),
            ("identifier", 0),
        ]
    );
}

#[test]
fn scan_closes_open_blocks_at_the_end() {
    let mut lexer = Lexer::new("a\n  b\n      c = 1");
    let raw = lexer.scan().unwrap();
    assert_eq!(
        kinds(&raw),
        vec![
            ("identifier", 0),
            ("newline", 0),
            ("indent", 2),
            ("identifier", 2),
            ("newline", 0),
            ("indent", 6),
            ("identifier", 6),
            ("operator", 8),
            ("constant", 10),
            ("dedent", 11),
            ("dedent", 11),
        ]
    );
}

#[test]
fn indents_and_dedents_balance() {
    for source in [
        "",
        "a",
        "a\n  b\n",
        "a\n  b\n    c\n  d\ne\n",
        "a\n    b\n  c\n      d\n e",
        "\n\n   \n  x\n        y",
        "if a:\n    if b:\n        c\n    # note\n\n\n    d\n",
    ] {
        let mut lexer = Lexer::new(source);
        let raw = lexer.scan().unwrap();
        assert_eq!(count(&raw, &Token::Indent), count(&raw, &Token::Dedent), "{:?}", source);
    }
}

#[test]
fn blank_line_with_spaces_opens_and_closes_a_block() {
    let mut lexer = Lexer::new("a\n   \nb");
    let raw = lexer.scan().unwrap();
    assert_eq!(
        kinds(&raw),
        vec![
            ("identifier", 0),
            ("newline", 0),
            ("indent", 3),
            ("newline", 0),
            ("dedent", 0),
            ("identifier", 0),
        ]
    );
}

#[test]
fn scan_step_takes_one_turn() {
    let mut lexer = Lexer::new("ab \n  c");
    let mut layout = Indentation::new();
    let mut out = Vec::new();
    assert_eq!(lexer.scan_step(&mut layout, &mut out), Ok(true));
    assert_eq!(out, vec![(Token::Identifier("ab".to_string()), 0)]);
    assert_eq!(lexer.scan_step(&mut layout, &mut out), Ok(true));
    assert_eq!(out.len(), 1);
    assert_eq!(lexer.position(), 3);
    assert_eq!(lexer.scan_step(&mut layout, &mut out), Ok(true));
    assert_eq!(out.len(), 3);
    assert_eq!(out[1], (Token::Newline, 0));
    assert_eq!(out[2], (Token::Indent, 2));
    assert_eq!(layout.current(), 2);
    assert_eq!(lexer.position(), 6);
    assert_eq!(lexer.scan_step(&mut layout, &mut out), Ok(true));
    assert_eq!(out[3], (Token::Identifier("c".to_string()), 2));
    assert_eq!(lexer.scan_step(&mut layout, &mut out), Ok(false));
    assert_eq!(out.len(), 4);
    assert_eq!(layout.depth(), 1);
}
