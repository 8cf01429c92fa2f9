//! The cursor over the source text, and the scanners that read one lexeme each.

use crate::chars::{is_float_marker, is_marker, unescape, unescaped, CharClass};
use crate::error::FatalError;
use crate::text::{
    chars_of, digits_value, is_integer_text, is_keyword, is_keyword_text, parse_integer, run_end,
    text_of,
};
use crate::token::{is_float_text, FloatLiteral, FloatView, Token, TokenView, Type, TypeView};
use vstd::prelude::*;

verus! {

/// The column of the character at `pos`: how many characters lie between it and the last line
/// feed before it, or the start of the text.
pub open spec fn column_at(s: Seq<char>, pos: int) -> nat
    decreases pos,
{
    if pos <= 0 || pos > s.len() {
        0
    } else if s[pos - 1] == '\n' {
        0
    } else {
        column_at(s, pos - 1) + 1
    }
}

/// A column never exceeds the offset it belongs to.
pub proof fn lemma_column_bounded(s: Seq<char>, pos: int)
    ensures
        column_at(s, pos) <= if pos < 0 {
            0
        } else {
            pos
        },
    decreases pos,
{
    if 0 < pos <= s.len() && s[pos - 1] != '\n' {
        lemma_column_bounded(s, pos - 1);
    }
}

/// The line of the character at `pos`, counted from 0: how many line feeds lie before it.
pub open spec fn line_at_offset(s: Seq<char>, pos: int) -> nat
    decreases pos,
{
    if pos <= 0 || pos > s.len() {
        0
    } else if s[pos - 1] == '\n' {
        line_at_offset(s, pos - 1) + 1
    } else {
        line_at_offset(s, pos - 1)
    }
}

/// There are no more line feeds before an offset than characters.
pub proof fn lemma_line_feeds_bounded(s: Seq<char>, pos: int)
    ensures
        line_at_offset(s, pos) <= if pos < 0 {
            0
        } else {
            pos
        },
    decreases pos,
{
    if 0 < pos <= s.len() {
        lemma_line_feeds_bounded(s, pos - 1);
    }
}

/// Where the digits of the number at `start` begin: after the minus sign, if there is one.
pub open spec fn number_start(s: Seq<char>, start: int) -> int {
    if 0 <= start < s.len() && s[start] == '-' {
        start + 1
    } else {
        start
    }
}

/// Where the leading digits of the number at `start` end.
pub open spec fn number_mark(s: Seq<char>, start: int) -> int {
    run_end(s, number_start(s, start), CharClass::Digit)
}

/// Where the number at `start` ends: after its digits, and after one `.` or `e` with the
/// digits behind it, if the leading digits are followed by one.
pub open spec fn number_end(s: Seq<char>, start: int) -> int {
    let mark = number_mark(s, start);
    if 0 <= mark < s.len() && is_float_marker(s[mark]) {
        run_end(s, mark + 1, CharClass::Digit)
    } else {
        mark
    }
}

/// The token that the number at `start` yields. With a `.` or `e` it is a float, kept as
/// written; without, an integer, negated when a `-` leads. A text that is no literal of its
/// kind is malformed.
pub open spec fn number_token(s: Seq<char>, start: int) -> Result<TokenView, FatalError> {
    let first = number_start(s, start);
    let negative = first > start;
    let end = number_end(s, start);
    let text = s.subrange(first, end);
    if number_mark(s, start) < end {
        if is_float_text(text) {
            Ok(TokenView::Constant(TypeView::Float(FloatView { negative, digits: text })))
        } else {
            Err(FatalError::MalformedNumber)
        }
    } else if is_integer_text(text) {
        Ok(
            TokenView::Constant(
                TypeView::Integer(
                    if negative {
                        -digits_value(text)
                    } else {
                        digits_value(text)
                    },
                ),
            ),
        )
    } else {
        Err(FatalError::MalformedNumber)
    }
}

/// Where the word at `start` ends.
pub open spec fn word_end(s: Seq<char>, start: int) -> int {
    run_end(s, start, CharClass::IdentifierPart)
}

/// The token for a word: a keyword if it is reserved, else an identifier.
pub open spec fn word_token(text: Seq<char>) -> TokenView {
    if is_keyword_text(text) {
        TokenView::Keyword(text)
    } else {
        TokenView::Identifier(text)
    }
}

/// Where the operator at `start` ends.
pub open spec fn operator_end(s: Seq<char>, start: int) -> int {
    run_end(s, start, CharClass::OperatorPart)
}

/// The body of the string literal whose opening quote lies just before `pos`, with its escape
/// sequences resolved, and the offset just past the closing quote. `None` when a line feed or
/// the end of the text comes before the closing quote.
pub open spec fn string_literal(s: Seq<char>, pos: int) -> Option<(Seq<char>, int)>
    decreases s.len() - pos,
{
    if pos < 0 || pos >= s.len() {
        None
    } else if s[pos] == '\n' {
        None
    } else if s[pos] == '"' {
        Some((Seq::empty(), pos + 1))
    } else if s[pos] == '\\' {
        if pos + 1 >= s.len() || s[pos + 1] == '\n' {
            None
        } else {
            prepend(seq![unescaped(s[pos + 1])], string_literal(s, pos + 2))
        }
    } else {
        prepend(seq![s[pos]], string_literal(s, pos + 1))
    }
}

/// Puts `done` before the body of a literal that was read from a later offset.
pub open spec fn prepend(done: Seq<char>, rest: Option<(Seq<char>, int)>) -> Option<
    (Seq<char>, int),
> {
    match rest {
        Some((body, end)) => Some((done + body, end)),
        None => None,
    }
}

/// What the scanner for operators yields at `start`: the string literal behind a `"`, else the
/// run of operator characters, which may not be empty.
pub open spec fn operator_token(s: Seq<char>, start: int) -> Result<TokenView, FatalError> {
    if 0 <= start < s.len() && s[start] == '"' {
        match string_literal(s, start + 1) {
            Some((body, _)) => Ok(TokenView::Constant(TypeView::String(body))),
            None => Err(FatalError::UnterminatedString),
        }
    } else if operator_end(s, start) == start {
        Err(FatalError::UnexpectedCharacter)
    } else {
        Ok(TokenView::Operator(s.subrange(start, operator_end(s, start))))
    }
}

/// A cursor over the characters of a source text. It knows how far it has read, and on which
/// line and in which column it stands.
pub struct Lexer {
    input: Vec<char>,
    position: usize,
    line: usize,
    column: usize,
}

impl Lexer {
    /// The whole text that the cursor runs over.
    pub closed spec fn source(&self) -> Seq<char> {
        self.input@
    }

    /// How many characters have been consumed.
    pub closed spec fn offset(&self) -> int {
        self.position as int
    }

    /// The cursor lies within its text, and its line and column are those of its offset.
    pub closed spec fn wf(&self) -> bool {
        &&& self.position <= self.input.len()
        &&& self.line == line_at_offset(self.input@, self.position as int)
        &&& self.column == column_at(self.input@, self.position as int)
    }

    /// A well-formed cursor lies within its text, which is no longer than memory allows.
    pub proof fn lemma_wf(&self)
        requires
            self.wf(),
        ensures
            0 <= self.offset() <= self.source().len() <= usize::MAX,
    {
    }

    /// A cursor at the start of `input`.
    pub fn new(input: &str) -> (lexer: Lexer)
        ensures
            lexer.wf(),
            lexer.source() == input@,
            lexer.offset() == 0,
    {
        Lexer { input: chars_of(input), position: 0, line: 0, column: 0 }
    }

    /// Consumes the next character and returns it, or returns `None` at the end of the input
    /// and changes nothing. Behind a line feed the next line begins, at column 0.
    pub fn advance(&mut self) -> (c: Option<char>)
        requires
            old(self).wf(),
        ensures
            final(self).wf(),
            final(self).source() == old(self).source(),
            old(self).offset() < old(self).source().len() ==> c == Some(
                old(self).source()[old(self).offset()],
            ) && final(self).offset() == old(self).offset() + 1,
            old(self).offset() >= old(self).source().len() ==> c is None && final(self).offset()
                == old(self).offset(),
    {
        if self.position < self.input.len() {
            let c: char = self.input[self.position];
            proof {
                lemma_column_bounded(self.input@, self.position as int);
                lemma_line_feeds_bounded(self.input@, self.position as int);
            }
            self.position = self.position + 1;
            if c == '\n' {
                self.line = self.line + 1;
                self.column = 0;
            } else {
                self.column = self.column + 1;
            }
            Some(c)
        } else {
            None
        }
    }

    /// The next character, which stays unconsumed; `None` at the end of the input.
    pub fn peek(&self) -> (c: Option<char>)
        requires
            self.wf(),
        ensures
            self.offset() < self.source().len() ==> c == Some(self.source()[self.offset()]),
            self.offset() >= self.source().len() ==> c is None,
    {
        if self.position < self.input.len() {
            Some(self.input[self.position])
        } else {
            None
        }
    }

    /// How many characters have been consumed.
    pub fn position(&self) -> (r: usize)
        ensures
            r == self.offset(),
    {
        self.position
    }

    /// The line on which the next character stands, counted from 0.
    pub fn line(&self) -> (r: usize)
        requires
            self.wf(),
        ensures
            r == line_at_offset(self.source(), self.offset()),
    {
        self.line
    }

    /// The column in which the next character stands, counted from 0.
    pub fn column(&self) -> (r: usize)
        requires
            self.wf(),
        ensures
            r == column_at(self.source(), self.offset()),
    {
        self.column
    }

    /// Whether every character has been consumed.
    pub fn is_at_end(&self) -> (r: bool)
        requires
            self.wf(),
        ensures
            r == (self.offset() == self.source().len()),
    {
        self.position >= self.input.len()
    }

    /// Consumes the maximal run of `class` characters at the cursor and returns its length.
    pub fn skip_run(&mut self, class: CharClass) -> (count: usize)
        requires
            old(self).wf(),
        ensures
            final(self).wf(),
            final(self).source() == old(self).source(),
            final(self).offset() == run_end(old(self).source(), old(self).offset(), class),
            count == final(self).offset() - old(self).offset(),
    {
        let start: usize = self.position;
        while self.position < self.input.len() && class.contains(self.input[self.position])
            invariant
                self.wf(),
                self.source() == old(self).source(),
                start == old(self).offset(),
                start <= self.position <= self.input.len(),
                run_end(self.input@, start as int, class) == run_end(
                    self.input@,
                    self.position as int,
                    class,
                ),
            decreases self.input.len() - self.position,
        {
            self.advance();
        }
        self.position - start
    }

    /// Consumes the maximal run of `class` characters at the cursor and returns it.
    pub fn take_run(&mut self, class: CharClass) -> (run: String)
        requires
            old(self).wf(),
        ensures
            final(self).wf(),
            final(self).source() == old(self).source(),
            final(self).offset() == run_end(old(self).source(), old(self).offset(), class),
            run@ == old(self).source().subrange(old(self).offset(), final(self).offset()),
    {
        let start: usize = self.position;
        self.skip_run(class);
        text_of(&self.input, start, self.position)
    }

    /// Discards the rest of the line: everything up to, and not including, the next line feed.
    pub fn consume_comment(&mut self)
        requires
            old(self).wf(),
        ensures
            final(self).wf(),
            final(self).source() == old(self).source(),
            final(self).offset() == run_end(
                old(self).source(),
                old(self).offset(),
                CharClass::CommentBody,
            ),
    {
        self.skip_run(CharClass::CommentBody);
    }

    /// Reads a word and tells keywords from identifiers.
    pub fn consume_identifier(&mut self) -> (token: Token)
        requires
            old(self).wf(),
        ensures
            final(self).wf(),
            final(self).source() == old(self).source(),
            final(self).offset() == word_end(old(self).source(), old(self).offset()),
            token@ == word_token(
                old(self).source().subrange(old(self).offset(), final(self).offset()),
            ),
    {
        let word = self.take_run(CharClass::IdentifierPart);
        if is_keyword(word.as_str()) {
            Token::Keyword(word)
        } else {
            Token::Identifier(word)
        }
    }

    /// Reads a number: an optional `-`, digits, and at most one `.` or `e` with more digits.
    /// The cursor ends behind the lexeme whether or not it is a well-formed literal.
    pub fn consume_number(&mut self) -> (r: Result<Token, FatalError>)
        requires
            old(self).wf(),
        ensures
            final(self).wf(),
            final(self).source() == old(self).source(),
            final(self).offset() == number_end(old(self).source(), old(self).offset()),
            match r {
                Ok(token) => number_token(old(self).source(), old(self).offset()) == Ok::<
                    TokenView,
                    FatalError,
                >(token@),
                Err(e) => number_token(old(self).source(), old(self).offset()) == Err::<
                    TokenView,
                    FatalError,
                >(e),
            },
    {
        let negative: bool = match self.peek() {
            Some(c) => c == '-',
            None => false,
        };
        if negative {
            self.advance();
        }
        let first: usize = self.position;
        self.skip_run(CharClass::Digit);
        let mark: usize = self.position;
        let marked: bool = match self.peek() {
            Some(c) => is_marker(c),
            None => false,
        };
        if marked {
            self.advance();
            self.skip_run(CharClass::Digit);
        }
        let end: usize = self.position;
        proof {
            crate::text::lemma_run_end(self.input@, first as int, CharClass::Digit);
            if marked {
                crate::text::lemma_run_end(self.input@, mark + 1, CharClass::Digit);
            }
        }
        let text = text_of(&self.input, first, end);
        if mark < end {
            match FloatLiteral::new(negative, text.as_str()) {
                Some(literal) => Ok(Token::Constant(Type::Float(literal))),
                None => Err(FatalError::MalformedNumber),
            }
        } else {
            match parse_integer(text.as_str()) {
                Some(value) => Ok(
                    Token::Constant(
                        Type::Integer(
                            if negative {
                                -value
                            } else {
                                value
                            },
                        ),
                    ),
                ),
                None => Err(FatalError::MalformedNumber),
            }
        }
    }

    /// Reads the body of a string literal whose opening quote has been consumed, up to and
    /// including the closing quote. A line feed or the end of the input before the closing
    /// quote leaves the literal unterminated, and the cursor at that line feed or end.
    pub fn consume_string_literal(&mut self) -> (r: Result<Token, FatalError>)
        requires
            old(self).wf(),
        ensures
            final(self).wf(),
            final(self).source() == old(self).source(),
            match r {
                Ok(token) => string_literal(old(self).source(), old(self).offset()) == Some(
                    (token@->Constant_0->String_0, final(self).offset()),
                ) && token@ is Constant && token@->Constant_0 is String,
                Err(e) => e == FatalError::UnterminatedString && string_literal(
                    old(self).source(),
                    old(self).offset(),
                ) is None && final(self).offset() == run_end(
                    old(self).source(),
                    old(self).offset(),
                    CharClass::CommentBody,
                ),
            },
    {
        let mut literal = String::new();
        let ghost start = self.position as int;
        loop
            invariant
                self.wf(),
                self.source() == old(self).source(),
                start == old(self).offset(),
                start <= self.position <= self.input.len(),
                string_literal(self.input@, start) == prepend(
                    literal@,
                    string_literal(self.input@, self.position as int),
                ),
                run_end(self.input@, start, CharClass::CommentBody) == run_end(
                    self.input@,
                    self.position as int,
                    CharClass::CommentBody,
                ),
            decreases self.input.len() - self.position,
        {
            let ghost before = literal@;
            let ghost here = self.position as int;
            let c: char = match self.peek() {
                Some(c) => c,
                None => {
                    return Err(FatalError::UnterminatedString);
                },
            };
            if c == '\n' {
                return Err(FatalError::UnterminatedString);
            }
            self.advance();
            proof {
                assert(run_end(self.input@, here, CharClass::CommentBody) == run_end(
                    self.input@,
                    here + 1,
                    CharClass::CommentBody,
                ));
            }
            if c == '"' {
                proof {
                    assert(literal@ + Seq::<char>::empty() =~= literal@);
                }
                return Ok(Token::Constant(Type::String(literal)));
            } else if c == '\\' {
                let escaped: char = match self.peek() {
                    Some(escaped) => escaped,
                    None => {
                        return Err(FatalError::UnterminatedString);
                    },
                };
                if escaped == '\n' {
                    return Err(FatalError::UnterminatedString);
                }
                self.advance();
                literal.push(unescape(escaped));
                proof {
                    assert(run_end(self.input@, here + 1, CharClass::CommentBody) == run_end(
                        self.input@,
                        here + 2,
                        CharClass::CommentBody,
                    ));
                    if let Some((body, _)) = string_literal(self.input@, here + 2) {
                        assert(before + (seq![unescaped(escaped)] + body) =~= before.push(
                            unescaped(escaped),
                        ) + body);
                    }
                }
            } else {
                literal.push(c);
                proof {
                    if let Some((body, _)) = string_literal(self.input@, here + 1) {
                        assert(before + (seq![c] + body) =~= before.push(c) + body);
                    }
                }
            }
        }
    }

    /// Reads an operator: the maximal run of characters that are neither whitespace, letters,
    /// numbers nor `"`. At a `"` the string literal behind it is read instead. A character that
    /// starts neither is unexpected, and is left unconsumed.
    pub fn consume_operator(&mut self) -> (r: Result<Token, FatalError>)
        requires
            old(self).wf(),
        ensures
            final(self).wf(),
            final(self).source() == old(self).source(),
            match r {
                Ok(token) => operator_token(old(self).source(), old(self).offset()) == Ok::<
                    TokenView,
                    FatalError,
                >(token@),
                Err(e) => operator_token(old(self).source(), old(self).offset()) == Err::<
                    TokenView,
                    FatalError,
                >(e),
            },
            final(self).offset() == operator_stop(old(self).source(), old(self).offset()),
    {
        let quoted: bool = match self.peek() {
            Some(c) => c == '"',
            None => false,
        };
        if quoted {
            self.advance();
            return self.consume_string_literal();
        }
        proof {
            crate::text::lemma_run_end(self.input@, self.position as int, CharClass::OperatorPart);
        }
        let text = self.take_run(CharClass::OperatorPart);
        if text.as_str().is_empty() {
            Err(FatalError::UnexpectedCharacter)
        } else {
            Ok(Token::Operator(text))
        }
    }
}

/// Where the scanner for operators leaves the cursor: behind the closing quote of the string
/// literal at a `"`, or at the end of the line if it has none; else behind the run of
/// operator characters.
pub open spec fn operator_stop(s: Seq<char>, start: int) -> int {
    if 0 <= start < s.len() && s[start] == '"' {
        match string_literal(s, start + 1) {
            Some((_, end)) => end,
            None => run_end(s, start + 1, CharClass::CommentBody),
        }
    } else {
        operator_end(s, start)
    }
}

} // verus!
