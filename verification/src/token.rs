//! Tokens, the values of literals, and their mathematical views.

use crate::chars::{is_float_marker, is_marker, CharClass};
use crate::text::{chars_of, run_end};
use vstd::prelude::*;

verus! {

/// The texts that denote a floating-point literal, the sign left aside: decimal digits around
/// exactly one `.` or `e`. A `.` needs a digit on one side at least, an `e` on both.
pub open spec fn is_float_text(t: Seq<char>) -> bool {
    let mark = run_end(t, 0, CharClass::Digit);
    &&& mark < t.len()
    &&& is_float_marker(t[mark])
    &&& run_end(t, mark + 1, CharClass::Digit) == t.len()
    &&& t[mark] == '.' ==> t.len() >= 2
    &&& t[mark] == 'e' ==> 1 <= mark && mark + 1 < t.len()
}

/// What a `FloatLiteral` stands for: a sign and the text of an unsigned literal.
pub struct FloatView {
    pub negative: bool,
    pub digits: Seq<char>,
}

/// A floating-point literal, kept as written: its sign, and its digits with the `.` or `e`.
/// The digits always form a text that `str::parse` reads as a float.
#[derive(Debug)]
pub struct FloatLiteral {
    negative: bool,
    digits: String,
}

impl View for FloatLiteral {
    type V = FloatView;

    closed spec fn view(&self) -> FloatView {
        FloatView { negative: self.negative, digits: self.digits@ }
    }
}

impl FloatLiteral {
    /// Checks `digits` and keeps them with the sign. `None` comes back exactly when `digits`
    /// is no floating-point literal.
    pub fn new(negative: bool, digits: &str) -> (r: Option<FloatLiteral>)
        ensures
            r is Some <==> is_float_text(digits@),
            r matches Some(lit) ==> lit@ == (FloatView { negative, digits: digits@ }),
    {
        let text = chars_of(digits);
        let n: usize = text.len();
        let mut mark: usize = 0;
        while mark < n && CharClass::Digit.contains(text[mark])
            invariant
                mark <= n == text.len(),
                run_end(text@, 0, CharClass::Digit) == run_end(text@, mark as int, CharClass::Digit),
            decreases n - mark,
        {
            mark += 1;
        }
        if mark == n {
            return None;
        }
        let marker: char = text[mark];
        if !is_marker(marker) {
            return None;
        }
        let mut end: usize = mark + 1;
        while end < n && CharClass::Digit.contains(text[end])
            invariant
                mark < end <= n == text.len(),
                run_end(text@, mark + 1, CharClass::Digit) == run_end(
                    text@,
                    end as int,
                    CharClass::Digit,
                ),
            decreases n - end,
        {
            end += 1;
        }
        if end != n {
            return None;
        }
        if marker == '.' && n < 2 {
            return None;
        }
        if marker == 'e' && (mark < 1 || mark + 1 >= n) {
            return None;
        }
        Some(FloatLiteral { negative, digits: digits.to_owned() })
    }

    /// Whether the literal was written with a leading `-`.
    pub fn is_negative(&self) -> (r: bool)
        ensures
            r == self@.negative,
    {
        self.negative
    }

    /// The literal without its sign.
    pub fn digits(&self) -> (r: &str)
        ensures
            r@ == self@.digits,
    {
        self.digits.as_str()
    }
}

impl Clone for FloatLiteral {
    fn clone(&self) -> (r: FloatLiteral)
        ensures
            r@ == self@,
    {
        FloatLiteral { negative: self.negative, digits: self.digits.clone() }
    }
}

impl PartialEq for FloatLiteral {
    fn eq(&self, other: &FloatLiteral) -> (r: bool) {
        self.negative == other.negative && self.digits == other.digits
    }
}

impl vstd::std_specs::cmp::PartialEqSpecImpl for FloatLiteral {
    open spec fn obeys_eq_spec() -> bool {
        true
    }

    open spec fn eq_spec(&self, other: &FloatLiteral) -> bool {
        self@ == other@
    }
}

/// What a `Type` stands for.
pub enum TypeView {
    Integer(int),
    Float(FloatView),
    String(Seq<char>),
    Char(char),
}

/// The value of a literal.
#[derive(Debug)]
pub enum Type {
    Integer(i32),
    Float(FloatLiteral),
    String(String),
    Char(char),
}

impl View for Type {
    type V = TypeView;

    open spec fn view(&self) -> TypeView {
        match *self {
            Type::Integer(v) => TypeView::Integer(v as int),
            Type::Float(f) => TypeView::Float(f@),
            Type::String(t) => TypeView::String(t@),
            Type::Char(c) => TypeView::Char(c),
        }
    }
}

impl DeepView for Type {
    type V = TypeView;

    open spec fn deep_view(&self) -> TypeView {
        self@
    }
}

impl Clone for Type {
    fn clone(&self) -> (r: Type)
        ensures
            r@ == self@,
    {
        match self {
            Type::Integer(v) => Type::Integer(*v),
            Type::Float(f) => Type::Float(f.clone()),
            Type::String(t) => Type::String(t.clone()),
            Type::Char(c) => Type::Char(*c),
        }
    }
}

impl PartialEq for Type {
    fn eq(&self, other: &Type) -> (r: bool) {
        match (self, other) {
            (Type::Integer(a), Type::Integer(b)) => *a == *b,
            (Type::Float(a), Type::Float(b)) => *a == *b,
            (Type::String(a), Type::String(b)) => *a == *b,
            (Type::Char(a), Type::Char(b)) => *a == *b,
            _ => false,
        }
    }
}

impl vstd::std_specs::cmp::PartialEqSpecImpl for Type {
    open spec fn obeys_eq_spec() -> bool {
        true
    }

    open spec fn eq_spec(&self, other: &Type) -> bool {
        self@ == other@
    }
}

/// What a `Token` stands for.
pub enum TokenView {
    Keyword(Seq<char>),
    Identifier(Seq<char>),
    Variable(TypeView, Seq<char>),
    Operator(Seq<char>),
    Constant(TypeView),
    Indent,
    Dedent,
    Newline,
    LexicalError(Seq<char>),
}

impl TokenView {
    /// The tokens that only drive scanning and validation: `Indent`, `Dedent` and `Newline`.
    pub open spec fn is_structural(self) -> bool {
        self is Indent || self is Dedent || self is Newline
    }

    /// Whether the token is the operator written `text`.
    pub open spec fn is_operator(self, text: Seq<char>) -> bool {
        self == TokenView::Operator(text)
    }
}

/// One lexical unit of the source language.
#[derive(Debug)]
pub enum Token {
    Keyword(String),
    Identifier(String),
    Variable((Type, String)),
    Operator(String),
    Constant(Type),
    Indent,
    Dedent,
    Newline,
    LexicalError(String),
}

impl View for Token {
    type V = TokenView;

    open spec fn view(&self) -> TokenView {
        match *self {
            Token::Keyword(name) => TokenView::Keyword(name@),
            Token::Identifier(name) => TokenView::Identifier(name@),
            Token::Variable(pair) => TokenView::Variable(pair.0@, pair.1@),
            Token::Operator(text) => TokenView::Operator(text@),
            Token::Constant(t) => TokenView::Constant(t@),
            Token::Indent => TokenView::Indent,
            Token::Dedent => TokenView::Dedent,
            Token::Newline => TokenView::Newline,
            Token::LexicalError(message) => TokenView::LexicalError(message@),
        }
    }
}

impl DeepView for Token {
    type V = TokenView;

    open spec fn deep_view(&self) -> TokenView {
        self@
    }
}

impl Clone for Token {
    fn clone(&self) -> (r: Token)
        ensures
            r@ == self@,
    {
        match self {
            Token::Keyword(name) => Token::Keyword(name.clone()),
            Token::Identifier(name) => Token::Identifier(name.clone()),
            Token::Variable(pair) => Token::Variable((pair.0.clone(), pair.1.clone())),
            Token::Operator(text) => Token::Operator(text.clone()),
            Token::Constant(t) => Token::Constant(t.clone()),
            Token::Indent => Token::Indent,
            Token::Dedent => Token::Dedent,
            Token::Newline => Token::Newline,
            Token::LexicalError(message) => Token::LexicalError(message.clone()),
        }
    }
}

impl PartialEq for Token {
    fn eq(&self, other: &Token) -> (r: bool) {
        match (self, other) {
            (Token::Keyword(a), Token::Keyword(b)) => *a == *b,
            (Token::Identifier(a), Token::Identifier(b)) => *a == *b,
            (Token::Variable(a), Token::Variable(b)) => a.0 == b.0 && a.1 == b.1,
            (Token::Operator(a), Token::Operator(b)) => *a == *b,
            (Token::Constant(a), Token::Constant(b)) => *a == *b,
            (Token::Indent, Token::Indent) => true,
            (Token::Dedent, Token::Dedent) => true,
            (Token::Newline, Token::Newline) => true,
            (Token::LexicalError(a), Token::LexicalError(b)) => *a == *b,
            _ => false,
        }
    }
}

impl vstd::std_specs::cmp::PartialEqSpecImpl for Token {
    open spec fn obeys_eq_spec() -> bool {
        true
    }

    open spec fn eq_spec(&self, other: &Token) -> bool {
        self@ == other@
    }
}

impl Token {
    /// Whether the token is `Indent`, `Dedent` or `Newline`.
    pub fn is_structural(&self) -> (r: bool)
        ensures
            r == self@.is_structural(),
    {
        match self {
            Token::Indent => true,
            Token::Dedent => true,
            Token::Newline => true,
            _ => false,
        }
    }

    /// Whether the token is an identifier that no type has been attached to.
    pub fn is_identifier(&self) -> (r: bool)
        ensures
            r == (self@ is Identifier),
    {
        match self {
            Token::Identifier(_) => true,
            _ => false,
        }
    }

    /// Whether the token is a validation finding rather than part of the source.
    pub fn is_error(&self) -> (r: bool)
        ensures
            r == (self@ is LexicalError),
    {
        match self {
            Token::LexicalError(_) => true,
            _ => false,
        }
    }

    /// Whether the token is the operator written `text`.
    pub fn is_operator(&self, text: &str) -> (r: bool)
        ensures
            r == self@.is_operator(text@),
    {
        match self {
            Token::Operator(own) => crate::text::same_text(own.as_str(), text),
            _ => false,
        }
    }
}

} // verus!
