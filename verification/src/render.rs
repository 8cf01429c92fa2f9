//! Tokens as text: the form shown to a reader, and the form quoted inside diagnostics.

use crate::text::{signed_decimal, signed_decimal_text};
use crate::token::{FloatLiteral, FloatView, Token, TokenView, Type, TypeView};
use vstd::prelude::*;

verus! {

/// A text between double quotes, with its special characters escaped, as the `Debug` format
/// of `str` writes it.
pub uninterp spec fn quoted_text(s: Seq<char>) -> Seq<char>;

/// A character between single quotes, escaped if it is special, as the `Debug` format of
/// `char` writes it.
pub uninterp spec fn quoted_char_text(c: char) -> Seq<char>;

/// Formats `s` with the `Debug` format of `str`. The escaping rules are the standard
/// library's and are not restated: the result is only given a name, which depends on the
/// characters of `s` alone.
#[verifier::external_body]
fn quoted(s: &str) -> (r: String)
    ensures
        r@ == quoted_text(s@),
{
    format!("{:?}", s)
}

/// Formats `c` with the `Debug` format of `char`. The result is only given a name, which
/// depends on `c` alone.
#[verifier::external_body]
fn quoted_char(c: char) -> (r: String)
    ensures
        r@ == quoted_char_text(c),
{
    format!("{:?}", c)
}

/// A float literal as it was written, sign included.
pub open spec fn float_text(f: FloatView) -> Seq<char> {
    if f.negative {
        seq!['-'] + f.digits
    } else {
        f.digits
    }
}

/// The value of a literal as shown to a reader.
pub open spec fn type_text(t: TypeView) -> Seq<char> {
    match t {
        TypeView::Integer(v) => "integer("@ + signed_decimal_text(v) + ")"@,
        TypeView::Float(f) => "float("@ + float_text(f) + ")"@,
        TypeView::String(s) => "string literal(\""@ + s + "\")"@,
        TypeView::Char(c) => "char("@.push(c) + ")"@,
    }
}

/// A token as shown to a reader. The structural tokens show as nothing.
pub open spec fn token_text(t: TokenView) -> Seq<char> {
    match t {
        TokenView::Keyword(name) => "TOKEN: default Python keyword \""@ + name + "\""@,
        TokenView::Identifier(name) => "TOKEN: identifier \""@ + name + "\""@,
        TokenView::Variable(ty, name) => "TOKEN: variable \""@ + name + "\" of type "@
            + type_text(ty),
        TokenView::Operator(name) => "TOKEN: operator \""@ + name + "\""@,
        TokenView::Constant(ty) => "TOKEN: constant of type "@ + type_text(ty),
        TokenView::LexicalError(message) => "ERROR: "@ + message,
        _ => Seq::empty(),
    }
}

/// The value of a literal as quoted inside a diagnostic.
pub open spec fn type_debug_text(t: TypeView) -> Seq<char> {
    match t {
        TypeView::Integer(v) => "Integer("@ + signed_decimal_text(v) + ")"@,
        TypeView::Float(f) => "Float("@ + float_text(f) + ")"@,
        TypeView::String(s) => "String("@ + quoted_text(s) + ")"@,
        TypeView::Char(c) => "Char("@ + quoted_char_text(c) + ")"@,
    }
}

/// A token as quoted inside a diagnostic: the name of its kind, and what it holds in brackets.
pub open spec fn token_debug_text(t: TokenView) -> Seq<char> {
    match t {
        TokenView::Keyword(name) => "Keyword("@ + quoted_text(name) + ")"@,
        TokenView::Identifier(name) => "Identifier("@ + quoted_text(name) + ")"@,
        TokenView::Variable(ty, name) => "Variable(("@ + type_debug_text(ty) + ", "@
            + quoted_text(name) + "))"@,
        TokenView::Operator(name) => "Operator("@ + quoted_text(name) + ")"@,
        TokenView::Constant(ty) => "Constant("@ + type_debug_text(ty) + ")"@,
        TokenView::Indent => "Indent"@,
        TokenView::Dedent => "Dedent"@,
        TokenView::Newline => "Newline"@,
        TokenView::LexicalError(message) => "LexicalError("@ + quoted_text(message) + ")"@,
    }
}

/// `open`, then `inner`, then `close`.
pub fn bracketed(open: &str, inner: &str, close: &str) -> (r: String)
    ensures
        r@ == open@ + inner@ + close@,
{
    let mut r = String::from_str(open);
    r.append(inner);
    r.append(close);
    r
}

impl FloatLiteral {
    /// The literal as it was written, sign included.
    pub fn to_string(&self) -> (r: String)
        ensures
            r@ == float_text(self@),
    {
        if self.is_negative() {
            let mut r = String::from_str("-");
            proof {
                reveal_strlit("-");
                assert("-"@ =~= seq!['-']);
            }
            r.append(self.digits());
            r
        } else {
            String::from_str(self.digits())
        }
    }
}

impl Type {
    /// The value as shown to a reader.
    pub fn to_string(&self) -> (r: String)
        ensures
            r@ == type_text(self@),
    {
        match self {
            Type::Integer(v) => bracketed("integer(", signed_decimal(*v).as_str(), ")"),
            Type::Float(f) => bracketed("float(", f.to_string().as_str(), ")"),
            Type::String(s) => bracketed("string literal(\"", s.as_str(), "\")"),
            Type::Char(c) => {
                let mut r = String::from_str("char(");
                r.push(*c);
                r.append(")");
                r
            },
        }
    }

    /// The value as quoted inside a diagnostic.
    pub fn debug_text(&self) -> (r: String)
        ensures
            r@ == type_debug_text(self@),
    {
        match self {
            Type::Integer(v) => bracketed("Integer(", signed_decimal(*v).as_str(), ")"),
            Type::Float(f) => bracketed("Float(", f.to_string().as_str(), ")"),
            Type::String(s) => bracketed("String(", quoted(s.as_str()).as_str(), ")"),
            Type::Char(c) => bracketed("Char(", quoted_char(*c).as_str(), ")"),
        }
    }
}

impl Token {
    /// The token as shown to a reader. The structural tokens show as nothing.
    pub fn to_string(&self) -> (r: String)
        ensures
            r@ == token_text(self@),
    {
        match self {
            Token::Keyword(name) => bracketed(
                "TOKEN: default Python keyword \"",
                name.as_str(),
                "\"",
            ),
            Token::Identifier(name) => bracketed("TOKEN: identifier \"", name.as_str(), "\""),
            Token::Variable(pair) => {
                let mut r = bracketed("TOKEN: variable \"", pair.1.as_str(), "\" of type ");
                r.append(pair.0.to_string().as_str());
                r
            },
            Token::Operator(name) => bracketed("TOKEN: operator \"", name.as_str(), "\""),
            Token::Constant(ty) => {
                let mut r = String::from_str("TOKEN: constant of type ");
                r.append(ty.to_string().as_str());
                r
            },
            Token::LexicalError(message) => {
                let mut r = String::from_str("ERROR: ");
                r.append(message.as_str());
                r
            },
            _ => String::new(),
        }
    }

    /// The token as quoted inside a diagnostic.
    pub fn debug_text(&self) -> (r: String)
        ensures
            r@ == token_debug_text(self@),
    {
        match self {
            Token::Keyword(name) => bracketed("Keyword(", quoted(name.as_str()).as_str(), ")"),
            Token::Identifier(name) => bracketed(
                "Identifier(",
                quoted(name.as_str()).as_str(),
                ")",
            ),
            Token::Variable(pair) => {
                let mut r = bracketed("Variable((", pair.0.debug_text().as_str(), ", ");
                r.append(quoted(pair.1.as_str()).as_str());
                r.append("))");
                r
            },
            Token::Operator(name) => bracketed("Operator(", quoted(name.as_str()).as_str(), ")"),
            Token::Constant(ty) => bracketed("Constant(", ty.debug_text().as_str(), ")"),
            Token::Indent => String::from_str("Indent"),
            Token::Dedent => String::from_str("Dedent"),
            Token::Newline => String::from_str("Newline"),
            Token::LexicalError(message) => bracketed(
                "LexicalError(",
                quoted(message.as_str()).as_str(),
                ")",
            ),
        }
    }
}

} // verus!
