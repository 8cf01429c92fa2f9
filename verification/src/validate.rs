//! The structural validator: a pass over the raw tokens that reports what is out of order,
//! and drops the tokens that only mark the layout.

use crate::indent::RawView;
use crate::laws::{
    adjacency_holds, lemma_validated_adjacency, lemma_validated_upto_not_structural,
};
use crate::lexer::Lexer;
use crate::render::token_debug_text;
use crate::text::{decimal, decimal_text, same_text};
use crate::token::{Token, TokenView};
use vstd::prelude::*;

verus! {

/// The operators before which any token may stand: `:`, `)` and `]`.
pub open spec fn is_closing_text(text: Seq<char>) -> bool {
    text == ":"@ || text == ")"@ || text == "]"@
}

/// The tokens before which only an identifier may stand: every operator but `:`, `)`, `]`.
pub open spec fn needs_identifier_before(token: TokenView) -> bool {
    token matches TokenView::Operator(text) && !is_closing_text(text)
}

/// The line on which token `k` is taken to stand: one more than the number of `Newline`
/// tokens among those from the second up to token `k` itself.
pub open spec fn line_at(raw: Seq<RawView>, k: int) -> nat
    decreases k,
{
    if k <= 0 {
        1
    } else if raw[k].0 is Newline {
        line_at(raw, k - 1) + 1
    } else {
        line_at(raw, k - 1)
    }
}

/// Whether a block is opened badly around token `k`: the token before it is the operator `:`,
/// a token follows it, and it is not a `Newline` followed by exactly one `Indent`.
pub open spec fn block_open_violation(raw: Seq<RawView>, k: int) -> bool {
    &&& 1 <= k
    &&& k + 1 < raw.len()
    &&& raw[k - 1].0.is_operator(":"@)
    &&& !(raw[k].0 is Newline && raw[k + 1].0 is Indent && !(k + 2 < raw.len() && raw[k
        + 2].0 is Indent))
}

/// Whether token `k` stands badly before its successor: the successor is an operator other
/// than `:`, `)`, `]`, and token `k` is no identifier.
pub open spec fn adjacency_violation(raw: Seq<RawView>, k: int) -> bool {
    &&& 0 <= k
    &&& k + 1 < raw.len()
    &&& needs_identifier_before(raw[k + 1].0)
    &&& !(raw[k].0 is Identifier)
}

/// The finding for a badly opened block, met on `line` before a token at `column`.
pub open spec fn intent_text(line: nat, column: nat) -> Seq<char> {
    "Invalid intent "@ + decimal_text(line) + ":"@ + decimal_text(column)
}

/// The finding for `current` standing before `next`, which was met on `line` at `column`.
pub open spec fn order_text(line: nat, column: nat, current: TokenView, next: TokenView) -> Seq<
    char,
> {
    "Invalid order "@ + decimal_text(line) + ":"@ + decimal_text(column) + ": "@
        + token_debug_text(current) + " cannot be before "@ + token_debug_text(next)
}

/// What examining token `k` adds to the output: the finding for a badly opened block, if there
/// is one; then the finding for a bad order, if there is one; then the token itself, unless it
/// is structural. Both findings name the line of token `k` and the column of its successor.
pub open spec fn window_output(raw: Seq<RawView>, k: int) -> Seq<TokenView> {
    let line = line_at(raw, k);
    let block = if block_open_violation(raw, k) {
        seq![TokenView::LexicalError(intent_text(line, raw[k + 1].1 as nat))]
    } else {
        Seq::empty()
    };
    let order = if adjacency_violation(raw, k) {
        seq![
            TokenView::LexicalError(
                order_text(line, raw[k + 1].1 as nat, raw[k].0, raw[k + 1].0),
            ),
        ]
    } else {
        Seq::empty()
    };
    let own = if raw[k].0.is_structural() {
        Seq::empty()
    } else {
        seq![raw[k].0]
    };
    block + order + own
}

/// The output for the first `n` raw tokens.
pub open spec fn validated_upto(raw: Seq<RawView>, n: int) -> Seq<TokenView>
    decreases n,
{
    if n <= 0 {
        Seq::empty()
    } else {
        validated_upto(raw, n - 1) + window_output(raw, n - 1)
    }
}

/// The validated token sequence: what examining every raw token in turn adds up to.
pub open spec fn validated(raw: Seq<RawView>) -> Seq<TokenView> {
    validated_upto(raw, raw.len() as int)
}

/// Lines are counted from 1, and there is at most one more of them than tokens before `k`.
pub proof fn lemma_line_bounded(raw: Seq<RawView>, k: int)
    ensures
        1 <= line_at(raw, k) <= if k < 0 {
            1
        } else {
            k + 1
        },
    decreases k,
{
    if k > 0 {
        lemma_line_bounded(raw, k - 1);
    }
}

/// Decides whether `text` is `:`, `)` or `]`.
pub fn is_closing(text: &str) -> (r: bool)
    ensures
        r == is_closing_text(text@),
{
    same_text(text, ":") || same_text(text, ")") || same_text(text, "]")
}

/// Writes the finding for a badly opened block.
pub fn intent_message(line: usize, column: usize) -> (r: String)
    ensures
        r@ == intent_text(line as nat, column as nat),
{
    let mut r = String::from_str("Invalid intent ");
    r.append(decimal(line as u64).as_str());
    r.append(":");
    r.append(decimal(column as u64).as_str());
    r
}

/// Writes the finding for a token standing before another, which was met on `line` at
/// `column`, from the texts that the two are quoted with.
pub fn order_message_of(line: usize, column: usize, current: &str, next: &str) -> (r: String)
    ensures
        r@ == "Invalid order "@ + decimal_text(line as nat) + ":"@ + decimal_text(column as nat)
            + ": "@ + current@ + " cannot be before "@ + next@,
{
    let mut r = String::from_str("Invalid order ");
    r.append(decimal(line as u64).as_str());
    r.append(":");
    r.append(decimal(column as u64).as_str());
    r.append(": ");
    r.append(current);
    r.append(" cannot be before ");
    r.append(next);
    r
}

/// Writes the finding for `current` standing before `next`.
pub fn order_message(line: usize, column: usize, current: &Token, next: &Token) -> (r: String)
    ensures
        r@ == order_text(line as nat, column as nat, current@, next@),
{
    order_message_of(line, column, current.debug_text().as_str(), next.debug_text().as_str())
}

/// Decides whether only an identifier may stand before `token`.
pub fn wants_identifier_before(token: &Token) -> (r: bool)
    ensures
        r == needs_identifier_before(token@),
{
    match token {
        Token::Operator(text) => !is_closing(text.as_str()),
        _ => false,
    }
}

/// Decides whether a block is opened badly around token `k`.
pub fn opens_block_badly(tokens: &Vec<(Token, usize)>, k: usize) -> (r: bool)
    requires
        k < tokens.len(),
    ensures
        r == block_open_violation(tokens.deep_view(), k as int),
{
    let n: usize = tokens.len();
    if k < 1 || k + 1 >= n {
        return false;
    }
    proof {
        let raw = tokens.deep_view();
        assert(raw[k - 1].0 == tokens[k - 1].0@);
        assert(raw[k as int].0 == tokens[k as int].0@);
        assert(raw[k + 1].0 == tokens[k + 1].0@);
        if k + 2 < n {
            assert(raw[k + 2].0 == tokens[k + 2].0@);
        }
    }
    if !tokens[k - 1].0.is_operator(":") {
        return false;
    }
    let begins_line: bool = match &tokens[k].0 {
        Token::Newline => true,
        _ => false,
    };
    let indents: bool = match &tokens[k + 1].0 {
        Token::Indent => true,
        _ => false,
    };
    let indents_twice: bool = k + 2 < n && match &tokens[k + 2].0 {
        Token::Indent => true,
        _ => false,
    };
    !(begins_line && indents && !indents_twice)
}

/// Decides whether token `k` stands badly before its successor.
pub fn precedes_badly(tokens: &Vec<(Token, usize)>, k: usize) -> (r: bool)
    requires
        k < tokens.len(),
    ensures
        r == adjacency_violation(tokens.deep_view(), k as int),
{
    if k + 1 >= tokens.len() {
        return false;
    }
    proof {
        let raw = tokens.deep_view();
        assert(raw[k as int].0 == tokens[k as int].0@);
        assert(raw[k + 1].0 == tokens[k + 1].0@);
    }
    wants_identifier_before(&tokens[k + 1].0) && !tokens[k].0.is_identifier()
}

impl Lexer {
    /// Validates the raw tokens of a scan. Every token is examined with its neighbours;
    /// findings are put into the output where they are made, as `LexicalError` tokens, and
    /// `Indent`, `Dedent` and `Newline` are left out of it. The cursor is not touched.
    pub fn verify_output(&mut self, tokens: Vec<(Token, usize)>) -> (r: Vec<Token>)
        ensures
            *final(self) == *old(self),
            r.deep_view() == validated(tokens.deep_view()),
            adjacency_holds(r.deep_view()),
            forall|i: int| 0 <= i < r.len() ==> !(#[trigger] r.deep_view()[i]).is_structural(),
    {
        proof {
            lemma_validated_adjacency(tokens.deep_view());
            lemma_validated_upto_not_structural(tokens.deep_view(), tokens.len() as int);
        }
        let n: usize = tokens.len();
        let ghost raw = tokens.deep_view();
        let mut out: Vec<Token> = Vec::new();
        let mut line: usize = 1;
        let mut k: usize = 0;
        proof {
            assert(out.deep_view() =~= validated_upto(raw, 0));
        }
        while k < n
            invariant
                k <= n == tokens.len(),
                raw == tokens.deep_view(),
                k < n ==> line == line_at(raw, k as int),
                out.deep_view() == validated_upto(raw, k as int),
            decreases n - k,
        {
            let ghost done = out.deep_view();
            proof {
                lemma_line_bounded(raw, k as int);
                assert(raw[k as int] == (tokens[k as int].0@, tokens[k as int].1));
                if k + 1 < n {
                    assert(raw[k + 1] == (tokens[k + 1].0@, tokens[k + 1].1));
                }
            }
            if opens_block_badly(&tokens, k) {
                out.push(Token::LexicalError(intent_message(line, tokens[k + 1].1)));
            }
            if precedes_badly(&tokens, k) {
                out.push(
                    Token::LexicalError(
                        order_message(line, tokens[k + 1].1, &tokens[k].0, &tokens[k + 1].0),
                    ),
                );
            }
            if !tokens[k].0.is_structural() {
                out.push(tokens[k].0.clone());
            }
            proof {
                assert(out.deep_view() =~= done + window_output(raw, k as int));
            }
            if k + 1 < n {
                let starts_line: bool = match &tokens[k + 1].0 {
                    Token::Newline => true,
                    _ => false,
                };
                if starts_line {
                    line = line + 1;
                }
            }
            k = k + 1;
        }
        out
    }
}

} // verus!
