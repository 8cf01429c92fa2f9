//! A lexical scanner for a Python-like language with significant indentation.
//!
//! A scan turns source text into tokens in three passes. The scan loop reads lexemes and
//! tracks the layout, emitting `Newline`, `Indent` and `Dedent` among the tokens. The
//! validator reports tokens that stand out of order as `LexicalError` tokens and drops the
//! layout tokens. The tagger turns identifiers into variables of the type last assigned to
//! them. Each pass has a mathematical description, and the executable code is proved to
//! compute exactly what that description says.

use vstd::prelude::*;

pub mod chars;
pub mod error;
pub mod indent;
pub mod laws;
pub mod lexer;
pub mod render;
pub mod scan;
pub mod tagger;
pub mod text;
pub mod token;
pub mod validate;

pub use crate::chars::CharClass;
pub use crate::error::FatalError;
pub use crate::indent::Indentation;
pub use crate::lexer::Lexer;
pub use crate::tagger::SymbolTable;
pub use crate::token::{FloatLiteral, Token, Type};

verus! {

/// The outcome of scanning `s` from `pos` on: the raw tokens, validated and then tagged; or
/// the condition that ended the scan.
pub open spec fn tokens_from(s: Seq<char>, pos: int) -> Result<Seq<token::TokenView>, FatalError> {
    match scan::scan_from(s, pos, seq![0usize]) {
        Ok(raw) => Ok(tagger::tagged(validate::validated(raw))),
        Err(e) => Err(e),
    }
}

/// The outcome of scanning the whole of `s`.
pub open spec fn tokens_of(s: Seq<char>) -> Result<Seq<token::TokenView>, FatalError> {
    tokens_from(s, 0)
}

impl Lexer {
    /// Scans the rest of the input, validates the tokens and tags them. The first malformed
    /// number, unterminated string or unexpected character makes the whole scan fail.
    pub fn tokenize(&mut self) -> (r: Result<Vec<Token>, FatalError>)
        requires
            old(self).wf(),
        ensures
            final(self).wf(),
            final(self).source() == old(self).source(),
            final(self).offset() == scan::scan_stop(
                old(self).source(),
                old(self).offset(),
                seq![0usize],
            ),
            r is Ok ==> final(self).offset() == old(self).source().len(),
            match r {
                Ok(tokens) => tokens_from(old(self).source(), old(self).offset()) == Ok::<
                    Seq<token::TokenView>,
                    FatalError,
                >(tokens.deep_view()),
                Err(e) => tokens_from(old(self).source(), old(self).offset()) == Err::<
                    Seq<token::TokenView>,
                    FatalError,
                >(e),
            },
            r matches Ok(tokens) ==> forall|i: int|
                0 <= i < tokens.len() ==> !(#[trigger] tokens.deep_view()[i]).is_structural(),
            r matches Err(e) ==> e != FatalError::IndentationUnderflow,
    {
        let raw = match self.scan() {
            Ok(raw) => raw,
            Err(e) => {
                return Err(e);
            },
        };
        let mut tokens = self.verify_output(raw);
        let size: usize = tokens.len();
        let ghost checked = tokens.deep_view();
        self.add_data_types(size, &mut tokens);
        proof {
            assert(checked.take(size as int) =~= checked);
            assert(tagger::tagged(checked) + checked.skip(size as int) =~= tagger::tagged(checked));
            laws::lemma_tagging_keeps_kinds(checked);
        }
        Ok(tokens)
    }
}

/// Turns a source text into its tokens: keywords, identifiers, variables, operators and
/// constants, with a `LexicalError` wherever the validator found tokens out of order. A text
/// that cannot be scanned gives the condition that ended the scan, and no tokens.
pub fn tokenize(source: &str) -> (r: Result<Vec<Token>, FatalError>)
    ensures
        match r {
            Ok(tokens) => tokens_of(source@) == Ok::<Seq<token::TokenView>, FatalError>(
                tokens.deep_view(),
            ),
            Err(e) => tokens_of(source@) == Err::<Seq<token::TokenView>, FatalError>(e),
        },
        r matches Ok(tokens) ==> forall|i: int|
            0 <= i < tokens.len() ==> !(#[trigger] tokens.deep_view()[i]).is_structural(),
        r matches Err(e) ==> e != FatalError::IndentationUnderflow,
{
    let mut lexer = Lexer::new(source);
    lexer.tokenize()
}

} // verus!
