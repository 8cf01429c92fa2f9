//! The type tagger: identifiers take on the type of the constant last assigned to them.

use crate::lexer::Lexer;
use crate::text::same_text;
use crate::token::{Token, TokenView, Type, TypeView};
use vstd::prelude::*;

verus! {

/// Whether a constant is assigned at `i`: an identifier there, the operator `=` behind it and
/// a constant behind that.
pub open spec fn is_assignment(tokens: Seq<TokenView>, i: int) -> bool {
    &&& 0 <= i
    &&& i + 2 < tokens.len()
    &&& tokens[i] is Identifier
    &&& tokens[i + 1].is_operator("="@)
    &&& tokens[i + 2] is Constant
}

/// The types known when token `i` is reached: for each name, that of the constant last
/// assigned to it before `i`.
pub open spec fn symbols_before(tokens: Seq<TokenView>, i: int) -> Map<Seq<char>, TypeView>
    decreases i,
{
    if i <= 0 {
        Map::empty()
    } else if is_assignment(tokens, i - 1) {
        symbols_before(tokens, i - 1).insert(
            tokens[i - 1]->Identifier_0,
            tokens[i + 1]->Constant_0,
        )
    } else {
        symbols_before(tokens, i - 1)
    }
}

/// Token `i` after tagging. An identifier that is assigned a constant becomes a variable of
/// that constant's type; any other identifier whose name has a known type becomes a variable
/// of that type; every other token stays as it is.
pub open spec fn tagged_at(tokens: Seq<TokenView>, i: int) -> TokenView {
    match tokens[i] {
        TokenView::Identifier(name) => if is_assignment(tokens, i) {
            TokenView::Variable(tokens[i + 2]->Constant_0, name)
        } else if symbols_before(tokens, i).contains_key(name) {
            TokenView::Variable(symbols_before(tokens, i)[name], name)
        } else {
            tokens[i]
        },
        _ => tokens[i],
    }
}

/// The token sequence after tagging.
pub open spec fn tagged(tokens: Seq<TokenView>) -> Seq<TokenView> {
    Seq::new(tokens.len(), |i: int| tagged_at(tokens, i))
}

/// The mapping that a list of entries stands for: each name maps to the type of the last
/// entry that holds it.
pub open spec fn entries_map(entries: Seq<(Seq<char>, TypeView)>) -> Map<Seq<char>, TypeView>
    decreases entries.len(),
{
    if entries.len() == 0 {
        Map::empty()
    } else {
        entries_map(entries.drop_last()).insert(entries.last().0, entries.last().1)
    }
}

/// The types of the names met so far in one tagging pass.
pub struct SymbolTable {
    entries: Vec<(String, Type)>,
}

impl View for SymbolTable {
    type V = Map<Seq<char>, TypeView>;

    closed spec fn view(&self) -> Map<Seq<char>, TypeView> {
        entries_map(self.entries.deep_view())
    }
}

impl SymbolTable {
    /// A table that knows no name.
    pub fn new() -> (r: SymbolTable)
        ensures
            r@ == Map::<Seq<char>, TypeView>::empty(),
    {
        let r = SymbolTable { entries: Vec::new() };
        assert(r.entries.deep_view() =~= Seq::empty());
        r
    }

    /// Notes that `name` now has type `ty`, whatever it had before.
    pub fn record(&mut self, name: String, ty: Type)
        ensures
            final(self)@ == old(self)@.insert(name@, ty@),
    {
        let ghost before = self.entries.deep_view();
        self.entries.push((name, ty));
        proof {
            let now = self.entries.deep_view();
            assert(now.drop_last() =~= before);
            assert(now.last() == (name@, ty@));
        }
    }

    /// The type that `name` was last recorded with, if it was recorded at all.
    pub fn lookup(&self, name: &str) -> (r: Option<Type>)
        ensures
            match r {
                Some(ty) => self@.contains_key(name@) && self@[name@] == ty@,
                None => !self@.contains_key(name@),
            },
    {
        let n: usize = self.entries.len();
        let ghost all = self.entries.deep_view();
        let mut found: Option<usize> = None;
        let mut i: usize = 0;
        while i < n
            invariant
                i <= n == self.entries.len(),
                all == self.entries.deep_view(),
                match found {
                    Some(j) => j < i && entries_map(all.take(i as int)).contains_key(name@)
                        && entries_map(all.take(i as int))[name@] == all[j as int].1,
                    None => !entries_map(all.take(i as int)).contains_key(name@),
                },
            decreases n - i,
        {
            proof {
                let longer = all.take(i + 1);
                assert(longer.drop_last() =~= all.take(i as int));
                assert(longer.last() == all[i as int]);
                assert(all[i as int].0 == self.entries[i as int].0@);
            }
            if same_text(self.entries[i].0.as_str(), name) {
                found = Some(i);
            }
            i = i + 1;
        }
        proof {
            assert(all.take(n as int) =~= all);
        }
        match found {
            Some(j) => {
                assert(all[j as int].1 == self.entries[j as int].1@);
                Some(self.entries[j].1.clone())
            },
            None => None,
        }
    }
}

/// The type of the constant that is assigned at `i` among the first `size` tokens, if one is.
pub fn assigned_type(tokens: &Vec<Token>, size: usize, i: usize) -> (r: Option<Type>)
    requires
        i < size <= tokens.len(),
    ensures
        match r {
            Some(ty) => is_assignment(tokens.deep_view().take(size as int), i as int)
                && tokens.deep_view()[i + 2]->Constant_0 == ty@,
            None => !is_assignment(tokens.deep_view().take(size as int), i as int),
        },
{
    proof {
        let all = tokens.deep_view();
        assert(all[i as int] == tokens[i as int]@);
        if size - i > 2 {
            assert(all[i + 1] == tokens[i + 1]@);
            assert(all[i + 2] == tokens[i + 2]@);
        }
    }
    if size - i <= 2 || !tokens[i].is_identifier() || !tokens[i + 1].is_operator("=") {
        return None;
    }
    match &tokens[i + 2] {
        Token::Constant(ty) => Some(ty.clone()),
        _ => None,
    }
}

impl Lexer {
    /// Tags the first `size` tokens in place; the tokens behind them are neither read nor
    /// changed. Each identifier to which a constant is assigned becomes a variable of the
    /// constant's type, and each other identifier whose name was assigned a constant before
    /// becomes a variable of the type last assigned. Tagging the result once more would change
    /// nothing.
    pub fn add_data_types(&self, size: usize, tokens: &mut Vec<Token>)
        requires
            size <= old(tokens).len(),
        ensures
            final(tokens).deep_view() == tagged(old(tokens).deep_view().take(size as int)) + old(
                tokens,
            ).deep_view().skip(size as int),
            tagged(final(tokens).deep_view().take(size as int)) == final(tokens).deep_view().take(
                size as int,
            ),
    {
        let ghost given = tokens.deep_view();
        let ghost head = given.take(size as int);
        let mut known = SymbolTable::new();
        let mut i: usize = 0;
        while i < size
            invariant
                i <= size <= tokens.len(),
                given == old(tokens).deep_view(),
                head == given.take(size as int),
                tokens.len() == given.len(),
                forall|j: int| 0 <= j < i ==> #[trigger] tokens.deep_view()[j] == tagged_at(head, j),
                forall|j: int| i <= j < given.len() ==> #[trigger] tokens.deep_view()[j] == given[j],
                known@ == symbols_before(head, i as int),
            decreases size - i,
        {
            let ghost now = tokens.deep_view();
            proof {
                assert(now[i as int] == tokens[i as int]@);
                assert(now.take(size as int)[i as int] == head[i as int]);
                if i + 2 < size {
                    assert(now.take(size as int)[i + 1] == head[i + 1]);
                    assert(now.take(size as int)[i + 2] == head[i + 2]);
                }
            }
            let name: Option<String> = match &tokens[i] {
                Token::Identifier(name) => Some(name.clone()),
                _ => None,
            };
            if let Some(name) = name {
                match assigned_type(tokens, size, i) {
                    Some(ty) => {
                        known.record(name.clone(), ty.clone());
                        tokens.set(i, Token::Variable((ty, name)));
                    },
                    None => {
                        match known.lookup(name.as_str()) {
                            Some(ty) => {
                                tokens.set(i, Token::Variable((ty, name)));
                            },
                            None => {},
                        }
                    },
                }
            }
            proof {
                let after = tokens.deep_view();
                assert forall|j: int| 0 <= j < i + 1 implies #[trigger] after[j] == tagged_at(
                    head,
                    j,
                ) by {
                    if j < i {
                        assert(after[j] == now[j]);
                    }
                }
                assert forall|j: int| i + 1 <= j < given.len() implies #[trigger] after[j]
                    == given[j] by {
                    assert(after[j] == now[j]);
                }
            }
            i = i + 1;
        }
        proof {
            assert(tokens.deep_view() =~= tagged(head) + given.skip(size as int));
            assert(tokens.deep_view().take(size as int) =~= tagged(head));
            crate::laws::lemma_tagging_idempotent(head);
        }
    }
}

impl Default for SymbolTable {
    fn default() -> (r: SymbolTable)
        ensures
            r@ == Map::<Seq<char>, TypeView>::empty(),
    {
        SymbolTable::new()
    }
}

} // verus!
