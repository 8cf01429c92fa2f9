//! The stack of indentation widths, and the layout tokens that line starts give rise to.

use crate::error::FatalError;
use crate::token::{Token, TokenView};
use vstd::prelude::*;

verus! {

/// A token as the scanner emits it, with the column at which it was met.
pub type RawView = (TokenView, usize);

/// The widths of the open blocks, outermost first, the current one last. They start at 0 and
/// grow strictly.
pub open spec fn levels_wf(levels: Seq<usize>) -> bool {
    &&& levels.len() >= 1
    &&& levels[0] == 0
    &&& forall|i: int, j: int| 0 <= i < j < levels.len() ==> levels[i] < levels[j]
}

/// How many blocks a line that starts with `width` spaces closes: as many as have to go until
/// the current width no longer exceeds `width`.
pub open spec fn dedent_count(levels: Seq<usize>, width: usize) -> nat
    decreases levels.len(),
{
    if levels.len() > 1 && width < levels.last() {
        1 + dedent_count(levels.drop_last(), width)
    } else {
        0
    }
}

/// The levels that are open behind the start of a line with `width` leading spaces.
pub open spec fn levels_after(levels: Seq<usize>, width: usize) -> Seq<usize> {
    if width > levels.last() {
        levels.push(width)
    } else {
        levels.take(levels.len() - dedent_count(levels, width))
    }
}

/// `count` tokens `token`, all at `column`.
pub open spec fn repeated(token: TokenView, column: usize, count: nat) -> Seq<RawView> {
    Seq::new(count, |i: int| (token, column))
}

/// The tokens that the start of a line with `width` leading spaces emits behind its `Newline`:
/// one `Indent` where the line is deeper than the current level, else one `Dedent` for each
/// level it closes.
pub open spec fn layout_tokens(levels: Seq<usize>, width: usize) -> Seq<RawView> {
    if width > levels.last() {
        seq![(TokenView::Indent, width)]
    } else {
        repeated(TokenView::Dedent, width, dedent_count(levels, width))
    }
}

/// The `Dedent` tokens that close every open block at the end of the input.
pub open spec fn flush_tokens(levels: Seq<usize>, column: usize) -> Seq<RawView> {
    repeated(TokenView::Dedent, column, (levels.len() - 1) as nat)
}

/// The start of a line leaves the levels well-formed. A line that is not deeper than the
/// current level closes exactly the levels that are wider than it: what stays is the part of
/// the old levels up to the last one that is no wider than the line.
pub proof fn lemma_levels_after(levels: Seq<usize>, width: usize)
    requires
        levels_wf(levels),
    ensures
        levels_wf(levels_after(levels, width)),
        dedent_count(levels, width) < levels.len(),
        width <= levels.last() ==> levels_after(levels, width).last() <= width,
        width <= levels.last() ==> forall|i: int|
            levels.len() - dedent_count(levels, width) <= i < levels.len() ==> width
                < #[trigger] levels[i],
    decreases levels.len(),
{
    if levels.len() > 1 && width < levels.last() {
        let shorter = levels.drop_last();
        assert(levels_wf(shorter));
        lemma_levels_after(shorter, width);
        assert(levels.take(levels.len() - dedent_count(levels, width)) =~= shorter.take(
            shorter.len() - dedent_count(shorter, width),
        ));
        assert forall|i: int|
            levels.len() - dedent_count(levels, width) <= i < levels.len() implies width
            < #[trigger] levels[i] by {
            if i < shorter.len() {
                assert(shorter[i] == levels[i]);
            }
        }
    } else if width <= levels.last() {
        assert(levels.take(levels.len() as int) =~= levels);
    } else {
        let deeper = levels.push(width);
        assert forall|i: int, j: int| 0 <= i < j < deeper.len() implies deeper[i] < deeper[j] by {
            if j == levels.len() {
                if i < levels.len() - 1 {
                    assert(levels[i] < levels[levels.len() - 1]);
                }
            }
        }
    }
}

/// Appends `token`, met at `column`, to the scanner's output.
pub fn emit(out: &mut Vec<(Token, usize)>, token: Token, column: usize)
    ensures
        final(out).deep_view() == old(out).deep_view().push((token@, column)),
{
    out.push((token, column));
    assert(out.deep_view() =~= old(out).deep_view().push((token@, column)));
}

/// The indentation of the line being scanned and of the blocks around it.
pub struct Indentation {
    enclosing: Vec<usize>,
    current: usize,
}

impl Indentation {
    /// The widths of the open blocks, outermost first, the current one last.
    pub closed spec fn levels(&self) -> Seq<usize> {
        self.enclosing@.push(self.current)
    }

    /// The widths start at 0 and grow strictly.
    pub open spec fn wf(&self) -> bool {
        levels_wf(self.levels())
    }

    /// The tracker before the first line: one level, of width 0.
    pub fn new() -> (r: Indentation)
        ensures
            r.wf(),
            r.levels() == seq![0usize],
    {
        let r = Indentation { enclosing: Vec::new(), current: 0 };
        assert(r.levels() =~= seq![0usize]);
        r
    }

    /// The width of the current block.
    pub fn current(&self) -> (r: usize)
        ensures
            r == self.levels().last(),
    {
        self.current
    }

    /// How many blocks are open around the outermost level.
    pub fn depth(&self) -> (r: usize)
        ensures
            r == self.levels().len() - 1,
    {
        self.enclosing.len()
    }

    /// Opens a block of `width`, which must be deeper than the current one.
    pub fn indent(&mut self, width: usize)
        requires
            old(self).wf(),
            width > old(self).levels().last(),
        ensures
            final(self).wf(),
            final(self).levels() == old(self).levels().push(width),
    {
        proof {
            lemma_levels_after(self.levels(), width);
        }
        self.enclosing.push(self.current);
        self.current = width;
    }

    /// Closes the current block and returns to the width of the one around it. With no block
    /// open there is nothing to return to: the tracker stays as it is and reports an underflow.
    pub fn dedent(&mut self) -> (r: Result<(), FatalError>)
        ensures
            match r {
                Ok(_) => old(self).levels().len() > 1 && final(self).levels() == old(
                    self,
                ).levels().drop_last(),
                Err(e) => e == FatalError::IndentationUnderflow && old(self).levels().len() == 1
                    && final(self).levels() == old(self).levels(),
            },
    {
        match self.enclosing.pop() {
            Some(width) => {
                self.current = width;
                assert(self.levels() =~= old(self).levels().drop_last());
                Ok(())
            },
            None => Err(FatalError::IndentationUnderflow),
        }
    }

    /// Takes note of a line that starts with `width` spaces, and appends to `out` the layout
    /// tokens that it gives rise to, each at column `width`. A well-formed tracker never
    /// underflows here.
    pub fn begin_line(&mut self, width: usize, out: &mut Vec<(Token, usize)>) -> (r: Result<
        (),
        FatalError,
    >)
        requires
            old(self).wf(),
        ensures
            r is Ok,
            final(self).wf(),
            final(self).levels() == levels_after(old(self).levels(), width),
            final(out).deep_view() == old(out).deep_view() + layout_tokens(
                old(self).levels(),
                width,
            ),
    {
        if width > self.current {
            emit(out, Token::Indent, width);
            self.indent(width);
            assert(out.deep_view() =~= old(out).deep_view() + layout_tokens(
                old(self).levels(),
                width,
            ));
            return Ok(());
        }
        let ghost before = self.levels();
        let ghost mut closed: nat = 0;
        proof {
            lemma_levels_after(before, width);
            assert(old(out).deep_view() + repeated(TokenView::Dedent, width, 0) =~= old(
                out,
            ).deep_view());
        }
        while width < self.current
            invariant
                self.wf(),
                before == old(self).levels(),
                levels_wf(before),
                width <= before.last(),
                closed + dedent_count(self.levels(), width) == dedent_count(before, width),
                closed + self.levels().len() == before.len(),
                self.levels() == before.take(self.levels().len() as int),
                out.deep_view() == old(out).deep_view() + repeated(
                    TokenView::Dedent,
                    width,
                    closed,
                ),
            decreases self.levels().len(),
        {
            let ghost open = self.levels();
            let ghost emitted = out.deep_view();
            emit(out, Token::Dedent, width);
            match self.dedent() {
                Ok(_) => {},
                Err(e) => {
                    return Err(e);
                },
            }
            proof {
                closed = closed + 1;
                assert(levels_wf(open.drop_last()));
                assert(open.drop_last() =~= before.take(open.len() - 1));
                assert(emitted.push((TokenView::Dedent, width)) =~= old(out).deep_view()
                    + repeated(TokenView::Dedent, width, closed));
            }
        }
        proof {
            assert(before.take(before.len() - dedent_count(before, width)) =~= self.levels());
        }
        Ok(())
    }

    /// Closes every open block at the end of the input, and appends one `Dedent` at `column`
    /// for each to `out`. A well-formed tracker never underflows here.
    pub fn flush(&mut self, column: usize, out: &mut Vec<(Token, usize)>) -> (r: Result<
        (),
        FatalError,
    >)
        requires
            old(self).wf(),
        ensures
            r is Ok,
            final(self).wf(),
            final(self).levels() == seq![0usize],
            final(out).deep_view() == old(out).deep_view() + flush_tokens(
                old(self).levels(),
                column,
            ),
    {
        let ghost before = self.levels();
        let ghost mut closed: nat = 0;
        proof {
            assert(old(out).deep_view() + repeated(TokenView::Dedent, column, 0) =~= old(
                out,
            ).deep_view());
        }
        while self.current > 0
            invariant
                self.wf(),
                before == old(self).levels(),
                closed + self.levels().len() == before.len(),
                out.deep_view() == old(out).deep_view() + repeated(
                    TokenView::Dedent,
                    column,
                    closed,
                ),
            decreases self.levels().len(),
        {
            let ghost open = self.levels();
            let ghost emitted = out.deep_view();
            emit(out, Token::Dedent, column);
            match self.dedent() {
                Ok(_) => {},
                Err(e) => {
                    return Err(e);
                },
            }
            proof {
                closed = closed + 1;
                assert(levels_wf(open.drop_last()));
                assert(emitted.push((TokenView::Dedent, column)) =~= old(out).deep_view()
                    + repeated(TokenView::Dedent, column, closed));
            }
        }
        proof {
            let open = self.levels();
            if open.len() > 1 {
                assert(open[0] < open[open.len() - 1]);
            }
            assert(open =~= seq![0usize]);
        }
        Ok(())
    }
}

impl Default for Indentation {
    fn default() -> (r: Indentation)
        ensures
            r.wf(),
            r.levels() == seq![0usize],
    {
        Indentation::new()
    }
}

} // verus!
