//! The scan loop: from characters to tokens with their columns.

use crate::chars::{classify, lead, CharClass, Lead};
use crate::error::FatalError;
use crate::indent::{
    emit, flush_tokens, layout_tokens, levels_after, lemma_levels_after, levels_wf, Indentation,
    RawView,
};
use crate::laws::{count_of, lemma_scan_balance, lemma_scan_never_underflows};
use crate::lexer::{
    column_at, number_end, number_start, number_token, operator_end, string_literal, word_end,
    word_token, Lexer,
};
use crate::text::{lemma_run_end, run_end};
use crate::token::{Token, TokenView, TypeView};
use vstd::prelude::*;

verus! {

/// What one turn of the scan loop does: the tokens it emits, where it leaves the cursor, and
/// the indentation levels that are open behind it.
pub struct Step {
    pub emitted: Seq<RawView>,
    pub next: int,
    pub levels: Seq<usize>,
}

/// One turn of the scan loop at `pos`, which lies inside `s`. The character there decides:
/// a space is skipped; a line feed gives `Newline` and the layout tokens of the line behind
/// it; a digit or `-` starts a number; a letter a word; `#` a comment, which gives no token;
/// `"` a string literal; anything else an operator. Each token carries the column of its first
/// character, the layout tokens that of the first character behind the leading spaces.
pub open spec fn step(s: Seq<char>, pos: int, levels: Seq<usize>) -> Result<Step, FatalError> {
    let column = column_at(s, pos) as usize;
    match lead(s[pos]) {
        Lead::Space => Ok(Step { emitted: Seq::empty(), next: pos + 1, levels }),
        Lead::LineFeed => {
            let end = run_end(s, pos + 1, CharClass::Space);
            let width = (end - (pos + 1)) as usize;
            Ok(
                Step {
                    emitted: seq![(TokenView::Newline, 0usize)] + layout_tokens(levels, width),
                    next: end,
                    levels: levels_after(levels, width),
                },
            )
        },
        Lead::Number => match number_token(s, pos) {
            Ok(token) => Ok(
                Step { emitted: seq![(token, column)], next: number_end(s, pos), levels },
            ),
            Err(e) => Err(e),
        },
        Lead::Word => {
            let end = word_end(s, pos);
            Ok(
                Step {
                    emitted: seq![(word_token(s.subrange(pos, end)), column)],
                    next: end,
                    levels,
                },
            )
        },
        Lead::Comment => Ok(
            Step {
                emitted: Seq::empty(),
                next: run_end(s, pos + 1, CharClass::CommentBody),
                levels,
            },
        ),
        Lead::Quote => match string_literal(s, pos + 1) {
            Some((body, end)) => Ok(
                Step {
                    emitted: seq![(TokenView::Constant(TypeView::String(body)), column)],
                    next: end,
                    levels,
                },
            ),
            None => Err(FatalError::UnterminatedString),
        },
        Lead::Operator => {
            let end = operator_end(s, pos);
            if end == pos {
                Err(FatalError::UnexpectedCharacter)
            } else {
                Ok(
                    Step {
                        emitted: seq![(TokenView::Operator(s.subrange(pos, end)), column)],
                        next: end,
                        levels,
                    },
                )
            }
        },
    }
}

/// Puts the tokens `done` before the outcome of scanning the rest.
pub open spec fn after(done: Seq<RawView>, rest: Result<Seq<RawView>, FatalError>) -> Result<
    Seq<RawView>,
    FatalError,
> {
    match rest {
        Ok(tokens) => Ok(done + tokens),
        Err(e) => Err(e),
    }
}

/// The tokens that scanning `s` from `pos` on emits, with `levels` open at `pos`: those of one
/// turn after the other, and at the end of the text one `Dedent` for every block still open.
/// The first turn that fails is the outcome of the whole scan.
pub open spec fn scan_from(s: Seq<char>, pos: int, levels: Seq<usize>) -> Result<
    Seq<RawView>,
    FatalError,
>
    decreases s.len() - pos,
    via scan_from_terminates
{
    if pos < 0 || pos >= s.len() {
        Ok(flush_tokens(levels, column_at(s, s.len() as int) as usize))
    } else {
        match step(s, pos, levels) {
            Err(e) => Err(e),
            Ok(turn) => after(turn.emitted, scan_from(s, turn.next, turn.levels)),
        }
    }
}

#[via_fn]
proof fn scan_from_terminates(s: Seq<char>, pos: int, levels: Seq<usize>) {
    if 0 <= pos < s.len() {
        lemma_step_advances(s, pos, levels);
    }
}

/// The raw tokens of a whole text.
pub open spec fn raw_tokens(s: Seq<char>) -> Result<Seq<RawView>, FatalError> {
    scan_from(s, 0, seq![0usize])
}

/// The string literal behind an opening quote ends behind the quote.
pub proof fn lemma_string_literal_end(s: Seq<char>, pos: int)
    requires
        0 <= pos,
    ensures
        string_literal(s, pos) matches Some((_, end)) ==> pos < end <= s.len(),
    decreases s.len() - pos,
{
    if pos < s.len() && s[pos] != '\n' && s[pos] != '"' {
        if s[pos] == '\\' {
            if pos + 1 < s.len() && s[pos + 1] != '\n' {
                lemma_string_literal_end(s, pos + 2);
            }
        } else {
            lemma_string_literal_end(s, pos + 1);
        }
    }
}

/// Every turn that succeeds moves the cursor forward, stays inside the text and keeps
/// well-formed indentation levels well-formed.
pub proof fn lemma_step_advances(s: Seq<char>, pos: int, levels: Seq<usize>)
    requires
        0 <= pos < s.len(),
    ensures
        step(s, pos, levels) matches Ok(turn) ==> pos < turn.next <= s.len() && (levels_wf(levels)
            ==> levels_wf(turn.levels)),
{
    match lead(s[pos]) {
        Lead::Space => {},
        Lead::LineFeed => {
            lemma_run_end(s, pos + 1, CharClass::Space);
            let width = (run_end(s, pos + 1, CharClass::Space) - (pos + 1)) as usize;
            if levels_wf(levels) {
                lemma_levels_after(levels, width);
            }
        },
        Lead::Number => {
            let first = number_start(s, pos);
            lemma_run_end(s, first, CharClass::Digit);
            let mark = run_end(s, first, CharClass::Digit);
            if mark < s.len() {
                lemma_run_end(s, mark + 1, CharClass::Digit);
            }
        },
        Lead::Word => {
            lemma_run_end(s, pos + 1, CharClass::IdentifierPart);
        },
        Lead::Comment => {
            lemma_run_end(s, pos + 1, CharClass::CommentBody);
        },
        Lead::Quote => {
            lemma_string_literal_end(s, pos + 1);
        },
        Lead::Operator => {
            lemma_run_end(s, pos, CharClass::OperatorPart);
        },
    }
}

/// Where a turn that fails leaves the cursor: behind the lexeme of a malformed number, at the
/// end of the line of an unterminated string, and before an unexpected character.
pub open spec fn step_stop(s: Seq<char>, pos: int) -> int {
    match lead(s[pos]) {
        Lead::Number => number_end(s, pos),
        Lead::Quote => run_end(s, pos + 1, CharClass::CommentBody),
        _ => pos,
    }
}

/// Where a scan from `pos` on leaves the cursor: at the end of the text if it succeeds, else
/// where the turn that failed left it.
pub open spec fn scan_stop(s: Seq<char>, pos: int, levels: Seq<usize>) -> int
    decreases s.len() - pos,
    via scan_stop_terminates
{
    if pos < 0 || pos >= s.len() {
        pos
    } else {
        match step(s, pos, levels) {
            Err(_) => step_stop(s, pos),
            Ok(turn) => scan_stop(s, turn.next, turn.levels),
        }
    }
}

#[via_fn]
proof fn scan_stop_terminates(s: Seq<char>, pos: int, levels: Seq<usize>) {
    if 0 <= pos < s.len() {
        lemma_step_advances(s, pos, levels);
    }
}

impl Lexer {
    /// Takes one turn of the scan loop: reads what starts at the cursor, appends the tokens
    /// that it gives to `out`, and lets `layout` follow the indentation when a line ends.
    /// Returns `false`, and changes nothing, when the input is exhausted.
    pub fn scan_step(&mut self, layout: &mut Indentation, out: &mut Vec<(Token, usize)>) -> (r:
        Result<bool, FatalError>)
        requires
            old(self).wf(),
            old(layout).wf(),
        ensures
            final(self).wf(),
            final(layout).wf(),
            final(self).source() == old(self).source(),
            old(self).offset() >= old(self).source().len() ==> r == Ok::<bool, FatalError>(false)
                && final(self).offset() == old(self).offset() && final(layout).levels() == old(
                layout,
            ).levels() && final(out).deep_view() == old(out).deep_view(),
            old(self).offset() < old(self).source().len() ==> match step(
                old(self).source(),
                old(self).offset(),
                old(layout).levels(),
            ) {
                Ok(turn) => r == Ok::<bool, FatalError>(true) && final(self).offset() == turn.next
                    && final(layout).levels() == turn.levels && final(out).deep_view() == old(
                    out,
                ).deep_view() + turn.emitted,
                Err(e) => r == Err::<bool, FatalError>(e) && final(self).offset() == step_stop(
                    old(self).source(),
                    old(self).offset(),
                ) && final(layout).levels() == old(layout).levels() && final(out).deep_view()
                    == old(out).deep_view(),
            },
    {
        let ghost s = self.source();
        let ghost pos = self.offset();
        let ghost levels = layout.levels();
        let ghost done = out.deep_view();
        proof {
            self.lemma_wf();
            if pos < s.len() {
                lemma_step_advances(s, pos, levels);
            }
        }
        let column: usize = self.column();
        let c: char = match self.peek() {
            Some(c) => c,
            None => {
                return Ok(false);
            },
        };
        match classify(c) {
            Lead::Space => {
                self.advance();
                proof {
                    assert(done + Seq::<RawView>::empty() =~= done);
                }
            },
            Lead::LineFeed => {
                self.advance();
                emit(out, Token::Newline, self.column());
                let width: usize = self.skip_run(CharClass::Space);
                match layout.begin_line(width, out) {
                    Ok(_) => {},
                    Err(e) => {
                        return Err(e);
                    },
                }
                proof {
                    assert(out.deep_view() =~= done + step(s, pos, levels)->Ok_0.emitted);
                }
            },
            Lead::Number => {
                let token = match self.consume_number() {
                    Ok(token) => token,
                    Err(e) => {
                        return Err(e);
                    },
                };
                emit(out, token, column);
                proof {
                    assert(out.deep_view() =~= done + step(s, pos, levels)->Ok_0.emitted);
                }
            },
            Lead::Word => {
                let token = self.consume_identifier();
                emit(out, token, column);
                proof {
                    assert(out.deep_view() =~= done + step(s, pos, levels)->Ok_0.emitted);
                }
            },
            Lead::Comment => {
                self.advance();
                self.consume_comment();
                proof {
                    assert(done + Seq::<RawView>::empty() =~= done);
                }
            },
            Lead::Quote => {
                self.advance();
                let token = match self.consume_string_literal() {
                    Ok(token) => token,
                    Err(e) => {
                        return Err(e);
                    },
                };
                emit(out, token, column);
                proof {
                    assert(out.deep_view() =~= done + step(s, pos, levels)->Ok_0.emitted);
                }
            },
            Lead::Operator => {
                let token = match self.consume_operator() {
                    Ok(token) => token,
                    Err(e) => {
                        return Err(e);
                    },
                };
                emit(out, token, column);
                proof {
                    assert(out.deep_view() =~= done + step(s, pos, levels)->Ok_0.emitted);
                }
            },
        }
        Ok(true)
    }

    /// Scans the rest of the input into tokens with their columns, `Newline`, `Indent` and
    /// `Dedent` among them. The indentation starts afresh at width 0. The first malformed
    /// number, unterminated string or unexpected character ends the scan: nothing of what was
    /// read before it is returned, and the cursor stays where that turn left it.
    pub fn scan(&mut self) -> (r: Result<Vec<(Token, usize)>, FatalError>)
        requires
            old(self).wf(),
        ensures
            final(self).wf(),
            final(self).source() == old(self).source(),
            final(self).offset() == scan_stop(
                old(self).source(),
                old(self).offset(),
                seq![0usize],
            ),
            r is Ok ==> final(self).offset() == old(self).source().len(),
            match r {
                Ok(tokens) => scan_from(old(self).source(), old(self).offset(), seq![0usize])
                    == Ok::<Seq<RawView>, FatalError>(tokens.deep_view()),
                Err(e) => scan_from(old(self).source(), old(self).offset(), seq![0usize]) == Err::<
                    Seq<RawView>,
                    FatalError,
                >(e),
            },
            r matches Ok(tokens) ==> count_of(tokens.deep_view(), TokenView::Indent) == count_of(
                tokens.deep_view(),
                TokenView::Dedent,
            ),
            r matches Err(e) ==> e != FatalError::IndentationUnderflow,
    {
        let mut out: Vec<(Token, usize)> = Vec::new();
        let mut layout = Indentation::new();
        let ghost s = self.source();
        let ghost start = self.offset();
        proof {
            self.lemma_wf();
            assert(out.deep_view() =~= Seq::<RawView>::empty());
            assert(after(out.deep_view(), scan_from(s, start, layout.levels())) =~= scan_from(
                s,
                start,
                layout.levels(),
            ));
        }
        loop
            invariant
                self.wf(),
                layout.wf(),
                self.source() == s,
                s == old(self).source(),
                start == old(self).offset(),
                0 <= self.offset() <= s.len(),
                scan_from(s, start, seq![0usize]) == after(
                    out.deep_view(),
                    scan_from(s, self.offset(), layout.levels()),
                ),
                scan_stop(s, start, seq![0usize]) == scan_stop(
                    s,
                    self.offset(),
                    layout.levels(),
                ),
            decreases s.len() - self.offset(),
        {
            let ghost pos = self.offset();
            let ghost levels = layout.levels();
            let ghost done = out.deep_view();
            proof {
                self.lemma_wf();
                if pos < s.len() {
                    lemma_step_advances(s, pos, levels);
                }
                lemma_scan_balance(s, start, seq![0usize]);
                lemma_scan_never_underflows(s, start, seq![0usize]);
            }
            match self.scan_step(&mut layout, &mut out) {
                Err(e) => {
                    return Err(e);
                },
                Ok(false) => {
                    let column: usize = self.column();
                    match layout.flush(column, &mut out) {
                        Ok(_) => {},
                        Err(e) => {
                            return Err(e);
                        },
                    }
                    return Ok(out);
                },
                Ok(true) => {
                    proof {
                        let turn = step(s, pos, levels)->Ok_0;
                        lemma_after_assoc(done, turn.emitted, scan_from(s, turn.next, turn.levels));
                    }
                },
            }
        }
    }
}

/// Tokens emitted first may be put in front in one go or in two.
pub proof fn lemma_after_assoc(
    done: Seq<RawView>,
    more: Seq<RawView>,
    rest: Result<Seq<RawView>, FatalError>,
)
    ensures
        after(done, after(more, rest)) == after(done + more, rest),
{
    if let Ok(tokens) = rest {
        assert(done + (more + tokens) =~= (done + more) + tokens);
    }
}

} // verus!
