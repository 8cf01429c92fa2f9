//! What holds of every scan.

use crate::error::FatalError;
use crate::indent::{
    dedent_count, flush_tokens, layout_tokens, lemma_levels_after, levels_wf, repeated, RawView,
};
use crate::scan::{after, lemma_step_advances, raw_tokens, scan_from, step};
use crate::tagger::{is_assignment, symbols_before, tagged, tagged_at};
use crate::token::TokenView;
use crate::validate::{
    adjacency_violation, needs_identifier_before, validated, validated_upto, window_output,
};
use vstd::prelude::*;

verus! {

/// How many of the raw tokens are `kind`.
pub open spec fn count_of(raw: Seq<RawView>, kind: TokenView) -> nat
    decreases raw.len(),
{
    if raw.len() == 0 {
        0
    } else {
        count_of(raw.drop_last(), kind) + if raw.last().0 == kind {
            1nat
        } else {
            0nat
        }
    }
}

/// Counting over a concatenation adds up.
pub proof fn lemma_count_concat(a: Seq<RawView>, b: Seq<RawView>, kind: TokenView)
    ensures
        count_of(a + b, kind) == count_of(a, kind) + count_of(b, kind),
    decreases b.len(),
{
    if b.len() == 0 {
        assert(a + b =~= a);
    } else {
        assert((a + b).drop_last() =~= a + b.drop_last());
        assert((a + b).last() == b.last());
        lemma_count_concat(a, b.drop_last(), kind);
    }
}

/// A run of one token holds that token as often as it is long, and no other.
pub proof fn lemma_count_repeated(token: TokenView, column: usize, count: nat, kind: TokenView)
    ensures
        count_of(repeated(token, column, count), kind) == if token == kind {
            count
        } else {
            0
        },
    decreases count,
{
    if count > 0 {
        let run = repeated(token, column, count);
        assert(run.drop_last() =~= repeated(token, column, (count - 1) as nat));
        lemma_count_repeated(token, column, (count - 1) as nat, kind);
    }
}

/// What one turn emits opens and closes as many blocks as its levels say: the `Indent` tokens
/// and the levels before add up to the `Dedent` tokens and the levels after.
pub proof fn lemma_step_balance(s: Seq<char>, pos: int, levels: Seq<usize>)
    requires
        0 <= pos < s.len(),
        levels_wf(levels),
    ensures
        step(s, pos, levels) matches Ok(turn) ==> count_of(turn.emitted, TokenView::Indent)
            + levels.len() == count_of(turn.emitted, TokenView::Dedent) + turn.levels.len(),
{
    if let Ok(turn) = step(s, pos, levels) {
        if crate::chars::lead(s[pos]) == crate::chars::Lead::LineFeed {
            let end = crate::text::run_end(s, pos + 1, crate::chars::CharClass::Space);
            let width = (end - (pos + 1)) as usize;
            let line = seq![(TokenView::Newline, 0usize)];
            let layout = layout_tokens(levels, width);
            lemma_levels_after(levels, width);
            lemma_count_concat(line, layout, TokenView::Indent);
            lemma_count_concat(line, layout, TokenView::Dedent);
            lemma_count_single(line[0], TokenView::Indent);
            lemma_count_single(line[0], TokenView::Dedent);
            if width > levels.last() {
                lemma_count_single(layout[0], TokenView::Indent);
                lemma_count_single(layout[0], TokenView::Dedent);
            } else {
                lemma_count_repeated(
                    TokenView::Dedent,
                    width,
                    dedent_count(levels, width),
                    TokenView::Indent,
                );
                lemma_count_repeated(
                    TokenView::Dedent,
                    width,
                    dedent_count(levels, width),
                    TokenView::Dedent,
                );
            }
        } else if turn.emitted.len() == 1 {
            lemma_count_single(turn.emitted[0], TokenView::Indent);
            lemma_count_single(turn.emitted[0], TokenView::Dedent);
        } else {
            assert(turn.emitted.len() == 0);
        }
    }
}

/// A single token counts once if it is of the kind asked for.
pub proof fn lemma_count_single(token: RawView, kind: TokenView)
    ensures
        count_of(seq![token], kind) == if token.0 == kind {
            1nat
        } else {
            0nat
        },
{
    let one = seq![token];
    assert(one.drop_last() =~= Seq::<RawView>::empty());
    assert(count_of(one.drop_last(), kind) == 0);
    assert(one.last() == token);
}

/// From any point of a scan on, the `Indent` tokens still to come and the blocks open at that
/// point add up to the `Dedent` tokens still to come.
pub proof fn lemma_scan_balance(s: Seq<char>, pos: int, levels: Seq<usize>)
    requires
        levels_wf(levels),
    ensures
        scan_from(s, pos, levels) matches Ok(raw) ==> count_of(raw, TokenView::Indent)
            + levels.len() - 1 == count_of(raw, TokenView::Dedent),
    decreases s.len() - pos,
{
    if pos < 0 || pos >= s.len() {
        let column = crate::lexer::column_at(s, s.len() as int) as usize;
        lemma_count_repeated(
            TokenView::Dedent,
            column,
            (levels.len() - 1) as nat,
            TokenView::Indent,
        );
        lemma_count_repeated(
            TokenView::Dedent,
            column,
            (levels.len() - 1) as nat,
            TokenView::Dedent,
        );
    } else if let Ok(turn) = step(s, pos, levels) {
        lemma_step_advances(s, pos, levels);
        lemma_step_balance(s, pos, levels);
        lemma_scan_balance(s, turn.next, turn.levels);
        if let Ok(rest) = scan_from(s, turn.next, turn.levels) {
            lemma_count_concat(turn.emitted, rest, TokenView::Indent);
            lemma_count_concat(turn.emitted, rest, TokenView::Dedent);
        }
    }
}

/// Every scan that succeeds emits as many `Indent` tokens as `Dedent` tokens, those that close
/// the open blocks at the end of the input included.
pub proof fn lemma_indents_match_dedents(s: Seq<char>)
    ensures
        raw_tokens(s) matches Ok(raw) ==> count_of(raw, TokenView::Indent) == count_of(
            raw,
            TokenView::Dedent,
        ),
{
    lemma_scan_balance(s, 0, seq![0usize]);
}

/// No scan ends in an indentation underflow: the blocks that a line closes were all opened.
pub proof fn lemma_scan_never_underflows(s: Seq<char>, pos: int, levels: Seq<usize>)
    requires
        levels_wf(levels),
    ensures
        scan_from(s, pos, levels) != Err::<Seq<RawView>, FatalError>(
            FatalError::IndentationUnderflow,
        ),
    decreases s.len() - pos,
{
    if 0 <= pos < s.len() {
        if let Ok(turn) = step(s, pos, levels) {
            lemma_step_advances(s, pos, levels);
            lemma_scan_never_underflows(s, turn.next, turn.levels);
        }
    }
}

/// The empty text scans to no tokens.
pub proof fn lemma_empty_text()
    ensures
        crate::tokens_of(Seq::<char>::empty()) == Ok::<Seq<TokenView>, FatalError>(Seq::empty()),
{
    let s = Seq::<char>::empty();
    let raw = flush_tokens(seq![0usize], crate::lexer::column_at(s, 0) as usize);
    assert(raw =~= Seq::<RawView>::empty());
    assert(scan_from(s, 0, seq![0usize]) == Ok::<Seq<RawView>, FatalError>(raw));
    assert(validated(raw) =~= Seq::<TokenView>::empty());
    assert(tagged(validated(raw)) =~= Seq::<TokenView>::empty());
}

/// Tagging changes identifiers only, and only into variables of the same name.
pub proof fn lemma_tagged_at_kind(tokens: Seq<TokenView>, i: int)
    requires
        0 <= i < tokens.len(),
    ensures
        tagged_at(tokens, i) == tokens[i] || (tokens[i] matches TokenView::Identifier(name)
            && tagged_at(tokens, i) matches TokenView::Variable(_, tagged_name) && tagged_name
            == name),
        is_assignment(tokens, i) ==> tagged_at(tokens, i) is Variable,
{
}

/// A tagged sequence holds no assignment of a constant to an identifier any more.
pub proof fn lemma_tagged_has_no_assignment(tokens: Seq<TokenView>, i: int)
    ensures
        !is_assignment(tagged(tokens), i),
{
    let once = tagged(tokens);
    if 0 <= i && i + 2 < once.len() {
        lemma_tagged_at_kind(tokens, i);
        lemma_tagged_at_kind(tokens, i + 1);
        lemma_tagged_at_kind(tokens, i + 2);
    }
}

/// In a tagged sequence no name has a known type at any point.
pub proof fn lemma_tagged_knows_nothing(tokens: Seq<TokenView>, i: int)
    ensures
        symbols_before(tagged(tokens), i) == Map::<Seq<char>, crate::token::TypeView>::empty(),
    decreases i,
{
    if i > 0 {
        lemma_tagged_knows_nothing(tokens, i - 1);
        lemma_tagged_has_no_assignment(tokens, i - 1);
    }
}

/// Tagging is idempotent: tagging a tagged sequence changes nothing.
pub proof fn lemma_tagging_idempotent(tokens: Seq<TokenView>)
    ensures
        tagged(tagged(tokens)) == tagged(tokens),
{
    let once = tagged(tokens);
    assert forall|i: int| 0 <= i < once.len() implies tagged_at(once, i) == once[i] by {
        lemma_tagged_knows_nothing(tokens, i);
        lemma_tagged_has_no_assignment(tokens, i);
    }
    assert(tagged(once) =~= once);
}

/// Tagging neither adds nor removes tokens, and makes no token structural or an error that
/// was not one before.
pub proof fn lemma_tagging_keeps_kinds(tokens: Seq<TokenView>)
    ensures
        tagged(tokens).len() == tokens.len(),
        forall|i: int|
            0 <= i < tokens.len() ==> (#[trigger] tagged(tokens)[i]).is_structural()
                == tokens[i].is_structural(),
        forall|i: int|
            0 <= i < tokens.len() ==> (#[trigger] tagged(tokens)[i] is LexicalError)
                == (tokens[i] is LexicalError),
{
    assert forall|i: int| 0 <= i < tokens.len() implies (#[trigger] tagged(
        tokens,
    )[i]).is_structural() == tokens[i].is_structural() && (tagged(tokens)[i] is LexicalError)
        == (tokens[i] is LexicalError) by {
        lemma_tagged_at_kind(tokens, i);
    }
}

/// What examining one raw token adds to the output holds no structural token.
pub proof fn lemma_window_not_structural(raw: Seq<RawView>, k: int)
    ensures
        forall|i: int|
            0 <= i < window_output(raw, k).len() ==> !(#[trigger] window_output(
                raw,
                k,
            )[i]).is_structural(),
{
}

/// The first `n` raw tokens validate to a sequence without structural tokens.
pub proof fn lemma_validated_upto_not_structural(raw: Seq<RawView>, n: int)
    ensures
        forall|i: int|
            0 <= i < validated_upto(raw, n).len() ==> !(#[trigger] validated_upto(
                raw,
                n,
            )[i]).is_structural(),
    decreases n,
{
    if n > 0 {
        lemma_validated_upto_not_structural(raw, n - 1);
        lemma_window_not_structural(raw, n - 1);
        let before = validated_upto(raw, n - 1);
        let added = window_output(raw, n - 1);
        let out = validated_upto(raw, n);
        assert forall|i: int| 0 <= i < out.len() implies !(#[trigger] out[i]).is_structural() by {
            if i < before.len() {
                assert(out[i] == before[i]);
            } else {
                assert(out[i] == added[i - before.len()]);
            }
        }
    }
}

/// No `Indent`, `Dedent` or `Newline` is among the tokens that a scan returns.
pub proof fn lemma_output_not_structural(s: Seq<char>, i: int)
    requires
        crate::tokens_of(s) is Ok,
        0 <= i < crate::tokens_of(s)->Ok_0.len(),
    ensures
        !crate::tokens_of(s)->Ok_0[i].is_structural(),
{
    let raw = raw_tokens(s)->Ok_0;
    lemma_validated_upto_not_structural(raw, raw.len() as int);
    lemma_tagging_keeps_kinds(validated(raw));
}

/// Whether, in `out`, every operator other than `:`, `)`, `]` stands behind an identifier, or
/// a finding was made about the token before it: the finding stands right before the
/// operator, or before the token that the operator follows.
pub open spec fn adjacency_holds(out: Seq<TokenView>) -> bool {
    forall|j: int|
        1 <= j < out.len() && needs_identifier_before(#[trigger] out[j]) ==> {
            ||| out[j - 1] is Identifier
            ||| out[j - 1] is LexicalError
            ||| (j >= 2 && out[j - 2] is LexicalError)
        }
}

/// Before an operator that wants an identifier before it, the output ends with that
/// identifier or with the finding about the token that stands there instead.
pub proof fn lemma_output_before_operator(raw: Seq<RawView>, n: int)
    requires
        1 <= n < raw.len(),
        needs_identifier_before(raw[n].0),
    ensures
        ({
            let out = validated_upto(raw, n);
            &&& out.len() >= 1
            &&& {
                ||| out.last() is Identifier
                ||| out.last() is LexicalError
                ||| (out.len() >= 2 && out[out.len() - 2] is LexicalError)
            }
        }),
{
    let before = validated_upto(raw, n - 1);
    let added = window_output(raw, n - 1);
    let out = validated_upto(raw, n);
    assert(out == before + added);
    if raw[n - 1].0 is Identifier {
        assert(added.len() >= 1);
        assert(added.last() == raw[n - 1].0);
        assert(out.last() == added.last());
    } else {
        assert(adjacency_violation(raw, n - 1));
        if raw[n - 1].0.is_structural() {
            assert(added.last() is LexicalError);
            assert(out.last() == added.last());
        } else {
            assert(added.len() >= 2);
            assert(added[added.len() - 2] is LexicalError);
            assert(out[out.len() - 2] == added[added.len() - 2]);
        }
    }
}

/// The adjacency rule holds of the output for the first `n` raw tokens.
pub proof fn lemma_adjacency_upto(raw: Seq<RawView>, n: int)
    requires
        0 <= n <= raw.len(),
    ensures
        adjacency_holds(validated_upto(raw, n)),
    decreases n,
{
    if n > 0 {
        lemma_adjacency_upto(raw, n - 1);
        let before = validated_upto(raw, n - 1);
        let added = window_output(raw, n - 1);
        let out = validated_upto(raw, n);
        assert(out == before + added);
        assert forall|j: int|
            1 <= j < out.len() && needs_identifier_before(#[trigger] out[j]) implies {
            ||| out[j - 1] is Identifier
            ||| out[j - 1] is LexicalError
            ||| (j >= 2 && out[j - 2] is LexicalError)
        } by {
            if j < before.len() {
                assert(out[j] == before[j]);
                assert(out[j - 1] == before[j - 1]);
                if j >= 2 {
                    assert(out[j - 2] == before[j - 2]);
                }
            } else {
                let at = j - before.len();
                assert(out[j] == added[at]);
                assert(at == added.len() - 1);
                assert(added[at] == raw[n - 1].0);
                if at >= 1 {
                    assert(out[j - 1] == added[at - 1]);
                    assert(added[at - 1] is LexicalError);
                } else {
                    assert(n - 1 >= 1) by {
                        if n - 1 == 0 {
                            assert(before.len() == 0);
                        }
                    }
                    lemma_output_before_operator(raw, n - 1);
                    assert(out[j - 1] == before[j - 1]);
                    if j >= 2 {
                        assert(out[j - 2] == before[j - 2]);
                    }
                }
            }
        }
    }
}

/// The adjacency rule holds of every validated sequence: an operator other than `:`, `)`, `]`
/// follows an identifier, or a finding about what it follows instead.
pub proof fn lemma_validated_adjacency(raw: Seq<RawView>)
    ensures
        adjacency_holds(validated(raw)),
{
    lemma_adjacency_upto(raw, raw.len() as int);
}

/// Among the tokens that a scan returns, an operator other than `:`, `)`, `]` follows an
/// identifier, tagged or not, or a finding about what it follows instead.
pub proof fn lemma_output_adjacency(s: Seq<char>, j: int)
    requires
        crate::tokens_of(s) is Ok,
        1 <= j < crate::tokens_of(s)->Ok_0.len(),
        needs_identifier_before(crate::tokens_of(s)->Ok_0[j]),
    ensures
        ({
            let out = crate::tokens_of(s)->Ok_0;
            ||| out[j - 1] is Identifier
            ||| out[j - 1] is Variable
            ||| out[j - 1] is LexicalError
            ||| (j >= 2 && out[j - 2] is LexicalError)
        }),
{
    let checked = validated(raw_tokens(s)->Ok_0);
    lemma_validated_adjacency(raw_tokens(s)->Ok_0);
    lemma_tagged_at_kind(checked, j);
    lemma_tagged_at_kind(checked, j - 1);
    if j >= 2 {
        lemma_tagged_at_kind(checked, j - 2);
    }
    assert(needs_identifier_before(checked[j]));
}

/// The tokens of `out` that are no findings, in order.
pub open spec fn without_findings(out: Seq<TokenView>) -> Seq<TokenView>
    decreases out.len(),
{
    if out.len() == 0 {
        Seq::empty()
    } else if out.last() is LexicalError {
        without_findings(out.drop_last())
    } else {
        without_findings(out.drop_last()).push(out.last())
    }
}

/// Those of the first `n` raw tokens that are neither structural nor findings, in order.
pub open spec fn content_upto(raw: Seq<RawView>, n: int) -> Seq<TokenView>
    decreases n,
{
    if n <= 0 {
        Seq::empty()
    } else if raw[n - 1].0.is_structural() || raw[n - 1].0 is LexicalError {
        content_upto(raw, n - 1)
    } else {
        content_upto(raw, n - 1).push(raw[n - 1].0)
    }
}

/// Leaving the findings out of a concatenation is leaving them out of both parts.
pub proof fn lemma_without_findings_concat(a: Seq<TokenView>, b: Seq<TokenView>)
    ensures
        without_findings(a + b) == without_findings(a) + without_findings(b),
    decreases b.len(),
{
    if b.len() == 0 {
        assert(a + b =~= a);
        assert(without_findings(a) + without_findings(b) =~= without_findings(a));
    } else {
        assert((a + b).drop_last() =~= a + b.drop_last());
        assert((a + b).last() == b.last());
        lemma_without_findings_concat(a, b.drop_last());
        assert((without_findings(a) + without_findings(b.drop_last())).push(b.last())
            =~= without_findings(a) + without_findings(b.drop_last()).push(b.last()));
    }
}

/// What examining raw token `k` adds to the output holds, findings aside, that token alone,
/// and not even that if it is structural or itself a finding.
pub proof fn lemma_window_content(raw: Seq<RawView>, k: int)
    ensures
        without_findings(window_output(raw, k)) == if raw[k].0.is_structural()
            || raw[k].0 is LexicalError {
            Seq::<TokenView>::empty()
        } else {
            seq![raw[k].0]
        },
{
    let line = crate::validate::line_at(raw, k);
    let block = if crate::validate::block_open_violation(raw, k) {
        seq![TokenView::LexicalError(crate::validate::intent_text(line, raw[k + 1].1 as nat))]
    } else {
        Seq::empty()
    };
    let order = if adjacency_violation(raw, k) {
        seq![
            TokenView::LexicalError(
                crate::validate::order_text(line, raw[k + 1].1 as nat, raw[k].0, raw[k + 1].0),
            ),
        ]
    } else {
        Seq::empty()
    };
    let own = if raw[k].0.is_structural() {
        Seq::empty()
    } else {
        seq![raw[k].0]
    };
    lemma_without_findings_concat(block + order, own);
    lemma_without_findings_concat(block, order);
    lemma_without_findings_single(raw[k].0);
    if block.len() > 0 {
        lemma_without_findings_single(block[0]);
    }
    if order.len() > 0 {
        lemma_without_findings_single(order[0]);
    }
    assert(Seq::<TokenView>::empty() + Seq::<TokenView>::empty() =~= Seq::<TokenView>::empty());
    assert(Seq::<TokenView>::empty() + seq![raw[k].0] =~= seq![raw[k].0]);
}

/// A single token is kept unless it is a finding.
pub proof fn lemma_without_findings_single(token: TokenView)
    ensures
        without_findings(seq![token]) == if token is LexicalError {
            Seq::<TokenView>::empty()
        } else {
            seq![token]
        },
{
    let one = seq![token];
    assert(one.drop_last() =~= Seq::<TokenView>::empty());
    assert(without_findings(one.drop_last()) =~= Seq::<TokenView>::empty());
    assert(one.last() == token);
    assert(Seq::<TokenView>::empty().push(token) =~= one);
}

/// The validator loses nothing and invents nothing: findings aside, its output is the raw
/// tokens without the structural ones, in their order.
pub proof fn lemma_validator_keeps_content(raw: Seq<RawView>, n: int)
    requires
        0 <= n <= raw.len(),
    ensures
        without_findings(validated_upto(raw, n)) == content_upto(raw, n),
    decreases n,
{
    if n > 0 {
        lemma_validator_keeps_content(raw, n - 1);
        lemma_without_findings_concat(validated_upto(raw, n - 1), window_output(raw, n - 1));
        lemma_window_content(raw, n - 1);
        let kept = content_upto(raw, n - 1);
        assert(kept + Seq::<TokenView>::empty() =~= kept);
        assert(kept + seq![raw[n - 1].0] =~= kept.push(raw[n - 1].0));
    }
}

} // verus!
