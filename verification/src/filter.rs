//! The result filter: a pure post-pass that hides entries whose report
//! carries a full "OPS" combined score, unless overridden.

use vstd::prelude::*;

use crate::bytes::{bytes_eq, spec_trimmed, trim_bytes};
use crate::report::{
    spec_full_score_text, spec_outcome_is_ops, AnalysisResult, EvaluationReport, EvaluatorOutcome,
    full_score_bytes, ops_kind_bytes,
};

verus! {

/// Whether an outcome is of kind "OPS" with a combined score that equals
/// `"100"` after trimming whitespace.
pub open spec fn spec_outcome_full_ops(o: EvaluatorOutcome) -> bool {
    spec_outcome_is_ops(o) && spec_trimmed(o.combined_score@) == spec_full_score_text()
}

/// Whether `outs` contains an "OPS" outcome whose combined score equals
/// `"100"` after trimming whitespace.
pub open spec fn spec_ops_full(outs: Seq<EvaluatorOutcome>) -> bool {
    exists|j: int| 0 <= j < outs.len() && spec_outcome_full_ops(outs[j])
}

pub open spec fn spec_is_ops_full_score(r: EvaluationReport) -> bool {
    spec_ops_full(r.outcomes@)
}

/// Whether the filter hides `e`: only when full scores are not shown and
/// the report contains a full-score "OPS" outcome.
pub open spec fn spec_entry_hidden(e: AnalysisResult, show_full: bool) -> bool {
    !show_full && spec_is_ops_full_score(e.report)
}

/// The entries of `s` that are not hidden, in their original order.
pub open spec fn spec_filter_results(s: Seq<AnalysisResult>, show_full: bool) -> Seq<
    AnalysisResult,
>
    decreases s.len(),
{
    if s.len() == 0 {
        Seq::empty()
    } else if spec_entry_hidden(s.first(), show_full) {
        spec_filter_results(s.drop_first(), show_full)
    } else {
        seq![s.first()] + spec_filter_results(s.drop_first(), show_full)
    }
}

/// Whether some outcome of `outs` is of kind "OPS".
pub open spec fn spec_has_ops_outcome(outs: Seq<EvaluatorOutcome>) -> bool {
    exists|j: int| 0 <= j < outs.len() && spec_outcome_is_ops(outs[j])
}

/// Whether `report` contains an "OPS" outcome whose combined score is
/// `"100"` after trimming; `false` when no outcome qualifies.
pub fn is_ops_full_score(report: &EvaluationReport) -> (r: bool)
    ensures
        r == spec_is_ops_full_score(*report),
{
    let ops = ops_kind_bytes();
    let full = full_score_bytes();
    let outs = &report.outcomes;
    let mut i: usize = 0;
    while i < outs.len()
        invariant
            i <= outs.len(),
            ops@ == crate::report::spec_ops_kind(),
            full@ == spec_full_score_text(),
            outs == &report.outcomes,
            forall|j: int| 0 <= j < i ==> !spec_outcome_full_ops(outs@[j]),
        decreases outs.len() - i,
    {
        if bytes_eq(&outs[i].kind, &ops) {
            let trimmed = trim_bytes(&outs[i].combined_score);
            if bytes_eq(&trimmed, &full) {
                proof {
                    assert(spec_outcome_full_ops(outs@[i as int]));
                }
                return true;
            }
        }
        i += 1;
    }
    false
}

/// Keeps the entries that are not hidden, in order. With `show_full` set,
/// everything passes through.
pub fn filter_results(entries: Vec<AnalysisResult>, show_full: bool) -> (r: Vec<AnalysisResult>)
    ensures
        r@ == spec_filter_results(entries@, show_full),
{
    let ghost orig = entries@;
    let mut v = entries;
    let mut out: Vec<AnalysisResult> = Vec::new();
    while v.len() > 0
        invariant
            spec_filter_results(orig, show_full) == out@ + spec_filter_results(v@, show_full),
        decreases v.len(),
    {
        let ghost v_before = v@;
        let e = v.remove(0);
        proof {
            assert(v@ =~= v_before.drop_first());
        }
        if show_full || !is_ops_full_score(&e.report) {
            out.push(e);
            proof {
                assert(out@ + spec_filter_results(v@, show_full)
                    =~= spec_filter_results(orig, show_full));
            }
        }
    }
    proof {
        assert(out@ + spec_filter_results(v@, show_full) =~= out@);
    }
    out
}

/// Filtering with one element prepended steps by that element.
proof fn lemma_filter_unfold(e: AnalysisResult, t: Seq<AnalysisResult>, show_full: bool)
    ensures
        spec_filter_results(seq![e] + t, show_full) == if spec_entry_hidden(e, show_full) {
            spec_filter_results(t, show_full)
        } else {
            seq![e] + spec_filter_results(t, show_full)
        },
{
    let s = seq![e] + t;
    assert(s.first() == e);
    assert(s.drop_first() =~= t);
}

/// The filter is idempotent: filtering an already filtered sequence
/// changes nothing.
pub proof fn lemma_filter_idempotent(s: Seq<AnalysisResult>, show_full: bool)
    ensures
        spec_filter_results(spec_filter_results(s, show_full), show_full) == spec_filter_results(
            s,
            show_full,
        ),
    decreases s.len(),
{
    if s.len() > 0 {
        lemma_filter_idempotent(s.drop_first(), show_full);
        if !spec_entry_hidden(s.first(), show_full) {
            lemma_filter_unfold(
                s.first(),
                spec_filter_results(s.drop_first(), show_full),
                show_full,
            );
        }
    }
}

/// The filter preserves order: it distributes over concatenation, so the
/// survivors of a front part all come before the survivors of a back part,
/// each in their own original order.
pub proof fn lemma_filter_distributes_over_add(
    a: Seq<AnalysisResult>,
    b: Seq<AnalysisResult>,
    show_full: bool,
)
    ensures
        spec_filter_results(a + b, show_full) == spec_filter_results(a, show_full)
            + spec_filter_results(b, show_full),
    decreases a.len(),
{
    if a.len() == 0 {
        assert(a + b =~= b);
        assert(spec_filter_results(a, show_full) + spec_filter_results(b, show_full)
            =~= spec_filter_results(b, show_full));
    } else {
        lemma_filter_distributes_over_add(a.drop_first(), b, show_full);
        assert((a + b).first() == a.first());
        assert((a + b).drop_first() =~= a.drop_first() + b);
        if !spec_entry_hidden(a.first(), show_full) {
            assert(seq![a.first()] + (spec_filter_results(a.drop_first(), show_full)
                + spec_filter_results(b, show_full)) =~= (seq![a.first()] + spec_filter_results(
                a.drop_first(),
                show_full,
            )) + spec_filter_results(b, show_full));
        }
    }
}

/// A report with no "OPS" outcome never counts as a full score.
pub proof fn lemma_no_ops_not_full(outs: Seq<EvaluatorOutcome>)
    requires
        !spec_has_ops_outcome(outs),
    ensures
        !spec_ops_full(outs),
{
    if spec_ops_full(outs) {
        let j = choose|j: int| 0 <= j < outs.len() && spec_outcome_full_ops(outs[j]);
        assert(spec_outcome_is_ops(outs[j]));
    }
}

/// The filter never removes an entry lacking an "OPS" outcome: such an
/// entry of `s` is still present after filtering.
pub proof fn lemma_filter_keeps_non_ops(s: Seq<AnalysisResult>, show_full: bool, i: int)
    requires
        0 <= i < s.len(),
        !spec_has_ops_outcome(s[i].report.outcomes@),
    ensures
        spec_filter_results(s, show_full).contains(s[i]),
    decreases s.len(),
{
    lemma_no_ops_not_full(s[i].report.outcomes@);
    if i == 0 {
        assert(spec_filter_results(s, show_full)[0] == s[0]);
    } else {
        lemma_filter_keeps_non_ops(s.drop_first(), show_full, i - 1);
        let rest = spec_filter_results(s.drop_first(), show_full);
        let k = choose|k: int| 0 <= k < rest.len() && rest[k] == s.drop_first()[i - 1];
        if spec_entry_hidden(s.first(), show_full) {
            assert(spec_filter_results(s, show_full)[k] == s[i]);
        } else {
            assert(spec_filter_results(s, show_full)[k + 1] == s[i]);
        }
    }
}

} // verus!
