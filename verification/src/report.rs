//! Data model of an evaluation report: the structured value the external
//! log evaluator produces for one rip log, plus the analysis result that
//! pairs a report with its source path.

use vstd::prelude::*;

verus! {

/// Scope of one deduction line: the whole release, or one track (whose
/// number the evaluator may or may not know).
#[derive(Clone, Copy, Debug, PartialEq, Eq)]
pub enum DeductionScope {
    Release,
    Track(Option<u32>),
}

/// One scored deduction line of a per-file evaluation.
#[derive(Clone, Debug, PartialEq, Eq)]
pub struct DeductionUnit {
    pub scope: DeductionScope,
    pub field: Vec<u8>,
    pub class: Vec<u8>,
    pub message: Vec<u8>,
    pub unit_score: Vec<u8>,
}

/// Evaluation of one constituent log file: its score and its deductions,
/// in evaluator order.
#[derive(Clone, Debug, PartialEq, Eq)]
pub struct FileEvaluation {
    pub score: Vec<u8>,
    pub units: Vec<DeductionUnit>,
}

/// What one evaluator (a named rule set) said about a report: its kind
/// name, a combined score as text, and the per-file evaluations.
#[derive(Clone, Debug, PartialEq, Eq)]
pub struct EvaluatorOutcome {
    pub kind: Vec<u8>,
    pub combined_score: Vec<u8>,
    pub evaluations: Vec<FileEvaluation>,
}

/// An immutable report from the external evaluator: an identifier byte
/// sequence and an ordered list of evaluator outcomes.
#[derive(Clone, Debug, PartialEq, Eq)]
pub struct EvaluationReport {
    pub id: Vec<u8>,
    pub outcomes: Vec<EvaluatorOutcome>,
}

/// One analyzed candidate: the path it was read from and its report.
#[derive(Clone, Debug, PartialEq, Eq)]
pub struct AnalysisResult {
    pub source_path: Vec<u8>,
    pub report: EvaluationReport,
}

/// Name of the evaluator kind whose full-score entries can be hidden:
/// the three bytes `"OPS"`.
pub open spec fn spec_ops_kind() -> Seq<u8> {
    seq![79u8, 80u8, 83u8]
}

/// The text `"100"`, the combined score counted as a full score.
pub open spec fn spec_full_score_text() -> Seq<u8> {
    seq![49u8, 48u8, 48u8]
}

pub open spec fn spec_outcome_is_ops(o: EvaluatorOutcome) -> bool {
    o.kind@ == spec_ops_kind()
}

/// The bytes `"OPS"`.
pub fn ops_kind_bytes() -> (r: Vec<u8>)
    ensures
        r@ == spec_ops_kind(),
{
    let mut r: Vec<u8> = Vec::new();
    r.push(79);
    r.push(80);
    r.push(83);
    proof {
        assert(r@ =~= spec_ops_kind());
    }
    r
}

/// The bytes `"100"`.
pub fn full_score_bytes() -> (r: Vec<u8>)
    ensures
        r@ == spec_full_score_text(),
{
    let mut r: Vec<u8> = Vec::new();
    r.push(49);
    r.push(48);
    r.push(48);
    proof {
        assert(r@ =~= spec_full_score_text());
    }
    r
}

} // verus!
