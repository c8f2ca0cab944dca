//! Pure rendering: from the dashboard state to a structured frame — the
//! summary region, the file list with its selected row, the deduction
//! detail lines, and the score table. Styling and terminal drawing happen
//! outside the library on this structure.

use vstd::prelude::*;

use crate::bytes::{decimal_digits, spec_decimal};
use crate::collect::spec_file_name;
use crate::dashboard::{spec_dashboard_wf, DashboardState};
use crate::hexenc::{hex_encode_bytes, spec_hex_of};
use crate::report::{
    spec_full_score_text, spec_outcome_is_ops, AnalysisResult, DeductionScope, DeductionUnit,
    EvaluationReport, EvaluatorOutcome, FileEvaluation, ops_kind_bytes,
};

verus! {

/// The text `"Release"`.
pub open spec fn spec_release_label() -> Seq<u8> {
    seq![82u8, 101u8, 108u8, 101u8, 97u8, 115u8, 101u8]
}

/// The text `"Track"`.
pub open spec fn spec_track_label() -> Seq<u8> {
    seq![84u8, 114u8, 97u8, 99u8, 107u8]
}

/// The label of a deduction scope: `"Release"`, `"Track"`, or
/// `"Track <number>"`.
pub open spec fn spec_format_scope(s: DeductionScope) -> Seq<u8> {
    match s {
        DeductionScope::Release => spec_release_label(),
        DeductionScope::Track(Some(n)) => spec_track_label() + seq![32u8] + spec_decimal(n as nat),
        DeductionScope::Track(None) => spec_track_label(),
    }
}

/// One line of the detail pane, as the specification sees it.
pub enum DetailLineView {
    /// An evaluator's heading: its kind and combined score.
    OutcomeHeader { kind: Seq<u8>, combined_score: Seq<u8> },
    /// A constituent log's heading: its one-based number and score.
    EvaluationHeader { number: int, score: Seq<u8> },
    /// One deduction line.
    Deduction {
        scope: Seq<u8>,
        field: Seq<u8>,
        class: Seq<u8>,
        message: Seq<u8>,
        unit_score: Seq<u8>,
    },
    /// The separator after an evaluator's block.
    Blank,
    /// The placeholder shown when there are no outcomes at all.
    NoEvaluations,
}

/// One line of the detail pane, as built.
#[derive(Clone, Debug, PartialEq, Eq)]
pub enum DetailLine {
    OutcomeHeader { kind: Vec<u8>, combined_score: Vec<u8> },
    EvaluationHeader { number: usize, score: Vec<u8> },
    Deduction {
        scope: Vec<u8>,
        field: Vec<u8>,
        class: Vec<u8>,
        message: Vec<u8>,
        unit_score: Vec<u8>,
    },
    Blank,
    NoEvaluations,
}

pub open spec fn spec_line_of(l: DetailLine) -> DetailLineView {
    match l {
        DetailLine::OutcomeHeader { kind, combined_score } => DetailLineView::OutcomeHeader {
            kind: kind@,
            combined_score: combined_score@,
        },
        DetailLine::EvaluationHeader { number, score } => DetailLineView::EvaluationHeader {
            number: number as int,
            score: score@,
        },
        DetailLine::Deduction { scope, field, class, message, unit_score } => {
            DetailLineView::Deduction {
                scope: scope@,
                field: field@,
                class: class@,
                message: message@,
                unit_score: unit_score@,
            }
        },
        DetailLine::Blank => DetailLineView::Blank,
        DetailLine::NoEvaluations => DetailLineView::NoEvaluations,
    }
}

pub open spec fn spec_lines_of(s: Seq<DetailLine>) -> Seq<DetailLineView> {
    s.map_values(|l: DetailLine| spec_line_of(l))
}

/// Whether a deduction line is suppressed: only in an "OPS" outcome, only
/// when its unit score is exactly `"100"`, and only while full-score
/// lines are not shown.
pub open spec fn spec_unit_suppressed(is_ops: bool, u: DeductionUnit, show_full: bool) -> bool {
    !show_full && is_ops && u.unit_score@ == spec_full_score_text()
}

pub open spec fn spec_unit_line(u: DeductionUnit) -> DetailLineView {
    DetailLineView::Deduction {
        scope: spec_format_scope(u.scope),
        field: u.field@,
        class: u.class@,
        message: u.message@,
        unit_score: u.unit_score@,
    }
}

/// The lines of a run of deduction units, the suppressed ones left out.
pub open spec fn spec_unit_lines(us: Seq<DeductionUnit>, is_ops: bool, show_full: bool) -> Seq<
    DetailLineView,
>
    decreases us.len(),
{
    if us.len() == 0 {
        Seq::empty()
    } else if spec_unit_suppressed(is_ops, us.first(), show_full) {
        spec_unit_lines(us.drop_first(), is_ops, show_full)
    } else {
        seq![spec_unit_line(us.first())] + spec_unit_lines(us.drop_first(), is_ops, show_full)
    }
}

/// The lines of one constituent log: its heading, then its deductions.
pub open spec fn spec_eval_lines(
    e: FileEvaluation,
    number: int,
    is_ops: bool,
    show_full: bool,
) -> Seq<DetailLineView> {
    seq![DetailLineView::EvaluationHeader { number, score: e.score@ }] + spec_unit_lines(
        e.units@,
        is_ops,
        show_full,
    )
}

/// The lines of a run of constituent logs, numbered from `n0`.
pub open spec fn spec_evals_lines(
    es: Seq<FileEvaluation>,
    n0: int,
    is_ops: bool,
    show_full: bool,
) -> Seq<DetailLineView>
    decreases es.len(),
{
    if es.len() == 0 {
        Seq::empty()
    } else {
        spec_eval_lines(es.first(), n0, is_ops, show_full) + spec_evals_lines(
            es.drop_first(),
            n0 + 1,
            is_ops,
            show_full,
        )
    }
}

/// The lines of one evaluator's block: heading, per-log lines, separator.
pub open spec fn spec_outcome_lines(o: EvaluatorOutcome, show_full: bool) -> Seq<DetailLineView> {
    seq![DetailLineView::OutcomeHeader { kind: o.kind@, combined_score: o.combined_score@ }]
        + spec_evals_lines(o.evaluations@, 1, spec_outcome_is_ops(o), show_full) + seq![
        DetailLineView::Blank,
    ]
}

pub open spec fn spec_outcomes_lines(os: Seq<EvaluatorOutcome>, show_full: bool) -> Seq<
    DetailLineView,
>
    decreases os.len(),
{
    if os.len() == 0 {
        Seq::empty()
    } else {
        spec_outcome_lines(os.first(), show_full) + spec_outcomes_lines(
            os.drop_first(),
            show_full,
        )
    }
}

/// The whole detail pane for one report: every evaluator's block, or the
/// placeholder when the report holds no outcome.
pub open spec fn spec_detail_lines(r: EvaluationReport, show_full: bool) -> Seq<DetailLineView> {
    if r.outcomes@.len() == 0 {
        seq![DetailLineView::NoEvaluations]
    } else {
        spec_outcomes_lines(r.outcomes@, show_full)
    }
}

/// The label of a deduction's scope.
pub fn format_scope(scope: &DeductionScope) -> (r: Vec<u8>)
    ensures
        r@ == spec_format_scope(*scope),
{
    match scope {
        DeductionScope::Release => {
            let mut r: Vec<u8> = Vec::new();
            r.push(82);
            r.push(101);
            r.push(108);
            r.push(101);
            r.push(97);
            r.push(115);
            r.push(101);
            proof {
                assert(r@ =~= spec_release_label());
            }
            r
        },
        DeductionScope::Track(num) => {
            let mut r: Vec<u8> = Vec::new();
            r.push(84);
            r.push(114);
            r.push(97);
            r.push(99);
            r.push(107);
            proof {
                assert(r@ =~= spec_track_label());
            }
            match num {
                Some(n) => {
                    r.push(32);
                    let mut d = decimal_digits(*n);
                    r.append(&mut d);
                    proof {
                        assert(r@ =~= spec_track_label() + seq![32u8] + spec_decimal(*n as nat));
                    }
                    r
                },
                None => r,
            }
        },
    }
}

fn push_unit_lines(
    lines: &mut Vec<DetailLine>,
    us: &Vec<DeductionUnit>,
    is_ops: bool,
    show_full: bool,
)
    ensures
        spec_lines_of(final(lines)@) == spec_lines_of(old(lines)@) + spec_unit_lines(
            us@,
            is_ops,
            show_full,
        ),
{
    let ghost entry = lines@;
    let full = crate::report::full_score_bytes();
    let mut k: usize = 0;
    proof {
        assert(us@.skip(0) =~= us@);
        assert(spec_lines_of(lines@) + spec_unit_lines(us@.skip(0), is_ops, show_full)
            =~= spec_lines_of(entry) + spec_unit_lines(us@, is_ops, show_full));
    }
    while k < us.len()
        invariant
            k <= us@.len(),
            full@ == spec_full_score_text(),
            spec_lines_of(lines@) + spec_unit_lines(us@.skip(k as int), is_ops, show_full)
                == spec_lines_of(entry) + spec_unit_lines(us@, is_ops, show_full),
        decreases us@.len() - k,
    {
        proof {
            assert(us@.skip(k as int).first() == us@[k as int]);
            assert(us@.skip(k as int).drop_first() =~= us@.skip(k + 1));
        }
        let u = &us[k];
        let suppressed = !show_full && is_ops && crate::bytes::bytes_eq(&u.unit_score, &full);
        if !suppressed {
            let ghost before = lines@;
            let line = DetailLine::Deduction {
                scope: format_scope(&u.scope),
                field: u.field.clone(),
                class: u.class.clone(),
                message: u.message.clone(),
                unit_score: u.unit_score.clone(),
            };
            proof {
                assert(spec_line_of(line) == spec_unit_line(us@[k as int]));
            }
            lines.push(line);
            proof {
                assert(spec_lines_of(lines@) =~= spec_lines_of(before).push(spec_line_of(line)));
                assert(spec_lines_of(lines@) + spec_unit_lines(us@.skip(k + 1), is_ops, show_full)
                    =~= spec_lines_of(entry) + spec_unit_lines(us@, is_ops, show_full));
            }
        }
        k += 1;
    }
    proof {
        assert(us@.skip(us@.len() as int) =~= Seq::<DeductionUnit>::empty());
        assert(spec_lines_of(lines@) =~= spec_lines_of(lines@) + spec_unit_lines(
            Seq::<DeductionUnit>::empty(),
            is_ops,
            show_full,
        ));
    }
}

fn push_outcome_lines(lines: &mut Vec<DetailLine>, o: &EvaluatorOutcome, show_full: bool)
    ensures
        spec_lines_of(final(lines)@) == spec_lines_of(old(lines)@) + spec_outcome_lines(
            *o,
            show_full,
        ),
{
    let ghost entry = lines@;
    let ops = ops_kind_bytes();
    let is_ops = crate::bytes::bytes_eq(&o.kind, &ops);
    let header = DetailLine::OutcomeHeader {
        kind: o.kind.clone(),
        combined_score: o.combined_score.clone(),
    };
    let ghost before = lines@;
    lines.push(header);
    proof {
        assert(spec_lines_of(lines@) =~= spec_lines_of(before).push(spec_line_of(header)));
    }
    let es = &o.evaluations;
    let mut j: usize = 0;
    let ghost after_header = lines@;
    proof {
        assert(es@.skip(0) =~= es@);
    }
    while j < es.len()
        invariant
            j <= es@.len(),
            is_ops == spec_outcome_is_ops(*o),
            es == &o.evaluations,
            spec_lines_of(lines@) + spec_evals_lines(
                es@.skip(j as int),
                j + 1 as int,
                is_ops,
                show_full,
            ) == spec_lines_of(after_header) + spec_evals_lines(es@, 1, is_ops, show_full),
        decreases es@.len() - j,
    {
        proof {
            assert(es@.skip(j as int).first() == es@[j as int]);
            assert(es@.skip(j as int).drop_first() =~= es@.skip(j + 1));
        }
        let e = &es[j];
        let ghost before_eval = lines@;
        let eheader = DetailLine::EvaluationHeader { number: j + 1, score: e.score.clone() };
        lines.push(eheader);
        proof {
            assert(spec_lines_of(lines@) =~= spec_lines_of(before_eval).push(
                spec_line_of(eheader),
            ));
            assert(spec_lines_of(lines@) =~= spec_lines_of(before_eval) + seq![
                DetailLineView::EvaluationHeader { number: j + 1 as int, score: es@[j as int].score@ },
            ]);
        }
        push_unit_lines(lines, &e.units, is_ops, show_full);
        proof {
            assert(spec_lines_of(lines@) + spec_evals_lines(
                es@.skip(j + 1),
                j + 2 as int,
                is_ops,
                show_full,
            ) =~= spec_lines_of(after_header) + spec_evals_lines(es@, 1, is_ops, show_full));
        }
        j += 1;
    }
    proof {
        assert(es@.skip(es@.len() as int) =~= Seq::<FileEvaluation>::empty());
    }
    let ghost before_blank = lines@;
    lines.push(DetailLine::Blank);
    proof {
        assert(spec_lines_of(lines@) =~= spec_lines_of(before_blank).push(DetailLineView::Blank));
        assert(spec_lines_of(lines@) =~= spec_lines_of(entry) + spec_outcome_lines(*o, show_full));
    }
}

/// The detail pane for one report: per evaluator its heading, its logs'
/// headings and their deduction lines (full-score "OPS" lines suppressed
/// unless shown), a blank separator after each block, or the placeholder
/// when the report holds no outcome.
pub fn build_detail_lines(report: &EvaluationReport, show_full: bool) -> (r: Vec<DetailLine>)
    ensures
        spec_lines_of(r@) == spec_detail_lines(*report, show_full),
{
    let mut lines: Vec<DetailLine> = Vec::new();
    if report.outcomes.len() == 0 {
        lines.push(DetailLine::NoEvaluations);
        proof {
            assert(spec_lines_of(lines@) =~= seq![DetailLineView::NoEvaluations]);
        }
        return lines;
    }
    let os = &report.outcomes;
    let mut i: usize = 0;
    proof {
        assert(os@.skip(0) =~= os@);
        assert(spec_lines_of(lines@) + spec_outcomes_lines(os@.skip(0), show_full)
            =~= spec_outcomes_lines(os@, show_full));
    }
    while i < os.len()
        invariant
            i <= os@.len(),
            os == &report.outcomes,
            spec_lines_of(lines@) + spec_outcomes_lines(os@.skip(i as int), show_full)
                == spec_outcomes_lines(os@, show_full),
        decreases os@.len() - i,
    {
        proof {
            assert(os@.skip(i as int).first() == os@[i as int]);
            assert(os@.skip(i as int).drop_first() =~= os@.skip(i + 1));
        }
        push_outcome_lines(&mut lines, &os[i], show_full);
        proof {
            assert(spec_lines_of(lines@) + spec_outcomes_lines(os@.skip(i + 1), show_full)
                =~= spec_outcomes_lines(os@, show_full));
        }
        i += 1;
    }
    proof {
        assert(os@.skip(os@.len() as int) =~= Seq::<EvaluatorOutcome>::empty());
        assert(spec_lines_of(lines@) =~= spec_lines_of(lines@) + spec_outcomes_lines(
            Seq::<EvaluatorOutcome>::empty(),
            show_full,
        ));
    }
    lines
}

/// One row of the score table, as the specification sees it.
pub enum ScoreRowView {
    Outcome { kind: Seq<u8>, combined_score: Seq<u8>, evaluation_count: int },
    /// The row shown when the report holds no outcome.
    Placeholder,
}

/// One row of the score table: an evaluator's kind, combined score and
/// number of evaluations, or the placeholder row.
#[derive(Clone, Debug, PartialEq, Eq)]
pub enum ScoreTableRow {
    Outcome { kind: Vec<u8>, combined_score: Vec<u8>, evaluation_count: usize },
    Placeholder,
}

pub open spec fn spec_row_of(r: ScoreTableRow) -> ScoreRowView {
    match r {
        ScoreTableRow::Outcome { kind, combined_score, evaluation_count } => ScoreRowView::Outcome {
            kind: kind@,
            combined_score: combined_score@,
            evaluation_count: evaluation_count as int,
        },
        ScoreTableRow::Placeholder => ScoreRowView::Placeholder,
    }
}

pub open spec fn spec_rows_of(s: Seq<ScoreTableRow>) -> Seq<ScoreRowView> {
    s.map_values(|r: ScoreTableRow| spec_row_of(r))
}

pub open spec fn spec_outcome_row(o: EvaluatorOutcome) -> ScoreRowView {
    ScoreRowView::Outcome {
        kind: o.kind@,
        combined_score: o.combined_score@,
        evaluation_count: o.evaluations@.len() as int,
    }
}

pub open spec fn spec_outcome_rows(os: Seq<EvaluatorOutcome>) -> Seq<ScoreRowView> {
    os.map_values(|o: EvaluatorOutcome| spec_outcome_row(o))
}

/// The score table for a run of outcomes: one row per evaluator, or the
/// placeholder row alone when there is none.
pub open spec fn spec_score_rows(os: Seq<EvaluatorOutcome>) -> Seq<ScoreRowView> {
    if os.len() == 0 {
        seq![ScoreRowView::Placeholder]
    } else {
        spec_outcome_rows(os)
    }
}

/// The score table of a report: kind, combined score and evaluation count
/// per outcome, or one placeholder row.
pub fn build_score_rows(report: &EvaluationReport) -> (r: Vec<ScoreTableRow>)
    ensures
        spec_rows_of(r@) == spec_score_rows(report.outcomes@),
{
    let mut rows: Vec<ScoreTableRow> = Vec::new();
    let os = &report.outcomes;
    if os.len() == 0 {
        rows.push(ScoreTableRow::Placeholder);
        proof {
            assert(spec_rows_of(rows@) =~= seq![ScoreRowView::Placeholder]);
        }
        return rows;
    }
    let mut i: usize = 0;
    proof {
        assert(rows@ =~= Seq::<ScoreTableRow>::empty());
        assert(spec_rows_of(rows@) =~= spec_outcome_rows(os@.subrange(0, 0)));
    }
    while i < os.len()
        invariant
            i <= os@.len(),
            os == &report.outcomes,
            rows@.len() == i,
            spec_rows_of(rows@) == spec_outcome_rows(os@.subrange(0, i as int)),
        decreases os@.len() - i,
    {
        let ghost before = rows@;
        let row = ScoreTableRow::Outcome {
            kind: os[i].kind.clone(),
            combined_score: os[i].combined_score.clone(),
            evaluation_count: os[i].evaluations.len(),
        };
        proof {
            assert(spec_row_of(row) == spec_outcome_row(os@[i as int]));
        }
        rows.push(row);
        proof {
            let prefix = os@.subrange(0, i + 1 as int);
            assert(rows@ == before.push(row));
            assert(rows@.len() == i + 1);
            assert forall|j: int| 0 <= j < i + 1 implies spec_rows_of(rows@)[j]
                == spec_outcome_rows(prefix)[j] by {
                assert(prefix[j] == os@[j]);
                assert(spec_rows_of(rows@)[j] == spec_row_of(rows@[j]));
                if j < i {
                    assert(rows@[j] == before[j]);
                    assert(os@.subrange(0, i as int)[j] == os@[j]);
                    assert(spec_rows_of(before)[j] == spec_outcome_rows(
                        os@.subrange(0, i as int),
                    )[j]);
                } else {
                    assert(rows@[j] == row);
                }
            };
            assert(spec_rows_of(rows@) =~= spec_outcome_rows(prefix));
        }
        i += 1;
    }
    proof {
        assert(os@.subrange(0, os@.len() as int) =~= os@);
    }
    rows
}

/// The summary region: the source path, the hex-encoded identifier, and
/// how many evaluator outcomes the report holds.
#[derive(Clone, Debug, PartialEq, Eq)]
pub struct SummaryView {
    pub path: Vec<u8>,
    pub id_hex: Vec<u8>,
    pub outcome_count: usize,
}

pub fn build_summary(path: &Vec<u8>, report: &EvaluationReport) -> (s: SummaryView)
    ensures
        s.path@ == path@,
        s.id_hex@ == spec_hex_of(report.id@),
        s.outcome_count == report.outcomes@.len(),
{
    SummaryView {
        path: path.clone(),
        id_hex: hex_encode_bytes(&report.id),
        outcome_count: report.outcomes.len(),
    }
}

/// The name shown for an entry in the file list: the path's file name,
/// or the whole path when the name is empty.
pub open spec fn spec_display_name(p: Seq<u8>) -> Seq<u8> {
    if spec_file_name(p).len() == 0 {
        p
    } else {
        spec_file_name(p)
    }
}

pub fn display_name(p: &Vec<u8>) -> (r: Vec<u8>)
    ensures
        r@ == spec_display_name(p@),
{
    let name = crate::collect::file_name(p);
    if name.len() == 0 {
        p.clone()
    } else {
        name
    }
}

/// The file list: one display name per entry, in order.
pub fn build_file_list(entries: &Vec<AnalysisResult>) -> (r: Vec<Vec<u8>>)
    ensures
        r@.len() == entries@.len(),
        forall|i: int|
            0 <= i < entries@.len() ==> r@[i]@ == spec_display_name(
                entries@[i].source_path@,
            ),
{
    let mut names: Vec<Vec<u8>> = Vec::new();
    let mut i: usize = 0;
    while i < entries.len()
        invariant
            i <= entries@.len(),
            names@.len() == i,
            forall|j: int|
                0 <= j < i ==> names@[j]@ == spec_display_name(entries@[j].source_path@),
        decreases entries@.len() - i,
    {
        let n = display_name(&entries[i].source_path);
        names.push(n);
        i += 1;
    }
    names
}

/// Everything a browsing frame shows.
#[derive(Clone, Debug, PartialEq, Eq)]
pub struct BrowsingView {
    pub summary: SummaryView,
    pub file_names: Vec<Vec<u8>>,
    pub selected: usize,
    pub details: Vec<DetailLine>,
    pub score_rows: Vec<ScoreTableRow>,
}

/// One rendered frame: the empty placeholder (with the help line), or the
/// full browsing layout for the selected entry.
#[derive(Clone, Debug, PartialEq, Eq)]
pub enum FrameView {
    Empty,
    Browsing(BrowsingView),
}

/// Render the dashboard state as a frame. A pure function of the state:
/// an empty list renders the placeholder; otherwise the summary, file
/// list, detail pane and score table all describe the selected entry.
pub fn render_frame(state: &DashboardState) -> (f: FrameView)
    requires
        spec_dashboard_wf(*state),
    ensures
        (f is Empty) == (state.entries@.len() == 0),
        f matches FrameView::Browsing(b) ==> {
            &&& state.selected == Some(b.selected)
            &&& b.selected < state.entries@.len()
            &&& b.summary.path@ == state.entries@[b.selected as int].source_path@
            &&& b.summary.id_hex@ == spec_hex_of(state.entries@[b.selected as int].report.id@)
            &&& b.summary.outcome_count == state.entries@[b.selected as int].report.outcomes@.len()
            &&& b.file_names@.len() == state.entries@.len()
            &&& (forall|i: int|
                0 <= i < state.entries@.len() ==> b.file_names@[i]@ == spec_display_name(
                    state.entries@[i].source_path@,
                ))
            &&& spec_lines_of(b.details@) == spec_detail_lines(
                state.entries@[b.selected as int].report,
                state.show_full,
            )
            &&& spec_rows_of(b.score_rows@) == spec_score_rows(
                state.entries@[b.selected as int].report.outcomes@,
            )
        },
{
    match state.selected {
        None => FrameView::Empty,
        Some(selected) => {
            let entry = &state.entries[selected];
            FrameView::Browsing(
                BrowsingView {
                    summary: build_summary(&entry.source_path, &entry.report),
                    file_names: build_file_list(&state.entries),
                    selected,
                    details: build_detail_lines(&entry.report, state.show_full),
                    score_rows: build_score_rows(&entry.report),
                },
            )
        },
    }
}

} // verus!
