use cambia_cli::dashboard::{DashboardState, InputEvent, UiAction};
use cambia_cli::filter::filter_results;
use cambia_cli::render::{
    build_detail_lines, format_scope, render_frame, DetailLine, FrameView, ScoreTableRow,
};
use cambia_cli::report::{
    AnalysisResult, DeductionScope, DeductionUnit, EvaluationReport, EvaluatorOutcome,
    FileEvaluation,
};

fn unit(scope: DeductionScope, message: &[u8], unit_score: &[u8]) -> DeductionUnit {
    DeductionUnit {
        scope,
        field: b"Field".to_vec(),
        class: b"Class".to_vec(),
        message: message.to_vec(),
        unit_score: unit_score.to_vec(),
    }
}

fn entry(path: &[u8], outcomes: Vec<EvaluatorOutcome>) -> AnalysisResult {
    AnalysisResult {
        source_path: path.to_vec(),
        report: EvaluationReport { id: vec![0x00, 0xff], outcomes },
    }
}

fn simple_outcome(kind: &[u8], combined_score: &[u8]) -> EvaluatorOutcome {
    EvaluatorOutcome {
        kind: kind.to_vec(),
        combined_score: combined_score.to_vec(),
        evaluations: Vec::new(),
    }
}

#[test]
fn empty_dashboard_only_quits() {
    let mut s = DashboardState::new(Vec::new(), false);
    assert_eq!(s.selected, None);
    for ev in [
        InputEvent::NavigateDown,
        InputEvent::NavigateUp,
        InputEvent::OpenContainingFolder,
        InputEvent::Resize,
        InputEvent::Other,
    ] {
        assert_eq!(s.handle_event(ev), UiAction::Redraw);
        assert_eq!(s.selected, None);
    }
    assert_eq!(s.handle_event(InputEvent::Quit), UiAction::Exit);
}

#[test]
fn navigation_saturates_at_both_ends() {
    let entries = vec![entry(b"/a.log", vec![]), entry(b"/b.log", vec![]), entry(
        b"/c.log",
        vec![],
    )];
    let mut s = DashboardState::new(entries, false);
    assert_eq!(s.selected, Some(0));
    s.handle_event(InputEvent::NavigateUp);
    assert_eq!(s.selected, Some(0));
    s.handle_event(InputEvent::NavigateDown);
    assert_eq!(s.selected, Some(1));
    for _ in 0..10 {
        s.handle_event(InputEvent::NavigateDown);
        let i = s.selected.unwrap();
        assert!(i <= 2);
    }
    assert_eq!(s.selected, Some(2));
    for _ in 0..10 {
        s.handle_event(InputEvent::NavigateUp);
        let i = s.selected.unwrap();
        assert!(i <= 2);
    }
    assert_eq!(s.selected, Some(0));
}

#[test]
fn open_folder_reveals_the_selected_path() {
    let entries = vec![entry(b"/x/a.log", vec![]), entry(b"/x/b.log", vec![])];
    let mut s = DashboardState::new(entries, false);
    s.handle_event(InputEvent::NavigateDown);
    let action = s.handle_event(InputEvent::OpenContainingFolder);
    assert_eq!(action, UiAction::Reveal(b"/x/b.log".to_vec()));
    assert_eq!(s.selected, Some(1));
}

#[test]
fn full_score_single_file_renders_empty_dashboard() {
    // A single file whose evaluation is one "OPS" outcome scored "100",
    // with full scores hidden: the filter leaves nothing to browse.
    let entries = vec![entry(b"/only.log", vec![simple_outcome(b"OPS", b"100")])];
    let kept = filter_results(entries, false);
    assert!(kept.is_empty());
    let s = DashboardState::new(kept, false);
    let frame = render_frame(&s);
    assert_eq!(frame, FrameView::Empty);
}

#[test]
fn browsing_frame_describes_the_selected_entry() {
    let outcome = EvaluatorOutcome {
        kind: b"OPS".to_vec(),
        combined_score: b"95".to_vec(),
        evaluations: vec![FileEvaluation {
            score: b"95".to_vec(),
            units: vec![unit(DeductionScope::Release, b"Range rip", b"-5")],
        }],
    };
    let entries = vec![entry(b"/d/a.log", vec![outcome]), entry(b"/d/b.log", vec![])];
    let s = DashboardState::new(entries, false);
    let frame = render_frame(&s);
    let b = match frame {
        FrameView::Browsing(b) => b,
        FrameView::Empty => panic!("expected a browsing frame"),
    };
    assert_eq!(b.selected, 0);
    assert_eq!(b.summary.path, b"/d/a.log".to_vec());
    assert_eq!(b.summary.id_hex, b"00ff".to_vec());
    assert_eq!(b.summary.outcome_count, 1);
    assert_eq!(b.file_names, vec![b"a.log".to_vec(), b"b.log".to_vec()]);
    assert_eq!(
        b.score_rows,
        vec![ScoreTableRow::Outcome {
            kind: b"OPS".to_vec(),
            combined_score: b"95".to_vec(),
            evaluation_count: 1,
        }]
    );
    assert_eq!(
        b.details,
        vec![
            DetailLine::OutcomeHeader {
                kind: b"OPS".to_vec(),
                combined_score: b"95".to_vec(),
            },
            DetailLine::EvaluationHeader { number: 1, score: b"95".to_vec() },
            DetailLine::Deduction {
                scope: b"Release".to_vec(),
                field: b"Field".to_vec(),
                class: b"Class".to_vec(),
                message: b"Range rip".to_vec(),
                unit_score: b"-5".to_vec(),
            },
            DetailLine::Blank,
        ]
    );
}

#[test]
fn report_without_outcomes_renders_placeholders() {
    let entries = vec![entry(b"/d/a.log", vec![])];
    let s = DashboardState::new(entries, true);
    let frame = render_frame(&s);
    let b = match frame {
        FrameView::Browsing(b) => b,
        FrameView::Empty => panic!("expected a browsing frame"),
    };
    assert_eq!(b.details, vec![DetailLine::NoEvaluations]);
    assert_eq!(b.score_rows, vec![ScoreTableRow::Placeholder]);
}

#[test]
fn full_score_ops_deduction_lines_are_suppressed() {
    let report = EvaluationReport {
        id: vec![],
        outcomes: vec![EvaluatorOutcome {
            kind: b"OPS".to_vec(),
            combined_score: b"98".to_vec(),
            evaluations: vec![FileEvaluation {
                score: b"98".to_vec(),
                units: vec![
                    unit(DeductionScope::Track(Some(3)), b"Fine", b"100"),
                    unit(DeductionScope::Track(None), b"Bad offset", b"-2"),
                ],
            }],
        }],
    };
    let hidden = build_detail_lines(&report, false);
    assert_eq!(
        hidden,
        vec![
            DetailLine::OutcomeHeader {
                kind: b"OPS".to_vec(),
                combined_score: b"98".to_vec(),
            },
            DetailLine::EvaluationHeader { number: 1, score: b"98".to_vec() },
            DetailLine::Deduction {
                scope: b"Track".to_vec(),
                field: b"Field".to_vec(),
                class: b"Class".to_vec(),
                message: b"Bad offset".to_vec(),
                unit_score: b"-2".to_vec(),
            },
            DetailLine::Blank,
        ]
    );
    let shown = build_detail_lines(&report, true);
    assert_eq!(shown.len(), 5);
    assert_eq!(
        shown[2],
        DetailLine::Deduction {
            scope: b"Track 3".to_vec(),
            field: b"Field".to_vec(),
            class: b"Class".to_vec(),
            message: b"Fine".to_vec(),
            unit_score: b"100".to_vec(),
        }
    );
}

#[test]
fn non_ops_full_score_lines_are_kept() {
    let report = EvaluationReport {
        id: vec![],
        outcomes: vec![EvaluatorOutcome {
            kind: b"EAC".to_vec(),
            combined_score: b"100".to_vec(),
            evaluations: vec![FileEvaluation {
                score: b"100".to_vec(),
                units: vec![unit(DeductionScope::Release, b"Fine", b"100")],
            }],
        }],
    };
    let lines = build_detail_lines(&report, false);
    assert_eq!(lines.len(), 4);
    assert!(matches!(lines[2], DetailLine::Deduction { .. }));
}

#[test]
fn evaluation_headers_number_from_one() {
    let eval = |score: &[u8]| FileEvaluation { score: score.to_vec(), units: Vec::new() };
    let report = EvaluationReport {
        id: vec![],
        outcomes: vec![EvaluatorOutcome {
            kind: b"XLD".to_vec(),
            combined_score: b"90".to_vec(),
            evaluations: vec![eval(b"91"), eval(b"92"), eval(b"93")],
        }],
    };
    let lines = build_detail_lines(&report, false);
    let numbers: Vec<usize> = lines
        .iter()
        .filter_map(|l| match l {
            DetailLine::EvaluationHeader { number, .. } => Some(*number),
            _ => None,
        })
        .collect();
    assert_eq!(numbers, vec![1, 2, 3]);
}

#[test]
fn scope_labels() {
    assert_eq!(format_scope(&DeductionScope::Release), b"Release".to_vec());
    assert_eq!(format_scope(&DeductionScope::Track(None)), b"Track".to_vec());
    assert_eq!(format_scope(&DeductionScope::Track(Some(0))), b"Track 0".to_vec());
    assert_eq!(format_scope(&DeductionScope::Track(Some(12))), b"Track 12".to_vec());
    assert_eq!(format_scope(&DeductionScope::Track(Some(120))), b"Track 120".to_vec());
}
