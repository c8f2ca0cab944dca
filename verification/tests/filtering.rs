use cambia_cli::filter::{filter_results, is_ops_full_score};
use cambia_cli::report::{AnalysisResult, EvaluationReport, EvaluatorOutcome};

fn outcome(kind: &[u8], combined_score: &[u8]) -> EvaluatorOutcome {
    EvaluatorOutcome {
        kind: kind.to_vec(),
        combined_score: combined_score.to_vec(),
        evaluations: Vec::new(),
    }
}

fn entry(path: &[u8], outcomes: Vec<EvaluatorOutcome>) -> AnalysisResult {
    AnalysisResult {
        source_path: path.to_vec(),
        report: EvaluationReport { id: vec![1, 2], outcomes },
    }
}

#[test]
fn full_ops_score_is_detected() {
    let r = EvaluationReport { id: vec![], outcomes: vec![outcome(b"OPS", b"100")] };
    assert!(is_ops_full_score(&r));
}

#[test]
fn score_is_trimmed_before_comparison() {
    let r = EvaluationReport { id: vec![], outcomes: vec![outcome(b"OPS", b" 100 \n")] };
    assert!(is_ops_full_score(&r));
    // Vertical tab is whitespace to `str::trim` and is trimmed here too.
    let r = EvaluationReport { id: vec![], outcomes: vec![outcome(b"OPS", b"\x0b100\x0b")] };
    assert!(is_ops_full_score(&r));
}

#[test]
fn other_scores_are_not_full() {
    for score in [&b"99"[..], b"1000", b"10 0", b""] {
        let r = EvaluationReport { id: vec![], outcomes: vec![outcome(b"OPS", score)] };
        assert!(!is_ops_full_score(&r), "score {:?}", score);
    }
}

#[test]
fn any_ops_outcome_with_a_full_score_counts() {
    // A full-score "OPS" outcome hides the entry wherever it stands in
    // the list; other kinds scoring "100" do not.
    let r = EvaluationReport {
        id: vec![],
        outcomes: vec![outcome(b"EAC", b"100"), outcome(b"OPS", b"99"), outcome(b"OPS", b"100")],
    };
    assert!(is_ops_full_score(&r));

    let r = EvaluationReport {
        id: vec![],
        outcomes: vec![outcome(b"OPS", b"100"), outcome(b"OPS", b"99")],
    };
    assert!(is_ops_full_score(&r));

    let r = EvaluationReport {
        id: vec![],
        outcomes: vec![outcome(b"EAC", b"100"), outcome(b"OPS", b"99")],
    };
    assert!(!is_ops_full_score(&r));
}

#[test]
fn report_without_ops_outcome_is_never_full() {
    let r = EvaluationReport { id: vec![], outcomes: vec![outcome(b"EAC", b"100")] };
    assert!(!is_ops_full_score(&r));
}

#[test]
fn filter_hides_full_scores_unless_overridden() {
    let entries = vec![
        entry(b"/d/a.log", vec![outcome(b"OPS", b"100")]),
        entry(b"/d/b.log", vec![outcome(b"OPS", b"87")]),
        entry(b"/d/c.log", vec![outcome(b"EAC", b"100")]),
    ];
    let kept = filter_results(entries.clone(), false);
    assert_eq!(kept.len(), 2);
    assert_eq!(kept[0].source_path, b"/d/b.log".to_vec());
    assert_eq!(kept[1].source_path, b"/d/c.log".to_vec());

    let all = filter_results(entries, true);
    assert_eq!(all.len(), 3);
}

#[test]
fn filter_is_idempotent_and_order_preserving() {
    let entries = vec![
        entry(b"/d/1.log", vec![outcome(b"OPS", b"100")]),
        entry(b"/d/2.log", vec![outcome(b"OPS", b"50")]),
        entry(b"/d/3.log", vec![]),
        entry(b"/d/4.log", vec![outcome(b"OPS", b" 100")]),
        entry(b"/d/5.log", vec![outcome(b"XLD", b"0")]),
    ];
    let once = filter_results(entries, false);
    let paths: Vec<&[u8]> = once.iter().map(|e| e.source_path.as_slice()).collect();
    assert_eq!(paths, vec![&b"/d/2.log"[..], b"/d/3.log", b"/d/5.log"]);
    let twice = filter_results(once.clone(), false);
    assert_eq!(twice, once);
}

#[test]
fn entry_lacking_ops_outcome_is_never_removed() {
    let entries = vec![entry(b"/d/no-ops.log", vec![outcome(b"EAC", b"100")])];
    let kept = filter_results(entries, false);
    assert_eq!(kept.len(), 1);
    assert_eq!(kept[0].source_path, b"/d/no-ops.log".to_vec());
}
