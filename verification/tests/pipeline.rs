use cambia_cli::coordinate::{run_batch, Coordinator};
use cambia_cli::persist::{persist_filename, LogStore};
use cambia_cli::progress::progress_percent;
use cambia_cli::report::{AnalysisResult, EvaluationReport};

fn result(path: &[u8], id: Vec<u8>) -> AnalysisResult {
    AnalysisResult {
        source_path: path.to_vec(),
        report: EvaluationReport { id, outcomes: Vec::new() },
    }
}

#[test]
fn batch_accounts_for_every_candidate() {
    let outcomes = vec![
        Some(result(b"/d/a.log", vec![1])),
        None,
        Some(result(b"/d/c.log", vec![3])),
    ];
    let c = run_batch(outcomes);
    assert_eq!(c.total, 3);
    assert_eq!(c.done, 3);
    assert_eq!(c.failed, 1);
    assert_eq!(c.results.len(), 2);
    assert_eq!(c.results[0].source_path, b"/d/a.log".to_vec());
    assert_eq!(c.results[1].source_path, b"/d/c.log".to_vec());
    assert!(c.is_complete());
}

#[test]
fn empty_batch_is_complete_at_once() {
    let c = run_batch(Vec::new());
    assert_eq!(c.done, 0);
    assert_eq!(c.total, 0);
    assert!(c.results.is_empty());
    assert!(c.is_complete());
    assert_eq!(progress_percent(c.done, c.total), 100);
}

#[test]
fn coordinator_steps_one_candidate_at_a_time() {
    let mut c = Coordinator::new(2);
    assert!(!c.is_complete());
    c.record_failure();
    assert!(!c.is_complete());
    c.record_success(result(b"/d/a.log", vec![9]));
    assert!(c.is_complete());
    assert_eq!(c.done, 2);
    assert_eq!(c.failed, 1);
    assert_eq!(c.results.len(), 1);
}

#[test]
fn progress_is_floored_percentage() {
    assert_eq!(progress_percent(0, 4), 0);
    assert_eq!(progress_percent(1, 3), 33);
    assert_eq!(progress_percent(2, 3), 66);
    assert_eq!(progress_percent(3, 3), 100);
    assert_eq!(progress_percent(1, 2), 50);
    assert_eq!(progress_percent(0, 0), 100);
}

#[test]
fn persist_filename_is_hex_id_with_log_suffix() {
    let id = vec![0xde, 0xad, 0xbe, 0xef];
    assert_eq!(persist_filename(&id), b"deadbeef.log".to_vec());
    // The name agrees with the hex encoder the tool links against.
    let expected = format!("{}.log", hex::encode(&id)).into_bytes();
    assert_eq!(persist_filename(&id), expected);
    assert_eq!(persist_filename(&vec![0x00, 0xff]), b"00ff.log".to_vec());
    assert_eq!(persist_filename(&Vec::new()), b".log".to_vec());
}

#[test]
fn saving_twice_keeps_the_first_bytes() {
    let mut store = LogStore::new();
    let name = persist_filename(&vec![0xab]);
    assert!(store.save(name.clone(), b"first".to_vec()));
    assert!(!store.save(name.clone(), b"second".to_vec()));
    assert_eq!(store.get(&name).unwrap(), &b"first".to_vec());
    assert_eq!(store.files.len(), 1);
}

#[test]
fn two_identifiers_persist_as_two_files_and_rerun_changes_nothing() {
    let mut store = LogStore::new();
    let name_a = persist_filename(&vec![0x01]);
    let name_b = persist_filename(&vec![0x02]);
    assert!(store.save(name_a.clone(), b"log a".to_vec()));
    assert!(store.save(name_b.clone(), b"log b".to_vec()));
    assert_eq!(store.files.len(), 2);

    // Re-running the same batch writes nothing new.
    assert!(!store.save(name_a.clone(), b"log a".to_vec()));
    assert!(!store.save(name_b.clone(), b"log b".to_vec()));
    assert_eq!(store.files.len(), 2);
    assert_eq!(store.get(&name_a).unwrap(), &b"log a".to_vec());
    assert_eq!(store.get(&name_b).unwrap(), &b"log b".to_vec());
    assert!(store.get(&b"03.log".to_vec()).is_none());
}
