use cambia_cli::collect::{collect_candidates, file_name, is_log_candidate, InputError,
    RootListing, WalkedEntry};

fn entry(path: &[u8], is_file: bool) -> WalkedEntry {
    WalkedEntry { path: path.to_vec(), is_file }
}

#[test]
fn file_root_is_single_candidate_whatever_its_name() {
    let root = b"/music/rip.txt".to_vec();
    let r = collect_candidates(&root, RootListing::RegularFile).unwrap();
    assert_eq!(r, vec![b"/music/rip.txt".to_vec()]);
}

#[test]
fn directory_keeps_matching_extensions_in_order() {
    let es = vec![
        entry(b"/d/x.log", true),
        entry(b"/d/y.LOG", true),
        entry(b"/d/z.txt", true),
    ];
    let root = b"/d".to_vec();
    let r = collect_candidates(&root, RootListing::Directory(es)).unwrap();
    assert_eq!(r, vec![b"/d/x.log".to_vec(), b"/d/y.LOG".to_vec()]);
}

#[test]
fn directory_counts_matching_files() {
    let es = vec![
        entry(b"/d/a.log", true),
        entry(b"/d/b.Log", true),
        entry(b"/d/c.lOg", true),
        entry(b"/d/readme.md", true),
        entry(b"/d/notes", true),
        entry(b"/d/sub.log", false),
    ];
    let root = b"/d".to_vec();
    let r = collect_candidates(&root, RootListing::Directory(es)).unwrap();
    assert_eq!(r.len(), 3);
}

#[test]
fn empty_directory_scan_is_an_error() {
    let es = vec![entry(b"/d/readme.md", true), entry(b"/d/sub", false)];
    let root = b"/d".to_vec();
    let r = collect_candidates(&root, RootListing::Directory(es));
    assert_eq!(r.unwrap_err(), InputError::EmptyResult);
}

#[test]
fn inaccessible_root_is_an_error() {
    let root = b"/nowhere".to_vec();
    let r = collect_candidates(&root, RootListing::NotAccessible);
    assert_eq!(r.unwrap_err(), InputError::NotAccessible);
}

#[test]
fn other_entry_kind_is_an_error() {
    let root = b"/dev/null".to_vec();
    let r = collect_candidates(&root, RootListing::OtherKind);
    assert_eq!(r.unwrap_err(), InputError::InvalidInput);
}

#[test]
fn candidate_predicate_edge_cases() {
    // Upper and mixed case match.
    assert!(is_log_candidate(&entry(b"/d/a.LOG", true)));
    assert!(is_log_candidate(&entry(b"a.LoG", true)));
    // A directory named like a log does not.
    assert!(!is_log_candidate(&entry(b"/d/a.log", false)));
    // A hidden file whose whole name is ".log" has no extension.
    assert!(!is_log_candidate(&entry(b"/d/.log", true)));
    // No dot, wrong extension, trailing dot.
    assert!(!is_log_candidate(&entry(b"/d/log", true)));
    assert!(!is_log_candidate(&entry(b"/d/a.log.txt", true)));
    assert!(!is_log_candidate(&entry(b"/d/a.", true)));
    // Only the file name counts, not the directories above it.
    assert!(is_log_candidate(&entry(b"/x.txt/a.log", true)));
}

#[test]
fn file_name_takes_the_part_after_the_last_separator() {
    assert_eq!(file_name(&b"/a/b/c.log".to_vec()), b"c.log".to_vec());
    assert_eq!(file_name(&b"c.log".to_vec()), b"c.log".to_vec());
    assert_eq!(file_name(&b"a\\b\\c.log".to_vec()), b"c.log".to_vec());
    assert_eq!(file_name(&b"/a/b/".to_vec()), b"".to_vec());
}
