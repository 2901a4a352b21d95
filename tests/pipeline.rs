use dupe_cleaner::cleanup::{apply_cleanup, DeleteOutcome};
use dupe_cleaner::grouping::group_by_digest;
use dupe_cleaner::hashing::{attach_digest, content_digest};
use dupe_cleaner::models::{DuplicateGroup, FileEntry, FileSource};
use dupe_cleaner::scanner::{select_files, ScanAction, Scanner, WalkEntry};
use dupe_cleaner::session::{ScanConfig, ScanState, DEFAULT_MIN_SIZE};

fn walk(path: &str, is_file: bool, size: Option<u64>) -> WalkEntry {
    WalkEntry { path: path.to_string(), is_file, size }
}

fn hashed(path: &str, size: u64, content: &[u8]) -> FileEntry {
    let e = FileEntry { path: path.to_string(), size, hash: None, source: FileSource::Local };
    attach_digest(e, Some(content))
}

fn padded(text: &str, len: usize) -> Vec<u8> {
    let mut v = text.as_bytes().to_vec();
    v.resize(len, 0);
    v
}

fn paths(files: &[FileEntry]) -> Vec<String> {
    files.iter().map(|f| f.path.clone()).collect()
}

#[test]
fn digest_of_known_inputs() {
    assert_eq!(
        content_digest(b""),
        "e3b0c44298fc1c149afbf4c8996fb92427ae41e4649b934ca495991b7852b855"
    );
    assert_eq!(
        content_digest(b"hello"),
        "2cf24dba5fb0a30e26e83b2ac5b9e29e1b161e5c1fa7425e73043362938b9824"
    );
}

#[test]
fn attach_digest_sets_or_clears_hash() {
    let e = FileEntry { path: "a".to_string(), size: 5, hash: None, source: FileSource::Local };
    let h = attach_digest(e.clone(), Some(b"hello"));
    assert_eq!(h.hash.as_deref(), Some("2cf24dba5fb0a30e26e83b2ac5b9e29e1b161e5c1fa7425e73043362938b9824"));
    assert_eq!(h.path, "a");
    assert_eq!(h.size, 5);
    let unread = attach_digest(e, None);
    assert!(unread.hash.is_none());
}

#[test]
fn size_filter_is_inclusive_and_skips_non_files() {
    let entries = vec![
        walk("small", true, Some(99)),
        walk("edge", true, Some(100)),
        walk("dir", false, Some(4096)),
        walk("unreadable", true, None),
        walk("big", true, Some(5000)),
    ];
    let r = select_files(&entries, 100, FileSource::Local);
    assert_eq!(paths(&r), vec!["edge".to_string(), "big".to_string()]);
    assert_eq!(r[0].size, 100);
    assert!(r.iter().all(|f| f.hash.is_none() && f.source == FileSource::Local));
}

#[test]
fn size_filter_on_empty_walk() {
    let r = select_files(&vec![], 0, FileSource::Local);
    assert!(r.is_empty());
}

#[test]
fn scanner_counts_accepted_entries() {
    let mut s = Scanner::new(10, FileSource::Local);
    assert_eq!(s.observe(false, walk("a", true, Some(10))), ScanAction::Accepted);
    assert_eq!(s.observe(false, walk("b", true, Some(9))), ScanAction::Skipped);
    assert_eq!(s.observe(false, walk("c", false, Some(50))), ScanAction::Skipped);
    assert_eq!(s.observe(false, walk("d", true, None)), ScanAction::Skipped);
    assert!(!s.cancelled);
    assert_eq!(paths(&s.into_files()), vec!["a".to_string()]);
}

#[test]
fn cancellation_keeps_first_root() {
    let root1 = vec![walk("r1/a", true, Some(20)), walk("r1/b", true, Some(30))];
    let root2 = vec![walk("r2/a", true, Some(40)), walk("r2/b", true, Some(50))];
    let mut s = Scanner::new(10, FileSource::Local);
    for e in root1 {
        assert_eq!(s.observe(false, e), ScanAction::Accepted);
    }
    assert_eq!(s.observe(false, root2[0].clone()), ScanAction::Accepted);
    assert_eq!(s.observe(true, root2[1].clone()), ScanAction::Stop);
    assert!(s.cancelled);
    let got = paths(&s.into_files());
    assert_eq!(got, vec!["r1/a".to_string(), "r1/b".to_string(), "r2/a".to_string()]);
}

#[test]
fn end_to_end_one_group() {
    let mb = 1_048_576usize;
    let contents = vec![padded("hello", mb), padded("hello", mb), padded("world", mb)];
    let entries = vec![
        walk("f1.txt", true, Some(mb as u64)),
        walk("f2.txt", true, Some(mb as u64)),
        walk("f3.txt", true, Some(mb as u64)),
    ];
    let candidates = select_files(&entries, 500_000, FileSource::Local);
    assert_eq!(candidates.len(), 3);
    let hashed: Vec<FileEntry> = candidates
        .into_iter()
        .zip(contents.iter())
        .map(|(e, c)| attach_digest(e, Some(c.as_slice())))
        .collect();
    let groups = group_by_digest(&hashed);
    assert_eq!(groups.len(), 1);
    assert_eq!(paths(&groups[0].files), vec!["f1.txt".to_string(), "f2.txt".to_string()]);
    assert_eq!(groups[0].hash, content_digest(&contents[0]));
    assert!(groups.iter().all(|g| g.files.iter().all(|f| f.path != "f3.txt")));
}

#[test]
fn grouping_drops_singletons_and_unhashed() {
    let mut unread = hashed("x", 1, b"same");
    unread.hash = None;
    let files = vec![
        hashed("a", 4, b"same"),
        hashed("b", 4, b"other"),
        unread,
        hashed("c", 4, b"same"),
        hashed("d", 5, b"third"),
        hashed("e", 5, b"third"),
        hashed("f", 4, b"same"),
    ];
    let groups = group_by_digest(&files);
    assert_eq!(groups.len(), 2);
    assert_eq!(paths(&groups[0].files), vec!["a".to_string(), "c".to_string(), "f".to_string()]);
    assert_eq!(paths(&groups[1].files), vec!["d".to_string(), "e".to_string()]);
    for g in &groups {
        assert!(g.files.len() >= 2);
        assert!(g.files.iter().all(|f| f.hash.as_deref() == Some(g.hash.as_str())));
    }
}

#[test]
fn grouping_twice_gives_same_groups() {
    let files = vec![hashed("a", 1, b"1"), hashed("b", 1, b"1"), hashed("c", 1, b"2")];
    let g1 = group_by_digest(&files);
    let g2 = group_by_digest(&files);
    assert_eq!(g1.len(), g2.len());
    for (x, y) in g1.iter().zip(g2.iter()) {
        assert_eq!(x.hash, y.hash);
        assert_eq!(paths(&x.files), paths(&y.files));
    }
}

#[test]
fn grouping_empty_input() {
    assert!(group_by_digest(&vec![]).is_empty());
}

fn group_abc() -> DuplicateGroup {
    DuplicateGroup {
        hash: "h".to_string(),
        files: vec![hashed("A", 10_000_000, b"x"), hashed("B", 10_000_000, b"x"), hashed("C", 10_000_000, b"x")],
    }
}

fn outcome(size: Option<u64>, deleted: bool, reason: &str) -> DeleteOutcome {
    DeleteOutcome { size, deleted, reason: reason.to_string() }
}

#[test]
fn cleanup_deletes_all_but_first() {
    let g = group_abc();
    let outs = vec![outcome(Some(10_000_000), true, ""), outcome(Some(10_000_000), true, "")];
    let (report, rest) = apply_cleanup(&g, &outs);
    assert_eq!(report.deleted_count, 2);
    assert_eq!(report.reclaimed_bytes, 20_000_000);
    assert!(report.failures.is_empty());
    assert_eq!(paths(&rest.files), vec!["A".to_string()]);
    assert_eq!(rest.hash, "h");
}

#[test]
fn cleanup_partial_failure() {
    let g = group_abc();
    let outs = vec![outcome(Some(10_000_000), false, "locked"), outcome(Some(10_000_000), true, "")];
    let (report, rest) = apply_cleanup(&g, &outs);
    assert_eq!(report.deleted_count, 1);
    assert_eq!(report.reclaimed_bytes, 10_000_000);
    assert_eq!(report.failures.len(), 1);
    assert_eq!(report.failures[0].path, "B");
    assert_eq!(report.failures[0].reason, "locked");
    assert_eq!(paths(&rest.files), vec!["A".to_string(), "B".to_string()]);
}

#[test]
fn cleanup_unknown_size_counts_zero() {
    let g = group_abc();
    let outs = vec![outcome(None, true, ""), outcome(Some(7), true, "")];
    let (report, _) = apply_cleanup(&g, &outs);
    assert_eq!(report.deleted_count, 2);
    assert_eq!(report.reclaimed_bytes, 7);
}

#[test]
fn scan_state_lifecycle() {
    assert!(ScanState::Idle.can_start());
    assert!(ScanState::Done.can_start());
    assert!(ScanState::Cancelled.can_start());
    assert!(!ScanState::Working.can_start());
    assert_eq!(ScanState::Working.poll(true, true), ScanState::Done);
    assert_eq!(ScanState::Working.poll(false, true), ScanState::Cancelled);
    assert_eq!(ScanState::Working.poll(false, false), ScanState::Working);
    assert_eq!(ScanState::Done.poll(false, true), ScanState::Done);
    assert_eq!(ScanState::Idle.poll(true, true), ScanState::Idle);
}

#[test]
fn config_defaults() {
    let c = ScanConfig::default();
    assert!(c.roots.is_empty());
    assert_eq!(c.min_size, DEFAULT_MIN_SIZE);
    assert_eq!(DEFAULT_MIN_SIZE, 1_000_000);
    let c2 = ScanConfig::new(vec!["/data".to_string()], 5);
    assert_eq!(c2.roots, vec!["/data".to_string()]);
    assert_eq!(c2.min_size, 5);
}

#[test]
fn unavailable_root_is_reported_apart() {
    let mut s = Scanner::new(1, FileSource::Local);
    s.root_unavailable("/missing".to_string());
    assert_eq!(s.observe(false, walk("/ok/a", true, Some(3))), ScanAction::Accepted);
    assert_eq!(s.failed_roots, vec!["/missing".to_string()]);
    assert_eq!(paths(&s.into_files()), vec!["/ok/a".to_string()]);
}
