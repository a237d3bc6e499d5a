use wanix_cli::terminal::root_changes::{
    EntryKind, EntrySignature, RootChangeTracker, wanix_path,
};

fn file(len: u64, modified_nanos: u128) -> EntrySignature {
    EntrySignature { kind: EntryKind::File, len, modified_nanos }
}

fn scan(entries: &[(&str, EntrySignature)]) -> Vec<(String, EntrySignature)> {
    entries.iter().map(|(p, s)| (p.to_string(), *s)).collect()
}

#[test]
fn tracks_created_modified_and_removed_paths() {
    let mut tracker = RootChangeTracker::new(Vec::new());

    assert_eq!(tracker.take_changed_paths(scan(&[("/made.txt", file(3, 1))])), ["/made.txt"]);
    assert_eq!(tracker.take_changed_paths(scan(&[("/made.txt", file(3, 2))])), ["/made.txt"]);
    assert_eq!(tracker.take_changed_paths(Vec::new()), ["/made.txt"]);
}

#[test]
fn unchanged_scan_reports_nothing_and_order_is_text_order() {
    let first = scan(&[("/b", file(1, 1)), ("/a", file(1, 1)), ("/dir", EntrySignature {
        kind: EntryKind::Directory,
        len: 0,
        modified_nanos: 5,
    })]);
    let mut tracker = RootChangeTracker::new(first.clone());
    assert!(tracker.take_changed_paths(first.clone()).is_empty());

    let second = scan(&[("/c", file(1, 1)), ("/b", file(2, 1)), ("/a", file(1, 1))]);
    assert_eq!(tracker.take_changed_paths(second), ["/b", "/c", "/dir"]);
}

#[test]
fn wanix_paths_start_at_the_root() {
    assert_eq!(wanix_path(&[]), "/");
    assert_eq!(wanix_path(&["docs".to_owned(), "a.md".to_owned()]), "/docs/a.md");
}
