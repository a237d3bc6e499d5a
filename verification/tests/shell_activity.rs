use wanix_cli::terminal::activity::{
    ShellInputActivityTracker, operation, operations_for_changed_paths,
    operations_without_changed_paths, resolve_wanix_path, shell_redirection_paths, shell_words,
    unique_paths,
};

#[test]
fn parses_shell_words_with_quotes_and_escapes() {
    assert_eq!(
        shell_words(r#"write "made file.txt" hello\ world"#),
        ["write", "made file.txt", "hello world"]
    );
}

#[test]
fn resolves_wanix_paths_against_shell_cwd() {
    assert_eq!(resolve_wanix_path(".", "made.txt"), "/made.txt");
    assert_eq!(resolve_wanix_path("app/sub", "../made.txt"), "/app/made.txt");
    assert_eq!(resolve_wanix_path("app", "/made.txt"), "/made.txt");
}

#[test]
fn tracks_write_and_move_operations() {
    let mut tracker = ShellInputActivityTracker::new("app");
    let operations = tracker.observe_input(b"write made.txt hello\nmv made.txt moved.txt\n");

    assert_eq!(operations.len(), 2);
    assert_eq!(operations[0].kind, "write");
    assert_eq!(operations[0].status, "changed");
    assert_eq!(operations[0].target.as_deref(), Some("/app/made.txt"));
    assert_eq!(operations[0].paths, ["/app/made.txt"]);
    assert_eq!(operations[1].kind, "mv");
    assert_eq!(operations[1].source.as_deref(), Some("/app/made.txt"));
    assert_eq!(operations[1].target.as_deref(), Some("/app/moved.txt"));
    assert_eq!(operations[1].paths, ["/app/made.txt", "/app/moved.txt"]);
}

#[test]
fn syncs_cwd_and_filters_operations_to_changed_paths() {
    let mut tracker = ShellInputActivityTracker::new(".");
    tracker.observe_input(b"cd app\n");
    tracker.sync_cwd("app");
    let operations = tracker.observe_input(b"qjs demo.js > out.txt 2> err.txt\n");
    let filtered = operations_for_changed_paths(
        &operations,
        &["/app/out.txt".to_owned(), "/app/err.txt".to_owned()],
    );

    assert_eq!(filtered.len(), 1);
    assert_eq!(filtered[0].kind, "redirect");
    assert_eq!(filtered[0].paths, ["/app/out.txt", "/app/err.txt"]);
}

#[test]
fn marks_operations_without_changed_paths_as_unchanged() {
    let mut tracker = ShellInputActivityTracker::new("app");
    let operations = tracker.observe_input(b"rm missing.txt\n");
    let unchanged =
        operations_without_changed_paths(&operations, Some("rm: missing.txt: errno -44"));

    assert_eq!(unchanged.len(), 1);
    assert_eq!(unchanged[0].kind, "rm");
    assert_eq!(unchanged[0].status, "unchanged");
    assert_eq!(
        unchanged[0].diagnostic.as_deref(),
        Some("rm: missing.txt: errno -44")
    );
    assert_eq!(unchanged[0].target.as_deref(), Some("/app/missing.txt"));
    assert!(unchanged[0].paths.is_empty());
}

#[test]
fn device_paths_stay_as_written_and_dots_fold_away() {
    assert_eq!(resolve_wanix_path("app", "#task/new"), "#task/new");
    assert_eq!(resolve_wanix_path("app", "../../.."), "/");
    assert_eq!(resolve_wanix_path("", "a//b/./c"), "/a/b/c");
    let once = resolve_wanix_path("x/y", "../z/./w");
    assert_eq!(resolve_wanix_path("elsewhere", &once), once);
}

#[test]
fn redirections_cover_spaced_and_glued_forms() {
    let words: Vec<String> = ["cat", "a", ">", "one", "2>two", ">>three", "1>>", "four", ">"]
        .iter()
        .map(|w| w.to_string())
        .collect();
    assert_eq!(
        shell_redirection_paths(&words, "d"),
        ["/d/one", "/d/two", "/d/>three", "/d/four"]
    );
}

#[test]
fn unique_paths_drop_repeats_and_device_paths() {
    let paths = vec!["/a".to_owned(), "#dev".to_owned(), "/b".to_owned(), "/a".to_owned()];
    assert_eq!(unique_paths(paths), ["/a", "/b"]);
    let op = operation("cp", "cp a a", Some("/a".to_owned()), Some("/a".to_owned()));
    assert_eq!(op.paths, ["/a"]);
    assert_eq!(op.command, "cp a a");
}

#[test]
fn editing_keys_change_the_line_before_it_finishes() {
    let mut tracker = ShellInputActivityTracker::new(".");
    let ops = tracker.observe_input(b"mkdir x\x7fy\r");
    assert_eq!(ops.len(), 1);
    assert_eq!(ops[0].target.as_deref(), Some("/y"));
    let none = tracker.observe_input(b"rm gone\x03\n");
    assert!(none.is_empty());
    let ln = tracker.observe_input(b"ln -s src dst\ncp only\nls\n");
    assert_eq!(ln.len(), 1);
    assert_eq!(ln[0].kind, "ln-s");
    assert_eq!(ln[0].paths, ["/src", "/dst"]);
}
