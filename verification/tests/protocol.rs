use wanix_cli::terminal::activity::ShellMutationOperation;
use wanix_cli::terminal::history::{
    HistoryEntry, ShellHistoryContext, history_operation_for, markdown_cell, shell_history_entry,
    shell_history_entries,
    shell_history_markdown, shell_history_markdown_row, shell_history_paths,
};
use wanix_cli::terminal::observation::ShellCommandObservation;
use wanix_cli::terminal::protocol::{
    json_string, shell_exit_message, shell_mutation_message, shell_operation_json,
    shell_operation_outcome_json, shell_operation_outcome_status, shell_session_message,
};

fn rm_operation() -> ShellMutationOperation {
    ShellMutationOperation {
        kind: "rm".to_owned(),
        command: "rm missing.txt".to_owned(),
        status: "unchanged".to_owned(),
        evidence: Some("qjs-shell-command-record".to_owned()),
        diagnostic: Some("rm: missing.txt: errno -44".to_owned()),
        exit_code: Some(0),
        terminal_output: Some("rm: missing.txt: errno -44".to_owned()),
        source: None,
        target: Some("/app/missing.txt".to_owned()),
        paths: Vec::new(),
    }
}

#[test]
fn json_strings_escape_quotes_and_controls() {
    assert_eq!(json_string("a\"b\\c\nd\te\u{1}"), "\"a\\\"b\\\\c\\nd\\te\\u0001\"");
    assert_eq!(json_string("é"), "\"é\"");
    assert_eq!(json_string("\u{7f}"), "\"\\u007f\"");
}

#[test]
fn session_exit_and_mutation_messages() {
    assert_eq!(
        shell_session_message("7", "3", "/app"),
        "{\"type\":\"session\",\"protocol\":\"wanix-qjs-shell.v1\",\"taskId\":\"7\",\"terminalId\":\"3\",\"cwd\":\"/app\"}"
    );
    assert_eq!(shell_exit_message(-2), "{\"type\":\"exit\",\"code\":-2}");
    assert_eq!(
        shell_mutation_message("7", "3", ".", &["/a".to_owned(), "/b".to_owned()], &[]),
        "{\"type\":\"mutation\",\"protocol\":\"wanix-qjs-shell.v1\",\"taskId\":\"7\",\"terminalId\":\"3\",\"cwd\":\".\",\"paths\":[\"/a\",\"/b\"],\"operations\":[]}"
    );
}

#[test]
fn operation_objects_report_their_outcome() {
    let op = rm_operation();
    assert_eq!(shell_operation_outcome_status(&op), "error");
    assert_eq!(
        shell_operation_outcome_json(&op),
        "{\"status\":\"error\",\"changed\":false,\"diagnostic\":\"rm: missing.txt: errno -44\",\"exitCode\":0,\"terminalOutput\":\"rm: missing.txt: errno -44\"}"
    );
    let json = shell_operation_json(&op);
    assert!(json.starts_with("{\"kind\":\"rm\",\"command\":\"rm missing.txt\",\"status\":\"unchanged\",\"target\":\"/app/missing.txt\""));
    assert!(json.ends_with(",\"paths\":[]}"));
    let mut ok = rm_operation();
    ok.diagnostic = None;
    ok.status = "changed".to_owned();
    assert_eq!(shell_operation_outcome_status(&ok), "ok");
    ok.status = "unchanged".to_owned();
    assert_eq!(shell_operation_outcome_status(&ok), "unchanged");
}

#[test]
fn history_rows_and_page() {
    let context = ShellHistoryContext {
        task_id: "7".to_owned(),
        terminal_id: "3".to_owned(),
        cwd: "/app".to_owned(),
    };
    let record = ShellCommandObservation {
        command: Some("rm missing.txt".to_owned()),
        evidence: Some("qjs-shell-command-record".to_owned()),
        diagnostic: Some("rm: missing.txt: errno -44".to_owned()),
        exit_code: Some(0),
        terminal_output: Some("rm: missing.txt: errno -44".to_owned()),
    };
    let operations = vec![rm_operation()];
    let index = history_operation_for(&record, &operations);
    assert_eq!(index, Some(0));
    let entry: HistoryEntry = shell_history_entry(&context, 42, &record, Some(&operations[0]));
    assert_eq!(entry.outcome.status, "error");
    assert!(!entry.outcome.changed);
    assert_eq!(
        shell_history_markdown_row(&entry),
        "| rm missing.txt | error | false | /app/missing.txt | qjs-shell-command-record |"
    );
    let page = shell_history_markdown(&[entry]);
    assert!(page.contains("# Wanix qjs Shell Command History"));
    assert!(page.contains(
        "| rm missing.txt | error | false | /app/missing.txt | qjs-shell-command-record |"
    ));
    assert!(page.ends_with("latest batch from the served qjs-shell.\n"));
    assert_eq!(
        shell_history_paths(),
        vec![
            "/.wanix/qjs-shell/commands.jsonl".to_owned(),
            "/.wanix/qjs-shell/latest.json".to_owned(),
            "/.wanix/qjs-shell/latest.md".to_owned(),
        ]
    );
    assert_eq!(markdown_cell(Some("a|b\nc")), "a\\|b c");
    assert_eq!(markdown_cell(None), "");
}

#[test]
fn history_batch_keeps_only_recorded_commands() {
    let context = ShellHistoryContext {
        task_id: "7".to_owned(),
        terminal_id: "3".to_owned(),
        cwd: "/app".to_owned(),
    };
    let unnamed = ShellCommandObservation {
        command: None,
        evidence: None,
        diagnostic: None,
        exit_code: Some(1),
        terminal_output: None,
    };
    let rm = ShellCommandObservation {
        command: Some("rm missing.txt".to_owned()),
        evidence: None,
        diagnostic: None,
        exit_code: Some(0),
        terminal_output: None,
    };
    let ls = ShellCommandObservation {
        command: Some("ls".to_owned()),
        evidence: None,
        diagnostic: None,
        exit_code: Some(2),
        terminal_output: None,
    };
    let mut changed = rm_operation();
    changed.status = "changed".to_owned();
    let operations = vec![changed, rm_operation()];
    let entries = shell_history_entries(&context, 99, &[unnamed, rm, ls], &operations);
    assert_eq!(entries.len(), 2);
    assert_eq!(entries[0].command.as_deref(), Some("rm missing.txt"));
    assert_eq!(entries[0].observed_at_unix_millis, 99);
    assert_eq!(entries[0].cwd, "/app");
    assert!(entries[0].outcome.changed);
    assert_eq!(entries[0].outcome.status, "ok");
    assert_eq!(entries[0].operation.as_ref().map(|o| o.status.as_str()), Some("changed"));
    assert_eq!(entries[1].command.as_deref(), Some("ls"));
    assert_eq!(entries[1].outcome.status, "error");
    assert!(entries[1].operation.is_none());
    assert!(!entries[1].outcome.changed);
}

#[test]
fn json_strings_read_back_through_a_json_parser() {
    for value in ["", "plain", "quote\" back\\slash", "tab\tnew\nline\rret", "\u{1}\u{1f}\u{7f}\u{9f}", "é✓🙂"] {
        let text = json_string(value);
        assert!(text.starts_with('"') && text.ends_with('"'));
        assert!(!text.chars().any(|c| (c as u32) < 0x20));
        let back: String = serde_json::from_str(&text).unwrap();
        assert_eq!(back, value);
    }
}
