use wanix_cli::terminal::command_record::{
    QJS_SHELL_COMMAND_RECORD_EVIDENCE, ShellCommandRecord, parse_shell_command_record,
    strip_shell_command_records,
};
use wanix_cli::terminal::observation::{ShellCommandObservation, ShellCommandObservations};

#[test]
fn strips_and_decodes_shell_command_records() {
    assert_eq!(QJS_SHELL_COMMAND_RECORD_EVIDENCE, "qjs-shell-command-record");
    let (visible, records) = strip_shell_command_records(
        b"write a\r\nwrote a\r\n\x1b]777;wanix-qjs-shell-command;{\"schema\":\"wanix.qjs-shell.command.v1\",\"command\":\"write a\",\"terminalOutput\":\"wrote a\",\"exitCode\":0}\x07$ ".to_vec(),
    );

    assert_eq!(visible, b"write a\r\nwrote a\r\n$ ");
    assert_eq!(
        records,
        vec![ShellCommandRecord {
            command: "write a".to_owned(),
            diagnostic: None,
            exit_code: Some(0),
            terminal_output: Some("wrote a".to_owned()),
        }]
    );
}

#[test]
fn leaves_incomplete_records_visible() {
    let output = b"\x1b]777;wanix-qjs-shell-command;{\"command\":\"oops\"".to_vec();

    let (visible, records) = strip_shell_command_records(output.clone());

    assert_eq!(visible, output);
    assert!(records.is_empty());
}

#[test]
fn record_payloads_need_the_schema_and_a_command() {
    assert!(parse_shell_command_record(b"{\"command\":\"ls\"}").is_none());
    assert!(parse_shell_command_record(
        b"{\"schema\":\"wanix.qjs-shell.command.v1\",\"command\":\"\"}"
    )
    .is_none());
    assert!(parse_shell_command_record(b"not json").is_none());
    let record = parse_shell_command_record(
        b"{\"schema\":\"wanix.qjs-shell.command.v1\",\"command\":\"rm x\",\"diagnostic\":\"\",\"exitCode\":99999999999}",
    )
    .unwrap();
    assert_eq!(record.command, "rm x");
    assert_eq!(record.diagnostic, None);
    assert_eq!(record.exit_code, None);
}

#[test]
fn undecodable_frames_are_removed_without_a_record() {
    let (visible, records) =
        strip_shell_command_records(b"a\x1b]777;wanix-qjs-shell-command;junk\x07b".to_vec());
    assert_eq!(visible, b"ab");
    assert!(records.is_empty());
}

#[test]
fn plain_output_passes_through_unchanged() {
    let output = b"hello\r\n\x1b]0;title\x07".to_vec();
    let (visible, records) = strip_shell_command_records(output.clone());
    assert_eq!(visible, output);
    assert!(records.is_empty());
}

#[test]
fn observations_prefer_records_then_the_fallback() {
    let fallback = ShellCommandObservation {
        command: None,
        evidence: Some("fallback".to_owned()),
        diagnostic: None,
        exit_code: None,
        terminal_output: None,
    };
    let record = ShellCommandRecord {
        command: "write a".to_owned(),
        diagnostic: Some("oops".to_owned()),
        exit_code: Some(2),
        terminal_output: None,
    };
    let batch = ShellCommandObservations::new(vec![record], fallback.clone());
    let found = batch.for_command("write a");
    assert_eq!(found.evidence.as_deref(), Some("qjs-shell-command-record"));
    assert!(found.indicates_error());
    assert_eq!(batch.for_command("other"), ShellCommandObservation::default());
    assert_eq!(batch.recorded_commands().len(), 1);

    let empty = ShellCommandObservations::new(Vec::new(), fallback.clone());
    assert_eq!(empty.for_command("anything"), fallback);
    assert!(!fallback.indicates_error());
}
