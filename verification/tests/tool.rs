use wanix_cli::error::CliError;
use wanix_cli::tool::config::{
    ConfigLifecycle, ConfigLimits, ProcInputMode, ProcOutputMode, ProcToolConfig,
    ToolConfigFile, validate_name,
};
use wanix_cli::tool::process::{
    ErrorKind, Kill, ProcessExit, capture_chunk, child_argv, kill_trigger, output_file_error,
    run_failure, stream_lines, run_outcome, reads_output_file, JobError,
};
use wanix_cli::tool::serve::{ToolServeCommand, ToolServeParser, ToolServeStep};
use wanix_cli::tool::{
    BuiltinTool, builtin_tool, builtin_tool_description, builtin_tool_names, sha256_hex_line,
    tool_identity_path,
};

fn args(values: &[&str]) -> Vec<String> {
    values.iter().map(|v| v.to_string()).collect()
}

fn port_of(raw: &str) -> Result<u16, String> {
    let (_, port) = raw.rsplit_once(':').ok_or_else(|| "invalid socket address syntax".to_owned())?;
    port.parse::<u16>().map_err(|_| "invalid socket address syntax".to_owned())
}

fn parse_tool_serve_command(args: &[String]) -> Result<ToolServeCommand, CliError> {
    let mut parser = ToolServeParser::new();
    loop {
        match parser.step(args) {
            ToolServeStep::NeedAddr(raw) => {
                if let Some(error) = parser.supply_addr(args, port_of(&raw)) {
                    return Err(error);
                }
            }
            ToolServeStep::NeedConfig(_) => {
                if let Some(error) =
                    parser.supply_config(args, Err(CliError::usage("no config in this test")))
                {
                    return Err(error);
                }
            }
            ToolServeStep::Done(result) => return result,
        }
    }
}

fn limits() -> ConfigLimits {
    ConfigLimits {
        max_input_bytes: None,
        run_timeout_ms: None,
        max_concurrent_per_principal: None,
        max_jobs_per_principal: None,
        max_bytes_per_principal: None,
        max_total_jobs: None,
        max_total_bytes: None,
        max_out_bytes: None,
        max_err_bytes: None,
    }
}

fn lifecycle() -> ConfigLifecycle {
    ConfigLifecycle { allocated_ttl_ms: None, retain_done_ms: None, retain_failed_ms: None }
}

fn tool(command: &str, tool_args: &[&str], input: ProcInputMode, output: ProcOutputMode) -> ProcToolConfig {
    ProcToolConfig {
        description: "x".to_owned(),
        command: command.to_owned(),
        args: args(tool_args),
        input,
        output,
        visibility: "private".to_owned(),
        limits: limits(),
        lifecycle: lifecycle(),
    }
}

fn file(name: &str, config: ProcToolConfig) -> ToolConfigFile {
    ToolConfigFile { tools: vec![(name.to_owned(), config)] }
}

#[test]
fn sha256_runner_emits_a_lowercase_hex_digest_line() {
    assert_eq!(
        sha256_hex_line(b"hello"),
        b"2cf24dba5fb0a30e26e83b2ac5b9e29e1b161e5c1fa7425e73043362938b9824\n".to_vec()
    );
}

#[test]
fn tempfile_modes_accept_their_placeholders() {
    let f = file(
        "copy",
        tool("/bin/cp", &["{input}", "{output}"], ProcInputMode::Tempfile, ProcOutputMode::Tempfile),
    );
    f.validate().unwrap();
    assert_eq!(f.names(), vec!["copy".to_owned()]);
}

#[test]
fn rejects_a_relative_command() {
    let error = file("t", tool("tr", &[], ProcInputMode::Stdin, ProcOutputMode::Stdout))
        .validate()
        .unwrap_err();
    assert!(error.to_string().contains("absolute"), "{}", error.to_string());
}

#[test]
fn rejects_a_shell_looking_command() {
    for command in ["/bin/sh -c 'cat'", "/bin/cat|/bin/cat", "/bin/echo $HOME"] {
        let error = file("t", tool(command, &[], ProcInputMode::Stdin, ProcOutputMode::Stdout))
            .validate()
            .unwrap_err();
        assert!(error.to_string().contains("shell"), "{command:?}: {}", error.to_string());
    }
}

#[test]
fn rejects_placeholders_outside_their_tempfile_mode() {
    let error = file("t", tool("/bin/cat", &["{input}"], ProcInputMode::Stdin, ProcOutputMode::Stdout))
        .validate()
        .unwrap_err();
    assert!(error.to_string().contains("{input}"), "{}", error.to_string());
    let error = file("t", tool("/bin/cat", &["{output}"], ProcInputMode::Stdin, ProcOutputMode::Stdout))
        .validate()
        .unwrap_err();
    assert!(error.to_string().contains("{output}"), "{}", error.to_string());
}

#[test]
fn rejects_a_missing_or_duplicated_required_placeholder() {
    let error = file("t", tool("/bin/cat", &[], ProcInputMode::Tempfile, ProcOutputMode::Stdout))
        .validate()
        .unwrap_err();
    assert!(error.to_string().contains("exactly one"), "{}", error.to_string());
    let error = file(
        "t",
        tool("/bin/cat", &["{input}", "{input}"], ProcInputMode::Tempfile, ProcOutputMode::Stdout),
    )
    .validate()
    .unwrap_err();
    assert_eq!(
        error.to_string(),
        "tools config: input = \"tempfile\" needs exactly one {input} argument (found 2)"
    );
}

#[test]
fn rejects_embedded_and_unknown_placeholders() {
    let error = file(
        "t",
        tool("/bin/cat", &["--file={input}"], ProcInputMode::Tempfile, ProcOutputMode::Stdout),
    )
    .validate()
    .unwrap_err();
    assert!(error.to_string().contains("whole argument"), "{}", error.to_string());
    let error = file("t", tool("/bin/cat", &["{cmd}"], ProcInputMode::Stdin, ProcOutputMode::Stdout))
        .validate()
        .unwrap_err();
    assert!(error.to_string().contains("unknown placeholder"), "{}", error.to_string());
}

#[test]
fn rejects_non_private_visibility_and_bad_names() {
    let mut public = tool("/bin/cat", &[], ProcInputMode::Stdin, ProcOutputMode::Stdout);
    public.visibility = "public".to_owned();
    let error = file("t", public).validate().unwrap_err();
    assert!(error.to_string().contains("private"), "{}", error.to_string());

    for name in [".hidden", "-flag", "a/b", "no spaces"] {
        let error = file(name, tool("/bin/cat", &[], ProcInputMode::Stdin, ProcOutputMode::Stdout))
            .validate()
            .unwrap_err();
        assert!(error.to_string().contains("tool name"), "{name:?}: {}", error.to_string());
    }
    validate_name("ok.name_1").unwrap();
}

#[test]
fn rejects_an_empty_config() {
    let error = ToolConfigFile { tools: Vec::new() }.validate().unwrap_err();
    assert!(error.to_string().contains("no [tools"));
}

#[test]
fn parse_accepts_tools_addr_and_insecure_open() {
    let parsed = parse_tool_serve_command(&args(&[
        "--tool", "upper", "--tool", "sha256", "--addr", "127.0.0.1:0",
    ]))
    .unwrap();
    assert_eq!(parsed.tools, vec!["upper".to_owned(), "sha256".to_owned()]);
    assert_eq!(parsed.local_addr.as_ref().map(|a| a.port), Some(0));
    assert!(!parsed.insecure_open);

    let public = parse_tool_serve_command(&args(&["--tool", "model", "--insecure-open"])).unwrap();
    assert!(public.insecure_open);
    assert_eq!(public.local_addr, None);
}

#[test]
fn tests_parse_enforces_public_endpoint_posture() {
    let error = parse_tool_serve_command(&args(&["--tool", "upper"])).unwrap_err();
    assert_eq!(error.exit_code(), 2);
    assert!(error.to_string().contains("public endpoint"), "{}", error.to_string());
}

#[test]
fn parse_rejects_bad_combinations() {
    for bad in [
        vec![],
        vec!["--tool", "upper", "--tool", "upper"],
        vec!["--tool", "rm-rf"],
        vec!["--tool", "upper", "--tool", "model", "--addr", "127.0.0.1:8080"],
        vec!["--bogus"],
    ] {
        assert!(parse_tool_serve_command(&args(&bad)).is_err(), "{bad:?} should be a usage error");
    }
}

#[test]
fn parse_names_the_builtins_for_an_unknown_tool() {
    let error = parse_tool_serve_command(&args(&["--tool", "nope"])).unwrap_err();
    assert!(error.to_string().contains("model, sha256, upper"), "{}", error.to_string());
}

#[test]
fn config_tools_shadow_builtins_and_serve_by_default() {
    let args = args(&["--config", "tools.toml", "--listen", "127.0.0.1:0"]);
    let mut parser = ToolServeParser::new();
    let config = file("upper", tool("/usr/bin/tr", &[], ProcInputMode::Stdin, ProcOutputMode::Stdout));
    let mut result = None;
    while result.is_none() {
        match parser.step(&args) {
            ToolServeStep::NeedConfig(path) => {
                assert_eq!(path, "tools.toml");
                assert!(parser.supply_config(&args, Ok(config.clone())).is_none());
            }
            ToolServeStep::NeedAddr(raw) => {
                assert!(parser.supply_addr(&args, port_of(&raw)).is_none());
            }
            ToolServeStep::Done(r) => result = Some(r),
        }
    }
    let command = result.unwrap().unwrap();
    assert_eq!(command.tools, vec!["upper".to_owned()]);
    assert_eq!(command.config, Some(config));
}

#[test]
fn kill_reasons_come_in_order() {
    assert_eq!(kill_trigger(true, Some(0), 5, true, true), Some(Kill::Aborted));
    assert_eq!(kill_trigger(false, Some(4), 5, true, false), Some(Kill::Timeout));
    assert_eq!(kill_trigger(false, Some(5), 5, false, true), Some(Kill::ErrCap));
    assert_eq!(kill_trigger(false, None, 5, false, false), None);
}

#[test]
fn run_verdicts_name_the_failure() {
    let ok = ProcessExit { success: true, code: Some(0) };
    let failed = ProcessExit { success: false, code: Some(3) };
    let signalled = ProcessExit { success: false, code: None };
    assert_eq!(run_failure(Some(ok), None, 10, 20), None);
    let e = run_failure(Some(failed), None, 10, 20).unwrap();
    assert_eq!(e.kind, ErrorKind::RunnerFailed);
    assert_eq!(e.message, "process exited with status 3");
    let e = run_failure(Some(signalled), None, 10, 20).unwrap();
    assert_eq!(e.message, "process terminated by a signal");
    let e = run_failure(Some(ok), Some(Kill::OutCap), 10, 20).unwrap();
    assert_eq!(e.message, "output exceeded maxOutBytes (10); process killed");
    let e = run_failure(None, None, 10, 20).unwrap();
    assert_eq!(e.kind, ErrorKind::Internal);
    assert_eq!(
        output_file_error(11, 10).unwrap().message,
        "output file exceeded maxOutBytes (10)"
    );
    assert!(output_file_error(10, 10).is_none());
}

#[test]
fn argv_placeholders_become_workdir_paths() {
    let argv = child_argv(&args(&["-f", "{input}", "{output}", "x{input}"]), "/w/input", "/w/output");
    assert_eq!(argv, ["-f", "/w/input", "/w/output", "x{input}"]);
}

#[test]
fn captures_stop_at_the_cap() {
    let mut captured = Vec::new();
    let mut full = false;
    capture_chunk(&mut captured, &mut full, 5, b"abc");
    assert!(!full);
    capture_chunk(&mut captured, &mut full, 5, b"defg");
    assert!(full);
    assert_eq!(captured, b"abcde");
    capture_chunk(&mut captured, &mut full, 5, b"h");
    assert_eq!(captured, b"abcde");
}

#[test]
fn diagnostics_split_into_event_lines() {
    let mut pending = b"par".to_vec();
    let lines = stream_lines(&mut pending, b"tial\nnext\nrest");
    assert_eq!(lines, vec![b"partial\n".to_vec(), b"next\n".to_vec()]);
    assert_eq!(pending, b"rest");
    let long = vec![b'x'; 9000];
    let mut pending = Vec::new();
    let lines = stream_lines(&mut pending, &long);
    assert_eq!(lines.len(), 1);
    assert_eq!(lines[0].len(), 9001);
    assert!(pending.is_empty());
}

#[test]
fn tool_identity_keys_live_beside_the_node_key() {
    assert_eq!(tool_identity_path("/home/u/.wanix", "upper"), "/home/u/.wanix/tool-identities/upper.key");
    assert_eq!(tool_identity_path("", "upper"), "tool-identities/upper.key");
}

#[test]
fn run_outcome_picks_the_output_and_keeps_failures() {
    let ok = Some(ProcessExit { success: true, code: Some(0) });
    let out = b"stdout".to_vec();
    let err = b"stderr".to_vec();

    assert!(!reads_output_file(ProcOutputMode::Stdout, ok, None, 8, 8));
    assert!(reads_output_file(ProcOutputMode::Tempfile, ok, None, 8, 8));
    assert!(!reads_output_file(ProcOutputMode::Tempfile, ok, Some(Kill::Timeout), 8, 8));

    let plain = run_outcome(ProcOutputMode::Stdout, ok, None, 8, 8, out.clone(), err.clone(), None);
    assert_eq!(plain.out, out);
    assert_eq!(plain.err, err);
    assert_eq!(plain.exit_code, Some(0));
    assert!(plain.error.is_none());

    let file = run_outcome(
        ProcOutputMode::Tempfile, ok, None, 8, 8, out.clone(), err.clone(), Some(Ok(b"file".to_vec())),
    );
    assert_eq!(file.out, b"file".to_vec());

    let missing = JobError { kind: ErrorKind::RunnerFailed, message: "no output file".to_owned() };
    let unread = run_outcome(
        ProcOutputMode::Tempfile, ok, None, 8, 8, out.clone(), err.clone(), Some(Err(missing.clone())),
    );
    assert!(unread.out.is_empty());
    assert_eq!(unread.error, Some(missing));

    let failed = run_outcome(
        ProcOutputMode::Tempfile,
        Some(ProcessExit { success: false, code: Some(3) }),
        None,
        8,
        8,
        out.clone(),
        err.clone(),
        None,
    );
    assert_eq!(failed.out, out);
    assert_eq!(failed.exit_code, Some(3));
    let error = failed.error.unwrap();
    assert_eq!(error.kind, ErrorKind::RunnerFailed);
    assert_eq!(error.message, "process exited with status 3");
}

#[test]
fn builtin_tools_are_selected_by_name() {
    for name in builtin_tool_names() {
        assert!(builtin_tool(name).is_ok(), "{name}");
    }
    assert_eq!(builtin_tool("upper").unwrap(), BuiltinTool::Upper);
    let error = builtin_tool("rm-rf").unwrap_err();
    assert_eq!(error.exit_code(), 2);
    assert!(error.to_string().contains("model, sha256, upper"), "{}", error.to_string());
    assert_eq!(
        error.to_string(),
        "tool serve: unknown built-in tool \"rm-rf\" (available: model, sha256, upper)"
    );
    let model = builtin_tool_description(BuiltinTool::Model).to_lowercase();
    assert!(model.contains("fake") && model.contains("no real llm"), "{model}");
}

#[test]
fn config_tools_stand_in_name_order_once_each() {
    let t = || tool("/usr/bin/tr", &[], ProcInputMode::Stdin, ProcOutputMode::Stdout);
    let sorted = ToolConfigFile { tools: vec![("alpha".to_owned(), t()), ("beta".to_owned(), t())] };
    assert!(sorted.is_in_name_order());
    let reversed = ToolConfigFile { tools: vec![("beta".to_owned(), t()), ("alpha".to_owned(), t())] };
    assert!(!reversed.is_in_name_order());
    let twice = ToolConfigFile { tools: vec![("alpha".to_owned(), t()), ("alpha".to_owned(), t())] };
    assert!(!twice.is_in_name_order());
    assert!(ToolConfigFile { tools: Vec::new() }.is_in_name_order());
}
