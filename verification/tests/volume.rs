use wanix_cli::volume::serve::{
    LocalAddr, VolumeSelection, VolumeServeCommand, VolumeServeParser, VolumeServeStep,
    resolve_selection,
};
use wanix_cli::error::CliError;
use wanix_cli::volume::{
    VolumeCommand, list_volumes_in, parse_volume_command, validate_volume_name,
    volume_serve_example_line, volume_serve_line, volumes_root, volume_identity_path,
    resolve_existing_volume,
};

fn args(values: &[&str]) -> Vec<String> {
    values.iter().map(|v| v.to_string()).collect()
}

/// The port of an `IP:PORT` text, standing in for the socket-address parser.
fn port_of(raw: &str) -> Result<u16, String> {
    let (_, port) = raw.rsplit_once(':').ok_or_else(|| "invalid socket address syntax".to_owned())?;
    port.parse::<u16>().map_err(|_| "invalid socket address syntax".to_owned())
}

fn parse_volume_serve_command(args: &[String]) -> Result<VolumeServeCommand, CliError> {
    let mut parser = VolumeServeParser::new();
    loop {
        match parser.step(args) {
            VolumeServeStep::NeedAddr(raw) => {
                if let Some(error) = parser.supply_addr(args, port_of(&raw)) {
                    return Err(error);
                }
            }
            VolumeServeStep::Done(result) => return result,
        }
    }
}

#[test]
fn volume_name_validation_accepts_and_rejects() {
    for good in ["notes", "photos", "my-notes", "v1.0", "a", "A_B-c.9"] {
        validate_volume_name(good).unwrap();
    }
    for bad in [
        "", "..", ".", "../x", "a/b", "a\\b", ".hidden", "-x", "x-", "x.", "na me", "💾",
    ] {
        assert!(validate_volume_name(bad).is_err(), "{bad:?} should be rejected");
    }
}

#[test]
fn parse_volume_create_and_ls() {
    assert_eq!(
        parse_volume_command(&args(&["create", "notes"])).unwrap(),
        VolumeCommand::Create { name: "notes".to_owned() }
    );
    assert_eq!(parse_volume_command(&args(&["ls"])).unwrap(), VolumeCommand::Ls);
}

#[test]
fn parse_volume_rejects_bad_shapes() {
    for bad in [
        vec![],
        vec!["bogus"],
        vec!["create"],
        vec!["create", "a", "b"],
        vec!["create", "../escape"],
        vec!["ls", "extra"],
    ] {
        assert!(parse_volume_command(&args(&bad)).is_err(), "{bad:?} should be a usage error");
    }
}

#[test]
fn volume_usage_errors_quote_the_input() {
    let error = validate_volume_name("a b").unwrap_err();
    assert_eq!(error.exit_code(), 2);
    assert!(error.to_string().starts_with("invalid volume name \"a b\": "));
    let unknown = parse_volume_command(&args(&["grow"])).unwrap_err();
    assert_eq!(
        unknown.to_string(),
        "volume: unknown subcommand \"grow\" (expected create NAME | ls)"
    );
}

#[test]
fn parse_accepts_explicit_volumes_and_all() {
    let explicit = parse_volume_serve_command(&args(&[
        "--volume",
        "notes",
        "--volume",
        "photos",
        "--addr",
        "127.0.0.1:0",
    ]))
    .unwrap();
    assert_eq!(
        explicit.selection,
        VolumeSelection::Explicit(vec!["notes".to_owned(), "photos".to_owned()])
    );
    assert_eq!(
        explicit.local_addr,
        Some(LocalAddr { text: "127.0.0.1:0".to_owned(), port: 0 })
    );

    let all = parse_volume_serve_command(&args(&["--all", "--insecure-open"])).unwrap();
    assert_eq!(all.selection, VolumeSelection::All);
}

#[test]
fn parse_allows_single_volume_on_a_fixed_port() {
    parse_volume_serve_command(&args(&["--volume", "notes", "--addr", "127.0.0.1:8080"])).unwrap();
}

#[test]
fn parse_enforces_public_endpoint_posture() {
    let error = parse_volume_serve_command(&args(&["--volume", "notes"])).unwrap_err();
    assert_eq!(error.exit_code(), 2);
    assert!(error.to_string().contains("public endpoint"), "got {}", error.to_string());

    parse_volume_serve_command(&args(&["--volume", "notes", "--insecure-open"])).unwrap();
    parse_volume_serve_command(&args(&["--all", "--insecure-open"])).unwrap();
    parse_volume_serve_command(&args(&["--volume", "notes", "--addr", "127.0.0.1:0"])).unwrap();
}

#[test]
fn tests_parse_rejects_bad_combinations() {
    for bad in [
        vec![],
        vec!["--all", "--volume", "notes"],
        vec!["--volume", "notes", "--volume", "notes"],
        vec!["--volume", "../escape"],
        vec!["--volume", "a", "--volume", "b", "--addr", "127.0.0.1:8080"],
        vec!["--bogus"],
    ] {
        assert!(parse_volume_serve_command(&args(&bad)).is_err(), "{bad:?} should be a usage error");
    }
}

#[test]
fn volume_serve_messages_name_the_problem() {
    let fixed = parse_volume_serve_command(&args(&[
        "--volume", "a", "--volume", "b", "--addr", "127.0.0.1:8080",
    ]))
    .unwrap_err();
    assert_eq!(
        fixed.to_string(),
        "volume serve: serving 2 volumes needs a unique port per endpoint; pass --addr with port 0 (e.g. 127.0.0.1:0) instead of a fixed port"
    );
    let bad_addr =
        parse_volume_serve_command(&args(&["--volume", "a", "--addr", "nope"])).unwrap_err();
    assert_eq!(
        bad_addr.to_string(),
        "volume serve --addr must be IP:PORT: invalid socket address syntax"
    );
    let dup = parse_volume_serve_command(&args(&["--volume", "a", "--volume", "a"])).unwrap_err();
    assert_eq!(dup.to_string(), "volume serve: --volume a given more than once");
}

#[test]
fn volume_lines_and_listing() {
    assert_eq!(volume_serve_line("notes", "iroh://x"), "notes\tiroh://x\n");
    assert_eq!(
        volume_serve_example_line("iroh://x"),
        "# mount with: wanix-rust mount-ls 'iroh://x'\n"
    );
    assert_eq!(
        list_volumes_in(vec!["photos".to_owned(), "notes".to_owned(), "a".to_owned()]),
        "a\nnotes\nphotos\n"
    );
    assert_eq!(list_volumes_in(Vec::new()), "");
}

#[test]
fn volume_serve_selection_resolves_names() {
    let explicit = VolumeSelection::Explicit(args(&["b", "a"]));
    assert_eq!(resolve_selection(&explicit, args(&["z"])).unwrap(), args(&["b", "a"]));

    let all = resolve_selection(&VolumeSelection::All, args(&["notes", "data", "logs"])).unwrap();
    assert_eq!(all, args(&["data", "logs", "notes"]));

    let none = resolve_selection(&VolumeSelection::All, Vec::new()).unwrap_err();
    assert_eq!(
        none.message,
        "volume serve: no volumes to serve (none defined; create one with `wanix volume create NAME`)"
    );
    assert_eq!(none.exit_code(), 1);
    assert!(resolve_selection(&VolumeSelection::Explicit(Vec::new()), args(&["a"])).is_err());
}

#[test]
fn volume_paths_under_the_wanix_dir() {
    assert_eq!(volumes_root("/home/u/.wanix"), "/home/u/.wanix/volumes");
    assert_eq!(volumes_root("/home/u/.wanix/"), "/home/u/.wanix/volumes");
    assert_eq!(
        volume_identity_path("/home/u/.wanix", "notes").unwrap(),
        "/home/u/.wanix/volume-identities/notes.key"
    );
    assert_eq!(volume_identity_path("/w", "../escape").unwrap_err().exit_code(), 2);
}

#[test]
fn resolve_existing_volume_finds_present_and_rejects_missing() {
    assert_eq!(resolve_existing_volume("/v", "notes", true).unwrap(), "/v/notes");
    let missing = resolve_existing_volume("/v", "ghost", false).unwrap_err();
    assert_eq!(missing.exit_code(), 1);
    assert!(missing.to_string().contains("does not exist"));
    assert_eq!(
        missing.to_string(),
        "volume \"ghost\" does not exist at /v/ghost; create it with `wanix volume create ghost`"
    );
    let invalid = resolve_existing_volume("/v", "../escape", true).unwrap_err();
    assert_eq!(invalid.exit_code(), 2);
}
