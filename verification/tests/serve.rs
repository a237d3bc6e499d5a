use wanix_cli::serve::boot::{
    boot_init_is_executable, direct_v86_boot_json, direct_v86_kernel_candidates,
    first_executable_init_route, first_existing_static_route, rootfs_handoff_readiness,
};
use wanix_cli::serve::command::{
    DEFAULT_SERVE_ADDR, ServeCommandParts, ServeValueOption, normalize_listen_addr,
    parse_serve_command,
};
use wanix_cli::serve::diagnostics::{
    drain_connection_errors, raw9p_startup_message, write_continue_after_error,
};
use wanix_cli::serve::grant::{GrantSpec, Rights, hex_value, parse_peer};
use wanix_cli::serve::html::direct_v86_bundle_html;
use wanix_cli::serve::discovery::{
    app_route_json, display_host, rootfs_handoff_response, serve_discovery_json,
    serve_rootfs_route_json, serve_services_json,
};
use wanix_cli::error::CliError;
use wanix_cli::serve::webdoor::{
    WebBindSource, bind_source, qualify_bind_name, split_web_bind, unroutable_bind_name,
};
use wanix_cli::http::response::HttpStatus;
use wanix_cli::terminal_mode::command_requests_raw_tty;
use wanix_cli::wasm::{wasm_argv, wasm_program_name};

fn args(values: &[&str]) -> Vec<String> {
    values.iter().map(|v| v.to_string()).collect()
}

#[test]
fn parse_serve_uses_go_like_defaults_and_options() {
    let default_command = parse_serve_command(&[]).unwrap();
    assert_eq!(default_command.root_path, ".");
    assert_eq!(default_command.addr, DEFAULT_SERVE_ADDR);
    assert_eq!(default_command.bundle, None);
    assert!(!default_command.wanix_services);
    assert!(!default_command.once);

    let command = parse_serve_command(&args(&[
        "examples",
        "--listen",
        ":7654",
        "--bundle",
        "vm-workbench",
        "--wanix-services",
        "--once",
    ]))
    .unwrap();

    assert_eq!(command.root_path, "examples");
    assert_eq!(command.addr, "0.0.0.0:7654");
    assert_eq!(command.bundle, Some("vm-workbench".to_owned()));
    assert!(command.wanix_services);
    assert!(command.once);

    let duplicate_dir = parse_serve_command(&args(&["examples", "dist"])).unwrap_err();
    assert!(duplicate_dir.to_string().contains("only one directory"));
}

#[test]
fn parse_serve_reports_missing_option_values() {
    for (option, expected) in [
        ("--root", "serve --root expects DIR"),
        ("--addr", "serve --addr expects HOST:PORT"),
        ("--listen", "serve --listen expects HOST:PORT"),
        ("--bundle", "serve --bundle expects NAME"),
    ] {
        let error = parse_serve_command(&args(&[option])).unwrap_err();
        assert!(
            error.to_string().contains(expected),
            "{option} produced {}",
            error.to_string()
        );
    }
}

#[test]
fn serve_options_refuse_repeats_and_strays() {
    assert_eq!(
        parse_serve_command(&args(&["--once", "--once"])).unwrap_err().to_string(),
        "serve accepts only one --once"
    );
    assert_eq!(
        parse_serve_command(&args(&["--addr", "a:1", "--listen", "b:2"])).unwrap_err().to_string(),
        "serve accepts only one --addr or --listen"
    );
    assert_eq!(
        parse_serve_command(&args(&["--nope"])).unwrap_err().to_string(),
        "unexpected serve argument: --nope"
    );
    assert_eq!(parse_serve_command(&args(&["--nope"])).unwrap_err().exit_code(), 2);
    assert_eq!(normalize_listen_addr("localhost:1"), "localhost:1");
    assert_eq!(ServeValueOption::Grant.label(), "serve --grant");
    assert_eq!(ServeValueOption::Grant.value_name(), "ANAME:PREFIX:RIGHTS");
    let mut parts = ServeCommandParts::new();
    parts.set_wanix_services().unwrap();
    assert!(parts.set_wanix_services().is_err());
    assert!(parts.finish().wanix_services);
}

#[test]
fn parse_grant_spec_reads_three_fields() {
    let spec = GrantSpec::parse("projects/foo:projects/foo:rw").unwrap();
    assert_eq!(spec.aname, "projects/foo");
    assert_eq!(spec.prefix, "projects/foo");
    assert_eq!(spec.rights, Rights::ReadWrite);

    let ro = GrantSpec::parse("docs:docs:ro").unwrap();
    assert_eq!(ro.rights, Rights::ReadOnly);
}

#[test]
fn parse_grant_spec_rejects_malformed_specs() {
    assert!(GrantSpec::parse("only-two:fields").is_err());
    assert!(GrantSpec::parse("a:b:c:d").is_err());
    assert!(GrantSpec::parse(":b:rw").is_err());
    assert!(GrantSpec::parse("a:b:wx").is_err());
    assert_eq!(
        GrantSpec::parse("a:b:wx").unwrap_err().to_string(),
        "serve --grant RIGHTS must be rw or ro, got \"wx\""
    );
}

#[test]
fn parse_peer_round_trips_hex() {
    let hex = "0".repeat(64);
    assert_eq!(parse_peer(&hex).unwrap(), [0u8; 32].to_vec());

    let ones = "01".repeat(32);
    assert_eq!(parse_peer(&ones).unwrap(), [1u8; 32].to_vec());

    assert!(parse_peer("short").is_err());
    assert!(parse_peer(&"z".repeat(64)).is_err());
    assert_eq!(
        parse_peer("short").unwrap_err().to_string(),
        "serve --peer expects 64 hex digits, got 5 characters"
    );
    assert_eq!(
        parse_peer(&"z".repeat(64)).unwrap_err().to_string(),
        "serve --peer has a non-hex digit 'z'"
    );
    assert_eq!(parse_peer(&"aF".repeat(32)).unwrap(), [0xaf; 32].to_vec());
    assert_eq!(hex_value(b'b').unwrap(), 11);
}

#[test]
fn continue_message_is_only_written_after_connection_errors() {
    let mut stderr = Vec::new();

    write_continue_after_error(0, &mut stderr);
    assert!(stderr.is_empty());

    write_continue_after_error(1, &mut stderr);
    assert_eq!(
        String::from_utf8(stderr).unwrap(),
        "wanix-rust serve --p9: continuing after connection error\n"
    );
}

#[test]
fn raw9p_startup_message_reports_bound_address() {
    assert_eq!(
        raw9p_startup_message("127.0.0.1:4712"),
        "wanix-rust serve: raw 9P listening on tcp://127.0.0.1:4712/\n"
    );
}

#[test]
fn drained_errors_each_get_the_continue_note() {
    let mut stderr = Vec::new();
    assert!(!drain_connection_errors(&[], &mut stderr));
    assert!(stderr.is_empty());
    assert!(drain_connection_errors(&["one\n".to_owned(), "two\n".to_owned()], &mut stderr));
    assert_eq!(
        String::from_utf8(stderr).unwrap(),
        "one\nwanix serve: continuing after connection error\ntwo\nwanix serve: continuing after connection error\n"
    );
}

#[test]
fn raw_tty_request_is_command_specific() {
    assert!(command_requests_raw_tty(&args(&["qjs-shell", "--raw"])));
    assert!(!command_requests_raw_tty(&args(&["qjs-term", "--raw"])));
    assert!(!command_requests_raw_tty(&args(&["qjs-shell", "--cwd", "app"])));
    assert!(!command_requests_raw_tty(&args(&["qjs-shell", "--raw-mode"])));
}

#[test]
fn interactive_sh_is_raw_but_sh_dash_c_and_help_stay_cooked() {
    assert!(command_requests_raw_tty(&args(&["sh"])));
    assert!(command_requests_raw_tty(&args(&["sh", "--mount-mesh", "iroh://abc=/vol"])));
    assert!(!command_requests_raw_tty(&args(&["sh", "-c", "echo hi"])));
    assert!(!command_requests_raw_tty(&args(&["sh", "--help"])));
    assert!(!command_requests_raw_tty(&[]));
}

#[test]
fn boot_readiness_reports_what_is_missing() {
    assert!(boot_init_is_executable(true, 0o755));
    assert!(!boot_init_is_executable(true, 0o644));
    assert!(!boot_init_is_executable(false, 0o755));
    let kernels = direct_v86_kernel_candidates();
    assert_eq!(first_existing_static_route(&kernels, &[false, true]), Some("/bzImage"));
    assert_eq!(first_existing_static_route(&kernels, &[false, false]), None);
    assert_eq!(first_executable_init_route("/bin/init", false), None);
    assert_eq!(
        rootfs_handoff_readiness(None, None).missing,
        vec!["/boot/bzImage", "/bin/init"]
    );
    assert!(rootfs_handoff_readiness(Some("/bzImage"), Some("/bin/init")).missing.is_empty());
    assert_eq!(
        direct_v86_boot_json(Some("/boot/bzImage"), None, Some("/bin/init")),
        "{\"kernel\":\"/boot/bzImage\",\"init\":\"/bin/init\",\"ready\":true}"
    );
    assert_eq!(
        direct_v86_boot_json(None, Some("/initrd"), None),
        "{\"initrd\":\"/initrd\",\"ready\":false,\"missing\":[\"/boot/bzImage\",\"/bin/init\"]}"
    );
}

#[test]
fn wasm_argv_starts_with_the_module_file_name() {
    assert_eq!(wasm_program_name("dir/app.wasm"), "app.wasm");
    assert_eq!(wasm_program_name("dir/app.wasm/"), "app.wasm");
    assert_eq!(wasm_program_name("dir/.."), "guest");
    assert_eq!(wasm_program_name("/"), "guest");
    assert_eq!(
        wasm_argv("x/tool.wasm", vec!["-v".to_owned()]),
        ["tool.wasm", "-v"]
    );
}

#[test]
fn direct_v86_page_fills_every_default() {
    let template = "const DEFAULT_KERNEL_URL = __WANIX_DEFAULT_KERNEL_URL_JSON__;\n\
                    const CMDLINE = __WANIX_DEFAULT_CMDLINE_JSON__;\n\
                    memory: __WANIX_DEFAULT_MEMORY_SIZE__, vga: __WANIX_DEFAULT_VGA_MEMORY_SIZE__, \
                    again: __WANIX_DEFAULT_MEMORY_SIZE__";
    let page = direct_v86_bundle_html(template);
    assert!(page.contains("const DEFAULT_KERNEL_URL = \"/boot/bzImage\""), "{page}");
    assert!(page.contains("const CMDLINE = \"console=hvc0 init=/bin/init rw root=host9p"), "{page}");
    assert!(page.contains("memory: 1073741824, vga: 8388608, again: 1073741824"), "{page}");
    assert!(!page.contains("__WANIX_DEFAULT_"), "{page}");
    assert_eq!(direct_v86_bundle_html("no placeholders"), "no placeholders");
}

#[test]
fn discovery_document_names_routes_under_the_request_host() {
    let doc = serve_discovery_json(
        "demo.local:7654",
        Some("vm-workbench"),
        false,
        Some("/boot/bzImage"),
        Some("/boot/initrd"),
        Some("/bin/init"),
        true,
        Some(Ok(())),
    );
    assert!(doc.starts_with("{\"version\":1,\"runtime\":\"wanix-rust\""), "{doc}");
    assert!(
        doc.contains(
            "\"p9\":{\"websocket\":\"ws://demo.local:7654/.well-known/export9p\",\
             \"transport\":\"direct-binary-websocket\",\"protocol\":\"9p2000.L\",\
             \"supportedProtocols\":[\"9P2000.L\",\"9P2000.L.Google.2\"]}"
        ),
        "{doc}"
    );
    assert!(
        doc.contains(
            "\"rootfs\":{\"url\":\"http://demo.local:7654/.well-known/rootfs.json\",\
             \"kind\":\"wanix-rootfs.v1\",\"status\":\"available\",\"ready\":true}"
        ),
        "{doc}"
    );
    assert!(
        doc.contains(
            "\"ethernet\":{\"websocket\":\"ws://demo.local:7654/.well-known/ethernet\",\
             \"status\":\"not-implemented\"}"
        ),
        "{doc}"
    );
    assert!(doc.contains("\"qjsShell\":{\"status\":\"disabled\"}"), "{doc}");
    assert!(doc.contains("\"bundle\":\"vm-workbench\""), "{doc}");
    assert!(doc.contains("\"assets\":{\"module\":\"/v86/lib/libv86.mjs\""), "{doc}");
    assert!(doc.contains("\"mod\":\"/v86/lib/mod.js\""), "{doc}");
    assert!(doc.contains("\"offscreen\":\"/v86/lib/offscreen.js\""), "{doc}");
    assert!(doc.contains("\"wasm\":\"/v86/bundle/v86.wasm\""), "{doc}");
    assert!(doc.contains("\"bios\":\"/v86/bundle/seabios.bin\""), "{doc}");
    assert!(doc.contains("\"vgaBios\":\"/v86/bundle/vgabios.bin\""), "{doc}");
    assert!(
        doc.contains(
            "\"boot\":{\"kernel\":\"/boot/bzImage\",\"initrd\":\"/boot/initrd\",\"init\":\"/bin/init\",\"ready\":true}"
        ),
        "{doc}"
    );
    assert!(doc.contains("\"defaultCmdline\":\"console=hvc0 init=/bin/init rw root=host9p"), "{doc}");
    assert!(doc.contains("\"p9Msize\":131072"), "{doc}");
    assert!(
        doc.contains("\"memorySize\":1073741824,\"vgaMemorySize\":8388608,\"virtioConsole\":true"),
        "{doc}"
    );
    assert!(doc.contains("\"services\":null"), "{doc}");
    assert!(doc.ends_with("}"));
}

#[test]
fn discovery_with_services_and_rootfs_states() {
    let doc = serve_discovery_json("h:1", None, true, None, None, None, false, None);
    assert!(doc.contains("\"qjsShell\":{\"websocket\":\"ws://h:1/.well-known/qjs-shell\",\"protocol\":\"wanix-qjs-shell.v1\""), "{doc}");
    assert!(doc.contains("\"services\":{\"task\":\"#task\",\"term\":\"#term\",\"drivers\":[\"noop\",\"qjs\",\"wasm\"]}"), "{doc}");
    assert!(doc.contains("\"bundle\":null"), "{doc}");
    assert!(
        doc.contains("\"rootfs\":{\"url\":\"http://h:1/.well-known/rootfs.json\",\"kind\":\"wanix-rootfs.v1\",\"status\":\"local-only\",\"ready\":false,\"missing\":[\"/boot/bzImage\",\"/bin/init\"]}"),
        "{doc}"
    );
    assert_eq!(serve_services_json(false), "null");
    assert_eq!(app_route_json(false, "x"), "{\"status\":\"disabled\"}");
    assert!(app_route_json(true, "http://h/.wanix/app/{name}").starts_with("{\"url\":\"http://h/.wanix/app/{name}\",\"protocol\":\"wanix-http-app.v1\""));
    assert_eq!(
        serve_rootfs_route_json("u", &["/bin/init"], true, None),
        "{\"url\":\"u\",\"kind\":\"wanix-rootfs.v1\",\"status\":\"unprepared\",\"ready\":false,\"missing\":[\"/bin/init\"]}"
    );
    assert_eq!(
        serve_rootfs_route_json("u", &[], true, Some(Err("bad manifest".to_owned()))),
        "{\"url\":\"u\",\"kind\":\"wanix-rootfs.v1\",\"status\":\"invalid\",\"ready\":false,\"error\":\"bad manifest\"}"
    );
    assert_eq!(display_host("0.0.0.0", true, false, 7654), "localhost:7654");
    assert_eq!(display_host("::1", false, true, 80), "[::1]:80");
    assert_eq!(display_host("127.0.0.1", false, false, 8), "127.0.0.1:8");

    assert_eq!(rootfs_handoff_response(false, None).status, HttpStatus::Forbidden);
    let ok = rootfs_handoff_response(true, Some(Ok("{}".to_owned())));
    assert_eq!(ok.status, HttpStatus::Success);
    assert_eq!(ok.content_type, "application/json");
    assert_eq!(ok.body, b"{}".to_vec());
    let usage = rootfs_handoff_response(true, Some(Err(CliError::usage("bad"))));
    assert_eq!(usage.status, HttpStatus::BadRequest);
    let conflict = rootfs_handoff_response(true, Some(Err(CliError::new("stale", 1))));
    assert_eq!(conflict.status, HttpStatus::Conflict);
    assert_eq!(conflict.body, b"stale".to_vec());
}

#[test]
fn bind_grammar_splits_qualifies_and_classifies() {
    let (name, source) = split_web_bind("chat=/srv/chat-web").unwrap();
    assert_eq!((name.as_str(), source.as_str()), ("chat", "/srv/chat-web"));
    assert_eq!(split_web_bind("a=b=c").unwrap(), ("a".to_owned(), "b=c".to_owned()));
    let no_equals = split_web_bind("no-equals").unwrap_err();
    assert_eq!(no_equals.exit_code(), 2);
    assert_eq!(
        no_equals.to_string(),
        "serve --bind expects NAME=DIR or NAME=iroh://PEER, got \"no-equals\""
    );

    assert_eq!(qualify_bind_name("chat").unwrap(), "chat.localhost");
    assert_eq!(qualify_bind_name(" chat.localhost ").unwrap(), "chat.localhost");
    assert!(qualify_bind_name("").unwrap_err().to_string().contains("non-empty NAME"));
    assert!(qualify_bind_name("LocalHost").unwrap_err().to_string().contains("bare localhost"));
    assert_eq!(
        unroutable_bind_name(" 127.0.0.1 ").to_string(),
        "serve --bind name \"127.0.0.1\" must be a routable site name (e.g. chat or chat.localhost), not an IP literal or bare localhost"
    );

    assert_eq!(bind_source("chat", " /srv/web ").unwrap(), WebBindSource::Dir("/srv/web".to_owned()));
    assert_eq!(
        bind_source("room", "iroh://abc?addr=127.0.0.1:5000").unwrap(),
        WebBindSource::Mesh("iroh://abc?addr=127.0.0.1:5000".to_owned())
    );
    assert_eq!(
        bind_source("chat", "  ").unwrap_err().to_string(),
        "serve --bind chat names an empty source; pass a directory or an iroh:// ticket"
    );
}

#[test]
fn refused_setters_leave_the_parts_as_they_were() {
    let mut parts = ServeCommandParts::new();
    parts.set_root("site", "serve accepts only one DIR").unwrap();
    parts.set_addr("127.0.0.1:9000").unwrap();
    parts.set_bundle("fs9p").unwrap();
    parts.set_once().unwrap();
    let once = parts.set_once().unwrap_err();
    assert_eq!(once.message, "serve accepts only one --once");
    assert_eq!(once.exit_code(), 2);
    assert!(parts.set_root("other", "serve accepts only one DIR").is_err());
    assert!(parts.set_addr("0.0.0.0:1").is_err());
    assert!(parts.set_bundle("direct-v86").is_err());
    assert_eq!(parts.root_path.as_deref(), Some("site"));
    assert_eq!(parts.addr.as_deref(), Some("127.0.0.1:9000"));
    assert_eq!(parts.bundle.as_deref(), Some("fs9p"));
    assert!(parts.once);
    assert!(!parts.wanix_services);
}
