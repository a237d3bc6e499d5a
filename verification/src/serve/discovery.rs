//! The discovery document (`/.well-known/wanix.json`) and its parts: the
//! routes a client can reach on this host, the rootfs handoff status, the
//! v86 assets and boot settings, and the wanix services on offer. The host
//! name, the file probes and the peer's address are the caller's.

use vstd::prelude::*;
use vstd::utf8::encode_utf8;
use crate::text::{str_chars, string_from_chars, push_str, decimal, push_decimal, chars_to_utf8};
use crate::http::response::{HttpStatus, StaticResponse};
use crate::error::CliError;
use crate::terminal::protocol::{json_str, json_string};
use super::boot::{
    boot_json, opt_view, direct_v86_boot_json, json_strings, missing_view, missing_of,
    rootfs_handoff_readiness,
};
use super::html::{DIRECT_V86_DEFAULT_CMDLINE, DIRECT_V86_MEMORY_SIZE, DIRECT_V86_VGA_MEMORY_SIZE};

verus! {

pub const DIRECT_V86_DEFAULT_P9_MSIZE: u32 = 131072u32;

pub const DIRECT_V86_MODULE_PATH: &'static str = "/v86/lib/libv86.mjs";

pub const DIRECT_V86_MOD_REEXPORT_PATH: &'static str = "/v86/lib/mod.js";

pub const DIRECT_V86_OFFSCREEN_PATH: &'static str = "/v86/lib/offscreen.js";

pub const DIRECT_V86_WASM_PATH: &'static str = "/v86/bundle/v86.wasm";

pub const DIRECT_V86_BIOS_PATH: &'static str = "/v86/bundle/seabios.bin";

pub const DIRECT_V86_VGA_BIOS_PATH: &'static str = "/v86/bundle/vgabios.bin";

/// The websocket path of the qjs shell terminal.
pub const QJS_SHELL_WEBSOCKET_PATH: &'static str = "/.well-known/qjs-shell";

/// How a client names this server: the address it used (its `Host`), else
/// the listening address, `localhost` standing for an unspecified IP and
/// an IPv6 address in brackets.
pub open spec fn display_host_of(ip: Seq<char>, unspecified: bool, ipv6: bool, port: u16) -> Seq<char> {
    (if unspecified {
        "localhost"@
    } else if ipv6 {
        seq!['['] + ip + seq![']']
    } else {
        ip
    }) + seq![':'] + decimal(port as nat)
}

/// The listening address as a host for URLs (see `display_host_of`); `ip`
/// is the address's text.
pub fn display_host(ip: &str, unspecified: bool, ipv6: bool, port: u16) -> (r: String)
    ensures
        r@ == display_host_of(ip@, unspecified, ipv6, port),
{
    let mut out: Vec<char> = Vec::new();
    if unspecified {
        push_str(&mut out, "localhost");
    } else if ipv6 {
        out.push('[');
        push_str(&mut out, ip);
        out.push(']');
    } else {
        push_str(&mut out, ip);
    }
    out.push(':');
    push_decimal(&mut out, port as u64);
    string_from_chars(out.as_slice())
}

pub open spec fn services_json_of(wanix_services: bool) -> Seq<char> {
    if wanix_services {
        "{\"task\":\"#task\",\"term\":\"#term\",\"drivers\":[\"noop\",\"qjs\",\"wasm\"]}"@
    } else {
        "null"@
    }
}

/// The services object: the task and terminal services and their drivers,
/// or `null` without `--wanix-services`.
pub fn serve_services_json(wanix_services: bool) -> (r: String)
    ensures
        r@ == services_json_of(wanix_services),
{
    if wanix_services {
        "{\"task\":\"#task\",\"term\":\"#term\",\"drivers\":[\"noop\",\"qjs\",\"wasm\"]}".to_owned()
    } else {
        "null".to_owned()
    }
}

pub open spec fn qjs_shell_route_tail() -> Seq<char> {
    ",\"protocol\":\"wanix-qjs-shell.v1\",\"mode\":\"raw-bytes\",\"status\":\"available\",\"cwdQuery\":\"cwd\",\"defaultCwd\":\".\",\"resize\":[\"{\\\"type\\\":\\\"resize\\\",\\\"columns\\\":COLS,\\\"rows\\\":ROWS}\",\"resize COLS ROWS\"],\"sessionMessage\":\"{\\\"type\\\":\\\"session\\\",\\\"protocol\\\":\\\"wanix-qjs-shell.v1\\\",\\\"taskId\\\":\\\"ID\\\",\\\"terminalId\\\":\\\"ID\\\",\\\"cwd\\\":\\\"PATH\\\"}\",\"mutationMessage\":\"{\\\"type\\\":\\\"mutation\\\",\\\"protocol\\\":\\\"wanix-qjs-shell.v1\\\",\\\"taskId\\\":\\\"ID\\\",\\\"terminalId\\\":\\\"ID\\\",\\\"cwd\\\":\\\"PATH\\\",\\\"paths\\\":[\\\"/path\\\"],\\\"operations\\\":[{\\\"kind\\\":\\\"write\\\",\\\"command\\\":\\\"write /path data\\\",\\\"status\\\":\\\"changed\\\",\\\"target\\\":\\\"/path\\\",\\\"evidence\\\":\\\"qjs-shell-command-record\\\",\\\"terminalOutput\\\":\\\"wrote /path\\\",\\\"outcome\\\":{\\\"status\\\":\\\"ok\\\",\\\"changed\\\":true,\\\"evidence\\\":\\\"qjs-shell-command-record\\\",\\\"terminalOutput\\\":\\\"wrote /path\\\"},\\\"paths\\\":[\\\"/path\\\"]}]}\",\"unchangedOperationMessage\":\"{\\\"type\\\":\\\"mutation\\\",\\\"protocol\\\":\\\"wanix-qjs-shell.v1\\\",\\\"taskId\\\":\\\"ID\\\",\\\"terminalId\\\":\\\"ID\\\",\\\"cwd\\\":\\\"PATH\\\",\\\"paths\\\":[],\\\"operations\\\":[{\\\"kind\\\":\\\"rm\\\",\\\"command\\\":\\\"rm missing\\\",\\\"status\\\":\\\"unchanged\\\",\\\"target\\\":\\\"/missing\\\",\\\"evidence\\\":\\\"qjs-shell-command-record\\\",\\\"diagnostic\\\":\\\"rm: missing: errno -44\\\",\\\"terminalOutput\\\":\\\"rm: missing: errno -44\\\",\\\"outcome\\\":{\\\"status\\\":\\\"error\\\",\\\"changed\\\":false,\\\"diagnostic\\\":\\\"rm: missing: errno -44\\\",\\\"evidence\\\":\\\"qjs-shell-command-record\\\",\\\"terminalOutput\\\":\\\"rm: missing: errno -44\\\"},\\\"paths\\\":[]}]}\",\"exitMessage\":\"{\\\"type\\\":\\\"exit\\\",\\\"code\\\":N}\",\"terminalLifecycle\":\"owned-resource-closed-on-session-close\"}"@
}

pub open spec fn qjs_shell_route_of(wanix_services: bool, websocket_url: Seq<char>) -> Seq<char> {
    if wanix_services {
        "{\"websocket\":"@ + json_str(websocket_url) + qjs_shell_route_tail()
    } else {
        "{\"status\":\"disabled\"}"@
    }
}

/// The qjs shell route: its websocket and the shape of its messages, or
/// disabled without `--wanix-services`.
pub fn serve_qjs_shell_route_json(wanix_services: bool, websocket_url: &str) -> (r: String)
    ensures
        r@ == qjs_shell_route_of(wanix_services, websocket_url@),
{
    if !wanix_services {
        return "{\"status\":\"disabled\"}".to_owned();
    }
    let mut out: Vec<char> = Vec::new();
    push_str(&mut out, "{\"websocket\":");
    let url = json_string(websocket_url);
    push_str(&mut out, url.as_str());
    push_str(
        &mut out,
        ",\"protocol\":\"wanix-qjs-shell.v1\",\"mode\":\"raw-bytes\",\"status\":\"available\",\"cwdQuery\":\"cwd\",\"defaultCwd\":\".\",\"resize\":[\"{\\\"type\\\":\\\"resize\\\",\\\"columns\\\":COLS,\\\"rows\\\":ROWS}\",\"resize COLS ROWS\"],\"sessionMessage\":\"{\\\"type\\\":\\\"session\\\",\\\"protocol\\\":\\\"wanix-qjs-shell.v1\\\",\\\"taskId\\\":\\\"ID\\\",\\\"terminalId\\\":\\\"ID\\\",\\\"cwd\\\":\\\"PATH\\\"}\",\"mutationMessage\":\"{\\\"type\\\":\\\"mutation\\\",\\\"protocol\\\":\\\"wanix-qjs-shell.v1\\\",\\\"taskId\\\":\\\"ID\\\",\\\"terminalId\\\":\\\"ID\\\",\\\"cwd\\\":\\\"PATH\\\",\\\"paths\\\":[\\\"/path\\\"],\\\"operations\\\":[{\\\"kind\\\":\\\"write\\\",\\\"command\\\":\\\"write /path data\\\",\\\"status\\\":\\\"changed\\\",\\\"target\\\":\\\"/path\\\",\\\"evidence\\\":\\\"qjs-shell-command-record\\\",\\\"terminalOutput\\\":\\\"wrote /path\\\",\\\"outcome\\\":{\\\"status\\\":\\\"ok\\\",\\\"changed\\\":true,\\\"evidence\\\":\\\"qjs-shell-command-record\\\",\\\"terminalOutput\\\":\\\"wrote /path\\\"},\\\"paths\\\":[\\\"/path\\\"]}]}\",\"unchangedOperationMessage\":\"{\\\"type\\\":\\\"mutation\\\",\\\"protocol\\\":\\\"wanix-qjs-shell.v1\\\",\\\"taskId\\\":\\\"ID\\\",\\\"terminalId\\\":\\\"ID\\\",\\\"cwd\\\":\\\"PATH\\\",\\\"paths\\\":[],\\\"operations\\\":[{\\\"kind\\\":\\\"rm\\\",\\\"command\\\":\\\"rm missing\\\",\\\"status\\\":\\\"unchanged\\\",\\\"target\\\":\\\"/missing\\\",\\\"evidence\\\":\\\"qjs-shell-command-record\\\",\\\"diagnostic\\\":\\\"rm: missing: errno -44\\\",\\\"terminalOutput\\\":\\\"rm: missing: errno -44\\\",\\\"outcome\\\":{\\\"status\\\":\\\"error\\\",\\\"changed\\\":false,\\\"diagnostic\\\":\\\"rm: missing: errno -44\\\",\\\"evidence\\\":\\\"qjs-shell-command-record\\\",\\\"terminalOutput\\\":\\\"rm: missing: errno -44\\\"},\\\"paths\\\":[]}]}\",\"exitMessage\":\"{\\\"type\\\":\\\"exit\\\",\\\"code\\\":N}\",\"terminalLifecycle\":\"owned-resource-closed-on-session-close\"}",
    );
    string_from_chars(out.as_slice())
}

pub open spec fn app_route_of(wanix_services: bool, http_url: Seq<char>) -> Seq<char> {
    if wanix_services {
        "{\"url\":"@ + json_str(http_url)
            + ",\"protocol\":\"wanix-http-app.v1\",\"status\":\"available\",\"method\":\"GET\",\"route\":\"/.wanix/app/<name>\",\"source\":\"apps/<name>.js\",\"response\":\"stdout\",\"scope\":\"loopback\"}"@
    } else {
        "{\"status\":\"disabled\"}"@
    }
}

/// The app route: where apps run and how, or disabled without
/// `--wanix-services`.
pub fn app_route_json(wanix_services: bool, http_url: &str) -> (r: String)
    ensures
        r@ == app_route_of(wanix_services, http_url@),
{
    if !wanix_services {
        return "{\"status\":\"disabled\"}".to_owned();
    }
    let mut out: Vec<char> = Vec::new();
    push_str(&mut out, "{\"url\":");
    let url = json_string(http_url);
    push_str(&mut out, url.as_str());
    push_str(
        &mut out,
        ",\"protocol\":\"wanix-http-app.v1\",\"status\":\"available\",\"method\":\"GET\",\"route\":\"/.wanix/app/<name>\",\"source\":\"apps/<name>.js\",\"response\":\"stdout\",\"scope\":\"loopback\"}",
    );
    string_from_chars(out.as_slice())
}

/// The rootfs handoff's status, whether it is ready, and the manifest error:
/// other clients than loopback ones are told it is local-only; a root that
/// lacks a kernel or init is unprepared; otherwise the manifest check
/// decides between available and invalid.
pub open spec fn rootfs_status_of(
    missing_empty: bool,
    loopback: bool,
    manifest: Option<Result<(), Seq<char>>>,
) -> (Seq<char>, bool, Option<Seq<char>>) {
    if !loopback {
        ("local-only"@, missing_empty, None)
    } else if missing_empty {
        match manifest {
            Some(Err(e)) => ("invalid"@, false, Some(e)),
            _ => ("available"@, true, None),
        }
    } else {
        ("unprepared"@, false, None)
    }
}

pub open spec fn manifest_view(m: Option<Result<(), String>>) -> Option<Result<(), Seq<char>>> {
    match m {
        Some(Ok(())) => Some(Ok(())),
        Some(Err(e)) => Some(Err(e@)),
        None => None,
    }
}

pub open spec fn rootfs_route_of(
    url: Seq<char>,
    missing: Seq<Seq<char>>,
    loopback: bool,
    manifest: Option<Result<(), Seq<char>>>,
) -> Seq<char> {
    let (status, ready, error) = rootfs_status_of(missing.len() == 0, loopback, manifest);
    "{\"url\":"@ + json_str(url) + ",\"kind\":\"wanix-rootfs.v1\""@ + ",\"status\":"@ + json_str(status)
        + ",\"ready\":"@ + (if ready {
        "true"@
    } else {
        "false"@
    }) + (if missing.len() == 0 {
        Seq::empty()
    } else {
        ",\"missing\":["@ + json_strings(missing) + "]"@
    }) + (match error {
        Some(e) => ",\"error\":"@ + json_str(e),
        None => Seq::empty(),
    }) + "}"@
}

fn push_json_strings(out: &mut Vec<char>, items: &[&'static str])
    ensures
        final(out)@ == old(out)@ + json_strings(missing_view(items@)),
{
    let ghost start = out@;
    let ghost iv = missing_view(items@);
    let mut i: usize = 0;
    assert(iv.take(0) =~= Seq::<Seq<char>>::empty());
    while i < items.len()
        invariant
            i <= items.len(),
            iv == missing_view(items@),
            out@ == start + json_strings(iv.take(i as int)),
        decreases items.len() - i,
    {
        let ghost before = out@;
        if i > 0 {
            push_str(out, ",");
        }
        let j = json_string(items[i]);
        push_str(out, j.as_str());
        proof {
            let t = iv.take(i + 1);
            assert(t.drop_last() =~= iv.take(i as int));
            assert(t.last() == items@[i as int]@);
            if i == 0 {
                assert(t.len() == 1);
            }
            assert(out@ =~= start + json_strings(t));
        }
        i = i + 1;
    }
    assert(iv.take(i as int) =~= iv);
}

/// The rootfs route of the discovery document (see `rootfs_route_of`).
/// `missing` is what the root lacks to boot, `loopback` whether the client
/// is on this machine, and `manifest` the result of checking the prepared
/// root's handoff manifest, which is needed when a loopback client asks
/// about a root that lacks nothing.
pub fn serve_rootfs_route_json(
    url: &str,
    missing: &[&'static str],
    loopback: bool,
    manifest: Option<Result<(), String>>,
) -> (r: String)
    requires
        loopback && missing.len() == 0 ==> manifest is Some,
    ensures
        r@ == rootfs_route_of(url@, missing_view(missing@), loopback, manifest_view(manifest)),
{
    let ghost mv = manifest_view(manifest);
    let mut ready = missing.len() == 0;
    let mut error: Option<String> = None;
    let status = if !loopback {
        "local-only"
    } else if missing.len() == 0 {
        match manifest {
            Some(Err(e)) => {
                ready = false;
                error = Some(e);
                "invalid"
            },
            _ => "available",
        }
    } else {
        "unprepared"
    };
    assert(rootfs_status_of(missing_view(missing@).len() == 0, loopback, mv) == (
        status@,
        ready,
        match error {
            Some(e) => Some(e@),
            None => None,
        },
    ));
    let mut out: Vec<char> = Vec::new();
    push_str(&mut out, "{\"url\":");
    let u = json_string(url);
    push_str(&mut out, u.as_str());
    push_str(&mut out, ",\"kind\":\"wanix-rootfs.v1\"");
    push_str(&mut out, ",\"status\":");
    let s = json_string(status);
    push_str(&mut out, s.as_str());
    push_str(&mut out, ",\"ready\":");
    if ready {
        push_str(&mut out, "true");
    } else {
        push_str(&mut out, "false");
    }
    if missing.len() > 0 {
        push_str(&mut out, ",\"missing\":[");
        push_json_strings(&mut out, missing);
        push_str(&mut out, "]");
    }
    if let Some(e) = &error {
        push_str(&mut out, ",\"error\":");
        let j = json_string(e.as_str());
        push_str(&mut out, j.as_str());
    }
    push_str(&mut out, "}");
    let r = string_from_chars(out.as_slice());
    assert(r@ =~= rootfs_route_of(url@, missing_view(missing@), loopback, mv));
    r
}

pub open spec fn bundle_json_of(bundle: Option<Seq<char>>) -> Seq<char> {
    match bundle {
        Some(b) => json_str(b),
        None => "null"@,
    }
}

/// The discovery document for a client that addressed this server as
/// `host`: the 9P, rootfs, qjs shell, app and ethernet routes under that
/// host, the v86 assets, boot object and defaults, the services and the
/// configured bundle.
pub open spec fn discovery_of(
    host: Seq<char>,
    bundle: Option<Seq<char>>,
    wanix_services: bool,
    rootfs_route: Seq<char>,
    boot: Seq<char>,
) -> Seq<char> {
    "{\"version\":1,\"runtime\":\"wanix-rust\",\"routes\":{\"p9\":{\"websocket\":"@ + json_str(
        "ws://"@ + host + "/.well-known/export9p"@,
    )
        + ",\"transport\":\"direct-binary-websocket\",\"protocol\":\"9p2000.L\",\"supportedProtocols\":[\"9P2000.L\",\"9P2000.L.Google.2\"]},\"rootfs\":"@
        + rootfs_route + ",\"qjsShell\":"@ + qjs_shell_route_of(
        wanix_services,
        "ws://"@ + host + QJS_SHELL_WEBSOCKET_PATH@,
    ) + ",\"httpApp\":"@ + app_route_of(wanix_services, "http://"@ + host + "/.wanix/app/{name}"@)
        + ",\"ethernet\":{\"websocket\":"@ + json_str("ws://"@ + host + "/.well-known/ethernet"@)
        + ",\"status\":\"not-implemented\"}},\"v86\":{\"assets\":{\"module\":"@ + json_str(
        DIRECT_V86_MODULE_PATH@,
    ) + ",\"mod\":"@ + json_str(DIRECT_V86_MOD_REEXPORT_PATH@) + ",\"offscreen\":"@ + json_str(
        DIRECT_V86_OFFSCREEN_PATH@,
    ) + ",\"wasm\":"@ + json_str(DIRECT_V86_WASM_PATH@) + ",\"bios\":"@ + json_str(
        DIRECT_V86_BIOS_PATH@,
    ) + ",\"vgaBios\":"@ + json_str(DIRECT_V86_VGA_BIOS_PATH@) + "},\"boot\":"@ + boot
        + ",\"defaultCmdline\":"@ + json_str(DIRECT_V86_DEFAULT_CMDLINE@) + ",\"p9Msize\":"@
        + decimal(DIRECT_V86_DEFAULT_P9_MSIZE as nat) + ",\"memorySize\":"@ + decimal(
        DIRECT_V86_MEMORY_SIZE as nat,
    ) + ",\"vgaMemorySize\":"@ + decimal(DIRECT_V86_VGA_MEMORY_SIZE as nat)
        + ",\"virtioConsole\":true},\"services\":"@ + services_json_of(wanix_services)
        + ",\"bundle\":"@ + bundle_json_of(bundle) + "}"@
}

fn host_url(scheme: &str, host: &str, path: &str) -> (r: String)
    ensures
        r@ == scheme@ + host@ + path@,
{
    let mut out: Vec<char> = Vec::new();
    push_str(&mut out, scheme);
    push_str(&mut out, host);
    push_str(&mut out, path);
    string_from_chars(out.as_slice())
}

fn push_json(out: &mut Vec<char>, s: &str)
    ensures
        final(out)@ == old(out)@ + json_str(s@),
{
    let j = json_string(s);
    push_str(out, j.as_str());
}

/// The discovery document (see `discovery_of`). `host` is how the client
/// addressed the server; `kernel`, `initrd` and `init` are the boot files
/// the served root offers; `loopback` says whether the client is on this
/// machine, and `manifest` is the result of checking the root's handoff
/// manifest, needed when a loopback client asks about a root that lacks
/// nothing.
pub fn serve_discovery_json(
    host: &str,
    bundle: Option<&str>,
    wanix_services: bool,
    kernel: Option<&'static str>,
    initrd: Option<&'static str>,
    init: Option<&'static str>,
    loopback: bool,
    manifest: Option<Result<(), String>>,
) -> (r: String)
    requires
        loopback && kernel is Some && init is Some ==> manifest is Some,
    ensures
        r@ == discovery_of(
            host@,
            opt_view(bundle),
            wanix_services,
            rootfs_route_of(
                "http://"@ + host@ + "/.well-known/rootfs.json"@,
                missing_of(kernel is Some, init is Some),
                loopback,
                manifest_view(manifest),
            ),
            boot_json(opt_view(kernel), opt_view(initrd), opt_view(init)),
        ),
{
    let readiness = rootfs_handoff_readiness(kernel, init);
    assert(readiness.missing@.len() == missing_view(readiness.missing@).len());
    let rootfs_url = host_url("http://", host, "/.well-known/rootfs.json");
    let rootfs = serve_rootfs_route_json(rootfs_url.as_str(), readiness.missing.as_slice(), loopback, manifest);
    let boot = direct_v86_boot_json(kernel, initrd, init);
    let p9_url = host_url("ws://", host, "/.well-known/export9p");
    let shell_url = host_url("ws://", host, QJS_SHELL_WEBSOCKET_PATH);
    let app_url = host_url("http://", host, "/.wanix/app/{name}");
    let ethernet_url = host_url("ws://", host, "/.well-known/ethernet");
    let shell = serve_qjs_shell_route_json(wanix_services, shell_url.as_str());
    let app = app_route_json(wanix_services, app_url.as_str());
    let services = serve_services_json(wanix_services);
    let mut out: Vec<char> = Vec::new();
    push_str(&mut out, "{\"version\":1,\"runtime\":\"wanix-rust\",\"routes\":{\"p9\":{\"websocket\":");
    push_json(&mut out, p9_url.as_str());
    push_str(
        &mut out,
        ",\"transport\":\"direct-binary-websocket\",\"protocol\":\"9p2000.L\",\"supportedProtocols\":[\"9P2000.L\",\"9P2000.L.Google.2\"]},\"rootfs\":",
    );
    push_str(&mut out, rootfs.as_str());
    push_str(&mut out, ",\"qjsShell\":");
    push_str(&mut out, shell.as_str());
    push_str(&mut out, ",\"httpApp\":");
    push_str(&mut out, app.as_str());
    push_str(&mut out, ",\"ethernet\":{\"websocket\":");
    push_json(&mut out, ethernet_url.as_str());
    push_str(&mut out, ",\"status\":\"not-implemented\"}},\"v86\":{\"assets\":{\"module\":");
    push_json(&mut out, DIRECT_V86_MODULE_PATH);
    push_str(&mut out, ",\"mod\":");
    push_json(&mut out, DIRECT_V86_MOD_REEXPORT_PATH);
    push_str(&mut out, ",\"offscreen\":");
    push_json(&mut out, DIRECT_V86_OFFSCREEN_PATH);
    push_str(&mut out, ",\"wasm\":");
    push_json(&mut out, DIRECT_V86_WASM_PATH);
    push_str(&mut out, ",\"bios\":");
    push_json(&mut out, DIRECT_V86_BIOS_PATH);
    push_str(&mut out, ",\"vgaBios\":");
    push_json(&mut out, DIRECT_V86_VGA_BIOS_PATH);
    push_str(&mut out, "},\"boot\":");
    push_str(&mut out, boot.as_str());
    push_str(&mut out, ",\"defaultCmdline\":");
    push_json(&mut out, DIRECT_V86_DEFAULT_CMDLINE);
    push_str(&mut out, ",\"p9Msize\":");
    push_decimal(&mut out, DIRECT_V86_DEFAULT_P9_MSIZE as u64);
    push_str(&mut out, ",\"memorySize\":");
    push_decimal(&mut out, DIRECT_V86_MEMORY_SIZE as u64);
    push_str(&mut out, ",\"vgaMemorySize\":");
    push_decimal(&mut out, DIRECT_V86_VGA_MEMORY_SIZE as u64);
    push_str(&mut out, ",\"virtioConsole\":true},\"services\":");
    push_str(&mut out, services.as_str());
    push_str(&mut out, ",\"bundle\":");
    match bundle {
        Some(b) => push_json(&mut out, b),
        None => push_str(&mut out, "null"),
    }
    push_str(&mut out, "}");
    let r = string_from_chars(out.as_slice());
    assert(r@ =~= discovery_of(
        host@,
        opt_view(bundle),
        wanix_services,
        rootfs@,
        boot@,
    ));
    r
}

/// The discovery response: the document (see `serve_discovery_json`) as
/// JSON.
pub fn serve_discovery_response(
    host: &str,
    bundle: Option<&str>,
    wanix_services: bool,
    kernel: Option<&'static str>,
    initrd: Option<&'static str>,
    init: Option<&'static str>,
    loopback: bool,
    manifest: Option<Result<(), String>>,
) -> (r: StaticResponse)
    requires
        loopback && kernel is Some && init is Some ==> manifest is Some,
    ensures
        r.status == HttpStatus::Success,
        r.content_type@ == "application/json"@,
        r.headers@.len() == 0,
        r.body@ == encode_utf8(
            discovery_of(
                host@,
                opt_view(bundle),
                wanix_services,
                rootfs_route_of(
                    "http://"@ + host@ + "/.well-known/rootfs.json"@,
                    missing_of(kernel is Some, init is Some),
                    loopback,
                    manifest_view(manifest),
                ),
                boot_json(opt_view(kernel), opt_view(initrd), opt_view(init)),
            ),
        ),
{
    let json = serve_discovery_json(host, bundle, wanix_services, kernel, initrd, init, loopback, manifest);
    let chars = str_chars(json.as_str());
    StaticResponse {
        status: HttpStatus::Success,
        content_type: "application/json",
        headers: Vec::new(),
        body: chars_to_utf8(chars.as_slice()),
    }
}

/// The rootfs handoff response: only loopback clients get it; then the
/// handoff manifest as JSON, or, when it could not be made, its error as a
/// `400` for a usage error (exit code 2) and a `409` otherwise. `manifest`
/// is what making the manifest gave, needed for a loopback client.
pub fn rootfs_handoff_response(loopback: bool, manifest: Option<Result<String, CliError>>) -> (r: StaticResponse)
    requires
        loopback ==> manifest is Some,
    ensures
        r.headers@.len() == 0,
        !loopback ==> r.status == HttpStatus::Forbidden && r.body@ == encode_utf8(
            "rootfs handoff is available only to loopback clients"@,
        ) && r.content_type@ == "text/plain; charset=utf-8"@,
        loopback ==> match manifest {
            Some(Ok(body)) => r.status == HttpStatus::Success && r.content_type@ == "application/json"@
                && r.body@ == encode_utf8(body@),
            Some(Err(e)) => r.status == (if e.exit_code == 2 {
                HttpStatus::BadRequest
            } else {
                HttpStatus::Conflict
            }) && r.body@ == encode_utf8(e.message@) && r.content_type@ == "text/plain; charset=utf-8"@,
            None => true,
        },
{
    if !loopback {
        return StaticResponse::plain(HttpStatus::Forbidden, "rootfs handoff is available only to loopback clients");
    }
    match manifest {
        Some(Ok(body)) => {
            let chars = str_chars(body.as_str());
            StaticResponse {
                status: HttpStatus::Success,
                content_type: "application/json",
                headers: Vec::new(),
                body: chars_to_utf8(chars.as_slice()),
            }
        },
        Some(Err(error)) => {
            let text = error.to_string();
            if error.exit_code() == 2 {
                StaticResponse::plain(HttpStatus::BadRequest, text.as_str())
            } else {
                StaticResponse::plain(HttpStatus::Conflict, text.as_str())
            }
        },
        None => StaticResponse::plain(HttpStatus::Forbidden, "rootfs handoff is available only to loopback clients"),
    }
}

} // verus!
