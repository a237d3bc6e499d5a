use wanix_cli::http::app::{
    AppRun, app_name, app_refusal, app_run_response, app_script, app_task_result, http_env,
    valid_route_name,
};
use wanix_cli::http::headers::{
    content_length, http_response_parts, is_safe_host, is_websocket_upgrade, request_body,
    request_host, request_line_path, request_method, request_header_value, accepts_event_stream,
    http_read_step, ReadStep, MAX_HTTP_HEADER_BYTES,
};
use wanix_cli::http::request::{
    gateway_request_path, header_end, parse_http_request, peek_request_target, request_target,
    websocket_rejection_response,
};
use wanix_cli::http::response::{HttpStatus, StaticResponse};
use wanix_cli::http::routes::{
    WellKnownEndpoint, content_type, content_type_for_extension, path_to_url_relative, query_param,
    require_bundle_index_path, requested_bundle, static_well_known_response, well_known_endpoint,
    workbench_asset_path, bundle_html_response, matching_bundle_response, bundle_response,
};
use wanix_cli::http::stream::{chunk_frame, sse_event, sse_events};
use wanix_cli::serve::html::{BundleTemplates, bundle_html};

fn segs(values: &[&str]) -> Vec<String> {
    values.iter().map(|v| v.to_string()).collect()
}

#[test]
fn requests_parse_into_plain_segments() {
    let path = parse_http_request(b"GET /a/b%20c/?q=1 HTTP/1.1\r\nHost: x\r\n\r\n").unwrap();
    assert_eq!(path, segs(&["a", "b c"]));
    assert_eq!(parse_http_request(b"GET / HTTP/1.1\r\n\r\n").unwrap(), segs(&["index.html"]));
    assert!(matches!(
        parse_http_request(b"GET /a/../b HTTP/1.1\r\n\r\n"),
        Err(HttpStatus::Forbidden)
    ));
    assert!(matches!(
        parse_http_request(b"POST / HTTP/1.1\r\n\r\n"),
        Err(HttpStatus::MethodNotAllowed)
    ));
    assert!(matches!(parse_http_request(b"GET / HTTP/1.1\r\n"), Err(HttpStatus::BadRequest)));
    assert_eq!(gateway_request_path(b"PUT / HTTP/1.1\r\n\r\n").unwrap(), Vec::<String>::new());
}

#[test]
fn header_questions_read_the_header_block() {
    let request = b"POST /agent?x=1 HTTP/1.1\r\nHost: demo.local:7654\r\nContent-Length: 5\r\n\r\nhello";
    assert_eq!(header_end(request), Some(66));
    assert_eq!(request_method(request).as_deref(), Some("POST"));
    assert_eq!(request_line_path(request).as_deref(), Some("/agent"));
    assert_eq!(content_length(request), Some(5));
    assert_eq!(request_body(request), b"hello");
    assert_eq!(request_target(request).as_deref(), Some("/agent?x=1"));
    assert_eq!(peek_request_target(request).as_deref(), Some("/agent?x=1"));
    assert_eq!(request_host(request).as_deref(), Some("demo.local:7654"));
}

#[test]
fn serve_discovery_ignores_unsafe_host_header() {
    let request = b"GET /.well-known/wanix.json HTTP/1.1\r\nHost: demo.local:7654/escape\r\n\r\n";
    assert_eq!(request_host(request), None);
    assert!(!is_safe_host("demo.local:7654/escape"));
    assert!(is_safe_host("[::1]:80"));
    assert!(!is_safe_host(""));
}

#[test]
fn websocket_upgrades_need_both_headers() {
    assert!(is_websocket_upgrade(
        b"GET /x HTTP/1.1\r\nConnection: keep-alive, Upgrade\r\nUpgrade: WebSocket\r\n\r\n"
    ));
    assert!(!is_websocket_upgrade(b"GET /x HTTP/1.1\r\nUpgrade: websocket\r\n\r\n"));
    assert!(!is_websocket_upgrade(
        b"GET /x HTTP/1.1\r\nConnection: upgrade\r\nUpgrade: websocket\r\nConnection: close\r\n\r\n"
    ));
}

#[test]
fn websocket_rejections_cover_reserved_paths() {
    assert!(websocket_rejection_response(Some("/.well-known/export9p?x")).is_none());
    let ethernet = websocket_rejection_response(Some("/.well-known/ethernet")).unwrap();
    assert_eq!(ethernet.status, HttpStatus::NotImplemented);
    let other = websocket_rejection_response(Some("/.well-known/zzz")).unwrap();
    assert_eq!(other.status, HttpStatus::NotFound);
    assert!(websocket_rejection_response(Some("/app")).is_none());
    assert!(websocket_rejection_response(None).is_none());
}

#[test]
fn responses_encode_head_and_body() {
    let response = StaticResponse::plain(HttpStatus::NotFound, "not found")
        .with_header("Retry-After", "5\r\nX: y".to_owned());
    let bytes = response.encode();
    let (head, body) = http_response_parts(&bytes);
    assert!(head.starts_with("HTTP/1.1 404 Not Found\r\nContent-Length: 9\r\n"));
    assert!(head.contains("Retry-After: 5X: y\r\n"));
    assert!(head.ends_with("Connection: close\r\n\r\n"));
    assert_eq!(body, b"not found");
    assert_eq!(HttpStatus::ServiceUnavailable.status_line(), "503 Service Unavailable");
    assert_eq!(HttpStatus::Conflict.reason(), "conflict");
}

#[test]
fn well_known_paths_name_their_endpoints() {
    assert_eq!(
        well_known_endpoint(&segs(&[".well-known", "wanix.json"]), false),
        Some(WellKnownEndpoint::WanixDiscovery)
    );
    assert_eq!(
        well_known_endpoint(&segs(&[".well-known", "qjs-shell"]), false),
        Some(WellKnownEndpoint::NotFound)
    );
    assert_eq!(
        well_known_endpoint(&segs(&[".well-known", "qjs-shell"]), true),
        Some(WellKnownEndpoint::QjsShellWebSocket)
    );
    assert_eq!(
        well_known_endpoint(&segs(&[".well-known", "export9p", "x"]), true),
        Some(WellKnownEndpoint::NotFound)
    );
    assert_eq!(well_known_endpoint(&segs(&["index.html"]), true), None);
    let upgrade = static_well_known_response(WellKnownEndpoint::Export9pWebSocket);
    assert_eq!(upgrade.status, HttpStatus::BadRequest);
    assert_eq!(upgrade.body, b"websocket upgrade required");
    let ethernet = static_well_known_response(WellKnownEndpoint::EthernetWebSocket);
    assert_eq!(ethernet.status, HttpStatus::NotImplemented);
    assert_eq!(
        static_well_known_response(WellKnownEndpoint::RootfsHandoff).status,
        HttpStatus::NotFound
    );
}

#[test]
fn bundles_and_queries() {
    assert_eq!(query_param("a=1&bundle=fs9p&bundle=x", "bundle").as_deref(), Some("fs9p"));
    assert_eq!(query_param("flag&x=1", "flag").as_deref(), Some(""));
    assert_eq!(query_param("x=1", "bundle"), None);
    assert!(require_bundle_index_path(&segs(&["index.html"])).is_some());
    assert!(require_bundle_index_path(&segs(&["a", "index.html"])).is_none());
    assert_eq!(
        requested_bundle(b"GET /index.html?bundle=direct-v86 HTTP/1.1\r\n\r\n").as_deref(),
        Some("direct-v86")
    );
    assert_eq!(requested_bundle(b"GET /index.html HTTP/1.1\r\n\r\n"), None);
}

#[test]
fn static_paths_and_types() {
    assert_eq!(path_to_url_relative(&segs(&["concepts", "foo"])), "concepts/foo");
    assert_eq!(path_to_url_relative(&[]), "");
    assert_eq!(workbench_asset_path(&segs(&["workbench", "dist", "a.js"])), Some(segs(&["dist", "a.js"])));
    assert_eq!(workbench_asset_path(&segs(&["dist"])), None);
    assert_eq!(content_type_for_extension(Some("HTML")), "text/html; charset=utf-8");
    assert_eq!(content_type_for_extension(Some("mjs")), "text/javascript; charset=utf-8");
    assert_eq!(content_type_for_extension(None), "application/octet-stream");
    assert_eq!(content_type("/srv/site/style.css"), "text/css; charset=utf-8");
    assert_eq!(content_type("/srv/.hidden"), "application/octet-stream");
    assert_eq!(content_type("/srv/v86.wasm"), "application/wasm");
}

#[test]
fn app_routes_name_scripts() {
    assert_eq!(app_name(&segs(&[".wanix", "app", "hello-1"])), Some(Ok("hello-1".to_owned())));
    assert_eq!(app_name(&segs(&[".wanix", "app"])), Some(Err(HttpStatus::BadRequest)));
    assert_eq!(app_name(&segs(&[".wanix", "app", "a", "b"])), Some(Err(HttpStatus::BadRequest)));
    assert_eq!(app_name(&segs(&[".wanix", "app", "bad.name"])), Some(Err(HttpStatus::BadRequest)));
    assert_eq!(app_name(&segs(&["apps", "x"])), None);
    assert!(valid_route_name("A_b-9"));
    assert!(!valid_route_name(""));
    assert_eq!(app_script("hello"), "apps/hello.js");
    assert_eq!(http_env("hello", "/.wanix/app/hello?x"), "WANIX_HTTP_APP=hello\nWANIX_HTTP_TARGET=/.wanix/app/hello?x\n");
}

#[test]
fn streamed_bodies_frame_lines_and_chunks() {
    assert_eq!(sse_event(b"hi\r"), b"data: hi\n\n");
    let mut pending = Vec::new();
    let first = sse_events(&mut pending, b"one\ntw");
    assert_eq!(first, b"data: one\n\n");
    let second = sse_events(&mut pending, b"o\n");
    assert_eq!(second, b"data: two\n\n");
    assert!(pending.is_empty());
    let mut whole = Vec::new();
    assert_eq!(sse_events(&mut whole, b"one\ntwo\n"), [first, second].concat());
    assert_eq!(chunk_frame(b""), b"");
    assert_eq!(chunk_frame(&[7u8; 26]), [b"1a\r\n".to_vec(), vec![7u8; 26], b"\r\n".to_vec()].concat());
}

#[test]
fn header_values_and_event_stream_requests() {
    let request = b"GET /stream HTTP/1.1\r\nHost: chat.localhost\r\nACCEPT:  Text/Event-Stream \r\nAccept: text/html\r\n\r\n";
    assert_eq!(request_header_value(request, "accept").as_deref(), Some("Text/Event-Stream"));
    assert_eq!(request_header_value(request, "Host").as_deref(), Some("chat.localhost"));
    assert_eq!(request_header_value(request, "origin"), None);
    assert!(accepts_event_stream(request));
    assert!(!accepts_event_stream(b"GET / HTTP/1.1\r\nAccept: text/html\r\n\r\n"));
    assert!(!accepts_event_stream(b"GET / HTTP/1.1\r\n\r\n"));
}

#[test]
fn request_reading_stops_at_the_header_and_declared_body() {
    assert_eq!(http_read_step(b"", false), ReadStep::More);
    assert_eq!(http_read_step(b"GET / HTTP/1.1\r\n", false), ReadStep::More);
    assert_eq!(http_read_step(b"GET / HTTP/1.1\r\n", true), ReadStep::Incomplete);
    assert_eq!(http_read_step(&vec![b'a'; MAX_HTTP_HEADER_BYTES], false), ReadStep::Incomplete);
    assert_eq!(http_read_step(b"GET / HTTP/1.1\r\n\r\n", false), ReadStep::Done);
    let post = b"POST /agent HTTP/1.1\r\nContent-Length: 5\r\n\r\nabc";
    assert_eq!(http_read_step(post, false), ReadStep::More);
    assert_eq!(http_read_step(post, true), ReadStep::Done);
    assert_eq!(
        http_read_step(b"POST /agent HTTP/1.1\r\nContent-Length: 5\r\n\r\nabcde", false),
        ReadStep::Done
    );
}

#[test]
fn app_runs_become_responses() {
    assert_eq!(app_refusal(false, true).unwrap().status, HttpStatus::NotFound);
    let forbidden = app_refusal(true, false).unwrap();
    assert_eq!(forbidden.status, HttpStatus::Forbidden);
    assert_eq!(forbidden.body, b"wanix app routes are available only to loopback clients".to_vec());
    assert!(app_refusal(true, true).is_none());

    assert_eq!(
        app_task_result(" 0\n", b"hi".to_vec(), Vec::new()),
        AppRun::Output(b"hi".to_vec())
    );
    let failed = app_task_result("2\n", b"out".to_vec(), b"bad".to_vec());
    assert_eq!(
        failed,
        AppRun::TaskExit { exit: "2".to_owned(), stdout: b"out".to_vec(), stderr: b"bad".to_vec() }
    );

    let ok = app_run_response("hello", AppRun::Output(b"hi\n".to_vec()));
    assert_eq!(ok.status, HttpStatus::Success);
    assert_eq!(ok.body, b"hi\n".to_vec());
    assert_eq!(ok.content_type, "text/plain; charset=utf-8");

    let missing = app_run_response("hello", AppRun::MissingScript("apps/hello.js".to_owned()));
    assert_eq!(missing.status, HttpStatus::NotFound);
    assert_eq!(missing.body, b"wanix app script apps/hello.js was not found".to_vec());

    let exited = app_run_response("hello", failed);
    assert_eq!(exited.status, HttpStatus::InternalServerError);
    assert_eq!(
        String::from_utf8(exited.body).unwrap(),
        "wanix app hello exited 2\n\nstdout:\nout\n\nstderr:\nbad"
    );

    let broken = app_run_response("hello", AppRun::Failed("not found".to_owned()));
    assert_eq!(broken.body, b"wanix app hello failed: not found".to_vec());
}

#[test]
fn encoded_responses_split_back_into_head_and_body() {
    let response = StaticResponse::plain(HttpStatus::Success, "body\r\n\r\nwith blank lines")
        .with_header("X-Note", "split\r\n\r\nattempt".to_owned());
    let bytes = response.encode();
    let end = header_end(&bytes).unwrap();
    let (head, body) = http_response_parts(&bytes);
    assert_eq!(body, b"body\r\n\r\nwith blank lines".to_vec());
    assert_eq!(end + 4, bytes.len() - body.len());
    assert!(head.contains("X-Note: splitattempt\r\n"), "{head}");
    assert!(head.ends_with("Connection: close\r\n\r\n"), "{head}");
}

#[test]
fn header_bytes_that_are_not_text() {
    let (head, body) = http_response_parts(b"HTTP/1.1 200 OK\r\nX: \xff\r\n\r\nbody");
    assert_eq!(head, "HTTP/1.1 200 OK\r\nX: \u{fffd}\r\n\r\n");
    assert_eq!(body, b"body".to_vec());
    assert!(matches!(
        parse_http_request(b"GET /a HTTP/1.1\r\nX: \xff\r\n\r\n"),
        Err(HttpStatus::BadRequest)
    ));
    assert_eq!(request_method(b"G\xffT / HTTP/1.1\r\n\r\n"), None);
}

#[test]
fn sse_keeps_only_the_bytes_after_the_last_newline() {
    let mut pending = b"ab".to_vec();
    let events = sse_events(&mut pending, b"c\nde");
    assert_eq!(events, b"data: abc\n\n".to_vec());
    assert_eq!(pending, b"de".to_vec());
    let none = sse_events(&mut pending, b"fg");
    assert!(none.is_empty());
    assert_eq!(pending, b"defg".to_vec());
    sse_events(&mut pending, b"\n\nxy\nz");
    assert_eq!(pending, b"z".to_vec());
}

fn templates() -> BundleTemplates {
    BundleTemplates {
        direct_v86: "memory=__WANIX_DEFAULT_MEMORY_SIZE__".to_owned(),
        fs9p: "<p>fs9p</p>".to_owned(),
        workbench_fs9p: "<p>workbench</p>".to_owned(),
    }
}

#[test]
fn bundle_pages_come_from_their_templates() {
    let t = templates();
    assert_eq!(bundle_html("direct-v86", &t).unwrap(), "memory=1073741824");
    assert_eq!(bundle_html("fs9p", &t).unwrap(), "<p>fs9p</p>");
    assert_eq!(bundle_html("workbench-fs9p", &t).unwrap(), "<p>workbench</p>");
    assert!(bundle_html("vm-workbench", &t).is_none());
    let page = bundle_html_response("fs9p", &t).unwrap();
    assert_eq!(page.status, HttpStatus::Success);
    assert_eq!(page.content_type, "text/html; charset=utf-8");
    assert!(page.headers.is_empty());
    assert_eq!(page.body, b"<p>fs9p</p>".to_vec());
}

#[test]
fn only_the_configured_bundle_is_served() {
    let t = templates();
    assert!(matching_bundle_response("fs9p", "direct-v86", &t).is_none());
    assert!(matching_bundle_response("vm-workbench", "vm-workbench", &t).is_none());
    assert!(matching_bundle_response("workbench-fs9p", "workbench-fs9p", &t).is_some());
    let index = vec!["index.html".to_owned()];
    let request = b"GET /?bundle=fs9p HTTP/1.1\r\nHost: demo.local:7654\r\n\r\n";
    let page = bundle_response(&index, Some("fs9p"), request, &t).unwrap();
    assert_eq!(page.body, b"<p>fs9p</p>".to_vec());
    assert!(bundle_response(&index, Some("vm-workbench"), request, &t).is_none());
    assert!(bundle_response(&index, None, request, &t).is_none());
    let other = vec!["app.js".to_owned()];
    assert!(bundle_response(&other, Some("fs9p"), request, &t).is_none());
}
