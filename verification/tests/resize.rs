use wanix_cli::terminal::resize::{json_u16_field, parse_terminal_resize_json, parse_terminal_resize_message};
use wanix_cli::terminal::route::{is_qjs_shell_websocket_path, qjs_shell_cwd_text, query_percent_decode};
use wanix_cli::http::response::HttpStatus;

#[test]
fn qjs_shell_websocket_resize_messages_parse_json_and_text() {
    assert_eq!(
        parse_terminal_resize_message(r#"{"type":"resize","columns":100,"rows":40}"#),
        Some((100, 40))
    );
    assert_eq!(parse_terminal_resize_message("resize 120 50"), Some((120, 50)));
    assert_eq!(parse_terminal_resize_message("resize 0 50"), None);
}

#[test]
fn resize_requests_need_both_sizes_in_range() {
    assert_eq!(parse_terminal_resize_json(r#"{ "type" : "resize", "rows": 3, "columns": 7 }"#), Some((7, 3)));
    assert_eq!(parse_terminal_resize_json(r#"{"type":"resize","columns":70000,"rows":3}"#), None);
    assert_eq!(parse_terminal_resize_json(r#"{"type":"other","columns":7,"rows":3}"#), None);
    assert_eq!(parse_terminal_resize_message("resize 1 2 3"), None);
    assert_eq!(parse_terminal_resize_message("resize +5 6"), Some((5, 6)));
    assert_eq!(json_u16_field("\"columns\":0", "columns"), None);
    assert_eq!(json_u16_field("\"columns\":12x", "columns"), Some(12));
}

#[test]
fn shell_route_ignores_the_query_and_decodes_values() {
    assert!(is_qjs_shell_websocket_path(Some("/.well-known/qjs-shell?cwd=app")));
    assert!(!is_qjs_shell_websocket_path(Some("/.well-known/qjs-shellx")));
    assert!(!is_qjs_shell_websocket_path(None));
    assert_eq!(query_percent_decode("a+b%2Fc").unwrap(), "a b/c");
    assert!(query_percent_decode("%zz").is_err());
}

#[test]
fn qjs_shell_cwd_query_gives_the_path_to_normalise() {
    assert_eq!(qjs_shell_cwd_text(Some("/.well-known/qjs-shell")).unwrap(), ".");
    assert_eq!(qjs_shell_cwd_text(Some("/.well-known/qjs-shell?term=1")).unwrap(), ".");
    assert_eq!(qjs_shell_cwd_text(Some("/.well-known/qjs-shell?cwd=%2Fapp%2Fsub")).unwrap(), "app/sub");
    assert_eq!(qjs_shell_cwd_text(Some("/.well-known/qjs-shell?cwd=%2F")).unwrap(), ".");
    assert_eq!(qjs_shell_cwd_text(Some("/.well-known/qjs-shell?x=1&cwd=work+dir")).unwrap(), "work dir");
    let empty = qjs_shell_cwd_text(Some("/.well-known/qjs-shell?cwd=")).unwrap_err();
    assert!(matches!(empty.status, HttpStatus::BadRequest));
    assert_eq!(empty.body, b"invalid qjs shell cwd".to_vec());
    let bad = qjs_shell_cwd_text(Some("/.well-known/qjs-shell?%zz=1&cwd=a")).unwrap_err();
    assert_eq!(bad.body, b"invalid query string".to_vec());
    assert_eq!(qjs_shell_cwd_text(None).unwrap_err().body, b"bad request".to_vec());
}

#[test]
fn bad_query_escapes_are_plain_text_400s() {
    let response = query_percent_decode("%zz").unwrap_err();
    assert_eq!(response.status, HttpStatus::BadRequest);
    assert_eq!(response.content_type, "text/plain; charset=utf-8");
    assert!(response.headers.is_empty());
    assert_eq!(response.body, b"invalid query string".to_vec());
    assert_eq!(query_percent_decode("%2Fapp%2Fsub").unwrap(), "/app/sub");
    assert_eq!(query_percent_decode("a+b").unwrap(), "a b");
    assert_eq!(query_percent_decode("%2B").unwrap(), "+");
}
