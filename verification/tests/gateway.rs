use wanix_cli::http::gateway::{
    DirEntryInfo, FsFailure, OriginAction, OriginHost, bare_host_index, cross_site_write_response,
    directory_listing_response, gateway_content_type, gateway_error_response, origin_action,
    origin_host, unknown_host_response,
};
use wanix_cli::http::response::HttpStatus;
use wanix_cli::http::agent::{
    AgentRequest, agent_request, agent_response, agent_session_id, agent_session_path,
    agent_turn_completed,
};

fn text(body: &[u8]) -> String {
    String::from_utf8(body.to_vec()).unwrap()
}

#[test]
fn gateway_failures_map_to_statuses() {
    let dead = gateway_error_response(&FsFailure::Unreachable("room offline".to_owned()));
    assert_eq!(dead.status, HttpStatus::ServiceUnavailable);
    assert_eq!(dead.headers, vec![("Retry-After", "5".to_owned())]);
    assert_eq!(text(&dead.body), "resource unreachable: room offline");
    assert!(String::from_utf8(dead.encode()).unwrap().contains("Retry-After: 5\r\n"));

    assert_eq!(gateway_error_response(&FsFailure::NotFound).status, HttpStatus::NotFound);
    assert_eq!(gateway_error_response(&FsFailure::NotSupported).status, HttpStatus::MethodNotAllowed);
    assert_eq!(gateway_error_response(&FsFailure::PermissionDenied).status, HttpStatus::Forbidden);
    assert_eq!(gateway_error_response(&FsFailure::InvalidPath).status, HttpStatus::Forbidden);
    let refused = gateway_error_response(&FsFailure::InvalidArgument("nick too long".to_owned()));
    assert_eq!(refused.status, HttpStatus::BadRequest);
    assert_eq!(text(&refused.body), "nick too long");
    assert_eq!(gateway_error_response(&FsFailure::AlreadyExists).status, HttpStatus::Conflict);
    assert_eq!(gateway_error_response(&FsFailure::Other).status, HttpStatus::InternalServerError);
    assert!(gateway_error_response(&FsFailure::Other).headers.is_empty());
}

#[test]
fn gateway_verbs_and_origins() {
    match origin_action(b"GET /room/latest HTTP/1.1\r\nHost: chat.localhost\r\n\r\n") {
        OriginAction::Get(path) => assert_eq!(path, "room/latest"),
        other => panic!("{other:?}"),
    }
    match origin_action(b"PUT /post HTTP/1.1\r\n\r\n") {
        OriginAction::Write { url_relative, truncate } => {
            assert_eq!(url_relative, "post");
            assert!(truncate);
        }
        other => panic!("{other:?}"),
    }
    match origin_action(b"POST /post HTTP/1.1\r\n\r\n") {
        OriginAction::Write { truncate, .. } => assert!(!truncate),
        other => panic!("{other:?}"),
    }
    match origin_action(b"DELETE /post HTTP/1.1\r\n\r\n") {
        OriginAction::Respond(resp) => assert_eq!(resp.status, HttpStatus::MethodNotAllowed),
        other => panic!("{other:?}"),
    }
    match origin_action(b"GET /a/../b HTTP/1.1\r\n\r\n") {
        OriginAction::Respond(resp) => assert_eq!(resp.status, HttpStatus::Forbidden),
        other => panic!("{other:?}"),
    }

    assert_eq!(origin_host(None), OriginHost::Absent);
    assert_eq!(origin_host(Some("null")), OriginHost::Opaque);
    assert_eq!(
        origin_host(Some(" http://chat.localhost:7654/page ")),
        OriginHost::Named("chat.localhost:7654".to_owned())
    );
    assert_eq!(origin_host(Some("https://evil.example")), OriginHost::Named("evil.example".to_owned()));
    assert_eq!(cross_site_write_response().status, HttpStatus::Forbidden);
}

#[test]
fn gateway_listing_index_and_types() {
    let listing = directory_listing_response(&[
        DirEntryInfo { name: "posts".to_owned(), is_dir: true, size: 0 },
        DirEntryInfo { name: "a\"b.txt".to_owned(), is_dir: false, size: 12 },
    ]);
    assert_eq!(listing.content_type, "application/json");
    assert_eq!(
        text(&listing.body),
        "[{\"name\":\"posts\",\"type\":\"dir\",\"size\":0},{\"name\":\"a\\\"b.txt\",\"type\":\"file\",\"size\":12}]"
    );
    assert_eq!(text(&directory_listing_response(&[]).body), "[]");

    let index = bare_host_index(b"GET / HTTP/1.1\r\n\r\n", &["chat.localhost".to_owned()], 7654).unwrap();
    assert_eq!(
        text(&index.body),
        "<!doctype html><title>wanix gateway</title><h1>bound names</h1><ul>\
         <li><a href=\"http://chat.localhost:7654/\">chat.localhost</a></li></ul>"
    );
    assert!(bare_host_index(b"GET /x HTTP/1.1\r\n\r\n", &[], 1).is_none());
    assert!(bare_host_index(b"POST / HTTP/1.1\r\n\r\n", &[], 1).is_none());

    let unknown = unknown_host_response(false, true, 7654).unwrap();
    assert_eq!(unknown.status, HttpStatus::NotFound);
    assert_eq!(
        text(&unknown.body),
        "unknown gateway name; the bound names are listed at http://localhost:7654/"
    );
    assert!(unknown_host_response(true, true, 7654).is_none());

    assert_eq!(gateway_content_type("site/App.JS"), "text/javascript; charset=utf-8");
    assert_eq!(gateway_content_type("room/.bashrc"), "application/octet-stream");
    assert_eq!(gateway_content_type("index.html"), "text/html; charset=utf-8");
    assert_eq!(gateway_content_type("dir.d/stream"), "application/octet-stream");
    assert_eq!(gateway_content_type("file."), "application/octet-stream");
}

#[test]
fn agent_requests_and_responses() {
    match agent_request(false, true, b"hi") {
        AgentRequest::Refused(resp) => {
            assert_eq!(resp.status, HttpStatus::Forbidden);
            assert_eq!(text(&resp.body), "agent endpoint is loopback-only");
        }
        other => panic!("{other:?}"),
    }
    match agent_request(true, false, b"hi") {
        AgentRequest::Refused(resp) => assert_eq!(resp.status, HttpStatus::BadRequest),
        other => panic!("{other:?}"),
    }
    match agent_request(true, true, b"  \n") {
        AgentRequest::Refused(resp) => {
            assert_eq!(text(&resp.body), "agent endpoint requires a prompt body")
        }
        other => panic!("{other:?}"),
    }
    match agent_request(true, true, b"  hi there\n") {
        AgentRequest::Turn(prompt) => assert_eq!(prompt, "hi there"),
        other => panic!("{other:?}"),
    }
    assert_eq!(agent_session_id(b" 7\n").unwrap(), "7");
    assert_eq!(agent_session_id(b"\n").unwrap_err(), "agent: session allocation failed");
    assert_eq!(agent_session_path("7", "events"), "#agent/7/events");
    assert!(!agent_turn_completed(b"{\"type\":\"turn.started\"}\n"));
    assert!(agent_turn_completed(b"{\"type\":\"turn.completed\"}\n"));
    let ok = agent_response(Ok(b"{}\n".to_vec()));
    assert_eq!(ok.status, HttpStatus::Success);
    assert_eq!(ok.content_type, "application/x-ndjson; charset=utf-8");
    let failed = agent_response(Err("agent: open #agent/new: NotFound".to_owned()));
    assert_eq!(failed.status, HttpStatus::Conflict);
}
