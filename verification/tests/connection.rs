use wanix_cli::error::{CliError, ErrorSource, P9WsConnectionError, ServeConnectionError};
use wanix_cli::serve::ws_reader::{WsEvent, WsReadStep, WsReader};

#[test]
fn serve_connection_errors_have_stable_display_text() {
    assert_eq!(
        ServeConnectionError::Io("closed pipe".to_owned()).to_string(),
        "I/O failed: closed pipe"
    );
    assert_eq!(
        ServeConnectionError::Http("request headers exceeded limit".to_owned()).to_string(),
        "request headers exceeded limit"
    );
    assert_eq!(
        ServeConnectionError::WebSocket(P9WsConnectionError::Handshake("bad key".to_owned()))
            .to_string(),
        "websocket 9P failed: websocket handshake failed: bad key"
    );
    assert_eq!(
        ServeConnectionError::Terminal(CliError::new("shell failed", 1)).to_string(),
        "websocket terminal failed: shell failed"
    );
}

#[test]
fn serve_connection_errors_report_sources_for_wrapped_errors() {
    let io_error = ServeConnectionError::Io("closed pipe".to_owned());
    assert_eq!(io_error.source(), Some(ErrorSource::Io));

    let websocket_error =
        ServeConnectionError::WebSocket(P9WsConnectionError::Handshake("bad key".to_owned()));
    assert_eq!(websocket_error.source(), Some(ErrorSource::WebSocket));

    let terminal_error = ServeConnectionError::Terminal(CliError::new("shell failed", 1));
    assert_eq!(terminal_error.source(), Some(ErrorSource::Terminal));

    let http_error = ServeConnectionError::Http("bad request".to_owned());
    assert!(http_error.source().is_none());
}

#[test]
fn cli_errors_keep_message_and_exit_code() {
    let usage = CliError::usage("bad flag");
    assert_eq!(usage.exit_code(), 2);
    assert_eq!(usage.to_string(), "bad flag");
    let failed = CliError::new("boom", 1);
    assert_eq!(failed.exit_code(), 1);
}

#[test]
fn websocket_reader_delivers_binary_payloads_in_order() {
    let mut reader = WsReader::new();
    assert_eq!(reader.read_step(8), WsReadStep::NeedMessage);
    assert_eq!(reader.on_event(WsEvent::Binary(b"hello".to_vec())), None);
    assert_eq!(reader.on_event(WsEvent::Binary(Vec::new())), None);
    assert_eq!(reader.on_event(WsEvent::Ignored), None);
    assert_eq!(reader.on_event(WsEvent::Ping(b"p".to_vec())), Some(WsReadStep::Pong(b"p".to_vec())));
    assert_eq!(reader.on_event(WsEvent::Binary(b" world".to_vec())), None);
    assert_eq!(reader.read_step(3), WsReadStep::Deliver(b"hel".to_vec()));
    assert_eq!(reader.read_step(100), WsReadStep::Deliver(b"lo world".to_vec()));
    assert_eq!(reader.read_step(100), WsReadStep::NeedMessage);
    assert_eq!(reader.on_event(WsEvent::Close), Some(WsReadStep::End));
}

#[test]
fn websocket_door_errors_name_their_stage() {
    let handshake = P9WsConnectionError::Handshake("bad key".to_owned());
    assert_eq!(handshake.to_string(), "websocket handshake failed: bad key");
    assert!(!handshake.has_source());
    let transport = P9WsConnectionError::Transport("9P transport EOF with 7 buffered bytes".to_owned());
    assert_eq!(
        transport.to_string(),
        "websocket 9P session failed: 9P transport EOF with 7 buffered bytes"
    );
    assert!(transport.has_source());
}
