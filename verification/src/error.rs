//! Errors reported by the CLI and by served connections, as plain values:
//! each has the message its `Display` would print.

use vstd::prelude::*;
use crate::text::{push_str, string_from_chars};

verus! {

/// A command failure: what to print and the exit code to leave with.
#[derive(Debug, Clone, PartialEq, Eq)]
pub struct CliError {
    pub message: String,
    pub exit_code: i32,
}

impl CliError {
    /// A failure with its message and exit code.
    pub fn new(message: &str, exit_code: i32) -> (r: Self)
        ensures
            r.message@ == message@,
            r.exit_code == exit_code,
    {
        CliError { message: message.to_owned(), exit_code }
    }

    /// A command-line usage mistake: exit code 2.
    pub fn usage(message: &str) -> (r: Self)
        ensures
            r.message@ == message@,
            r.exit_code == 2,
    {
        CliError { message: message.to_owned(), exit_code: 2 }
    }

    /// The exit code to leave with.
    pub fn exit_code(&self) -> (r: i32)
        ensures
            r == self.exit_code,
    {
        self.exit_code
    }

    /// The text the error prints: its message.
    pub fn to_string(&self) -> (r: String)
        ensures
            r@ == self.message@,
    {
        self.message.clone()
    }
}

/// A failed websocket 9P connection: the handshake failed, or the 9P
/// session over the socket did (with the transport error's text).
#[derive(Debug, Clone, PartialEq, Eq)]
pub enum P9WsConnectionError {
    Handshake(String),
    Transport(String),
}

impl P9WsConnectionError {
    pub open spec fn text(&self) -> Seq<char> {
        match self {
            P9WsConnectionError::Handshake(e) => "websocket handshake failed: "@ + e@,
            P9WsConnectionError::Transport(e) => "websocket 9P session failed: "@ + e@,
        }
    }

    /// `websocket handshake failed: <why>` or `websocket 9P session failed:
    /// <why>`.
    pub fn to_string(&self) -> (r: String)
        ensures
            r@ == self.text(),
    {
        let mut out: Vec<char> = Vec::new();
        match self {
            P9WsConnectionError::Handshake(e) => {
                push_str(&mut out, "websocket handshake failed: ");
                push_str(&mut out, e.as_str());
            },
            P9WsConnectionError::Transport(e) => {
                push_str(&mut out, "websocket 9P session failed: ");
                push_str(&mut out, e.as_str());
            },
        }
        string_from_chars(out.as_slice())
    }

    /// Whether the error wraps another: only a failed session does.
    pub fn has_source(&self) -> (r: bool)
        ensures
            r == (self is Transport),
    {
        match self {
            P9WsConnectionError::Handshake(_) => false,
            P9WsConnectionError::Transport(_) => true,
        }
    }
}

/// Which kind of error a connection error wraps, when it wraps one.
#[derive(Debug, Clone, Copy, PartialEq, Eq, Structural)]
pub enum ErrorSource {
    Io,
    WebSocket,
    Terminal,
}

/// Why serving one connection failed. An I/O failure carries the text of the
/// underlying error.
#[derive(Debug, Clone, PartialEq, Eq)]
pub enum ServeConnectionError {
    Io(String),
    Http(String),
    WebSocket(P9WsConnectionError),
    Terminal(CliError),
}

impl ServeConnectionError {
    pub open spec fn text(&self) -> Seq<char> {
        match self {
            ServeConnectionError::Io(e) => "I/O failed: "@ + e@,
            ServeConnectionError::Http(e) => e@,
            ServeConnectionError::WebSocket(e) => "websocket 9P failed: "@ + e.text(),
            ServeConnectionError::Terminal(e) => "websocket terminal failed: "@ + e.message@,
        }
    }

    /// The text the error prints.
    pub fn to_string(&self) -> (r: String)
        ensures
            r@ == self.text(),
    {
        let mut out: Vec<char> = Vec::new();
        match self {
            ServeConnectionError::Io(e) => {
                push_str(&mut out, "I/O failed: ");
                push_str(&mut out, e.as_str());
            },
            ServeConnectionError::Http(e) => {
                push_str(&mut out, e.as_str());
            },
            ServeConnectionError::WebSocket(e) => {
                push_str(&mut out, "websocket 9P failed: ");
                let inner = e.to_string();
                push_str(&mut out, inner.as_str());
            },
            ServeConnectionError::Terminal(e) => {
                push_str(&mut out, "websocket terminal failed: ");
                push_str(&mut out, e.message.as_str());
            },
        }
        string_from_chars(out.as_slice())
    }

    /// The error this one wraps: every kind but a plain HTTP failure wraps one.
    pub fn source(&self) -> (r: Option<ErrorSource>)
        ensures
            r == match self {
                ServeConnectionError::Io(_) => Some(ErrorSource::Io),
                ServeConnectionError::Http(_) => None,
                ServeConnectionError::WebSocket(_) => Some(ErrorSource::WebSocket),
                ServeConnectionError::Terminal(_) => Some(ErrorSource::Terminal),
            },
    {
        match self {
            ServeConnectionError::Io(_) => Some(ErrorSource::Io),
            ServeConnectionError::Http(_) => None,
            ServeConnectionError::WebSocket(_) => Some(ErrorSource::WebSocket),
            ServeConnectionError::Terminal(_) => Some(ErrorSource::Terminal),
        }
    }
}

} // verus!
