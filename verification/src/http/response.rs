//! Buffered HTTP responses and their statuses.

use vstd::prelude::*;
use vstd::utf8::encode_utf8;
use crate::text::{decimal, push_decimal, push_str, chars_to_utf8, str_chars};

verus! {

#[derive(Debug, Clone, Copy, PartialEq, Eq, Structural)]
pub enum HttpStatus {
    Success,
    BadRequest,
    Conflict,
    Forbidden,
    NotFound,
    MethodNotAllowed,
    NotImplemented,
    InternalServerError,
    ServiceUnavailable,
}

impl HttpStatus {
    pub open spec fn line(self) -> Seq<char> {
        match self {
            HttpStatus::Success => "200 OK"@,
            HttpStatus::BadRequest => "400 Bad Request"@,
            HttpStatus::Conflict => "409 Conflict"@,
            HttpStatus::Forbidden => "403 Forbidden"@,
            HttpStatus::NotFound => "404 Not Found"@,
            HttpStatus::MethodNotAllowed => "405 Method Not Allowed"@,
            HttpStatus::NotImplemented => "501 Not Implemented"@,
            HttpStatus::InternalServerError => "500 Internal Server Error"@,
            HttpStatus::ServiceUnavailable => "503 Service Unavailable"@,
        }
    }

    pub open spec fn reason_text(self) -> Seq<char> {
        match self {
            HttpStatus::Success => "ok"@,
            HttpStatus::BadRequest => "bad request"@,
            HttpStatus::Conflict => "conflict"@,
            HttpStatus::Forbidden => "forbidden"@,
            HttpStatus::NotFound => "not found"@,
            HttpStatus::MethodNotAllowed => "method not allowed"@,
            HttpStatus::NotImplemented => "not implemented"@,
            HttpStatus::InternalServerError => "internal server error"@,
            HttpStatus::ServiceUnavailable => "service unavailable"@,
        }
    }

    /// The status code and reason phrase of the response's first line.
    pub fn status_line(self) -> (r: &'static str)
        ensures
            r@ == self.line(),
    {
        match self {
            HttpStatus::Success => "200 OK",
            HttpStatus::BadRequest => "400 Bad Request",
            HttpStatus::Conflict => "409 Conflict",
            HttpStatus::Forbidden => "403 Forbidden",
            HttpStatus::NotFound => "404 Not Found",
            HttpStatus::MethodNotAllowed => "405 Method Not Allowed",
            HttpStatus::NotImplemented => "501 Not Implemented",
            HttpStatus::InternalServerError => "500 Internal Server Error",
            HttpStatus::ServiceUnavailable => "503 Service Unavailable",
        }
    }

    /// The lowercase reason used as a plain-text error body.
    pub fn reason(self) -> (r: &'static str)
        ensures
            r@ == self.reason_text(),
    {
        match self {
            HttpStatus::Success => "ok",
            HttpStatus::BadRequest => "bad request",
            HttpStatus::Conflict => "conflict",
            HttpStatus::Forbidden => "forbidden",
            HttpStatus::NotFound => "not found",
            HttpStatus::MethodNotAllowed => "method not allowed",
            HttpStatus::NotImplemented => "not implemented",
            HttpStatus::InternalServerError => "internal server error",
            HttpStatus::ServiceUnavailable => "service unavailable",
        }
    }
}

/// A complete response whose body is sent behind `Content-Length`.
#[derive(Debug)]
pub struct StaticResponse {
    pub status: HttpStatus,
    pub content_type: &'static str,
    pub headers: Vec<(&'static str, String)>,
    pub body: Vec<u8>,
}

/// `s` without carriage returns and line feeds.
pub open spec fn without_crlf(s: Seq<char>) -> Seq<char>
    decreases s.len(),
{
    if s.len() == 0 {
        s
    } else if s.last() == '\r' || s.last() == '\n' {
        without_crlf(s.drop_last())
    } else {
        without_crlf(s.drop_last()).push(s.last())
    }
}

/// The header block lines `name: value\r\n`, in order.
pub open spec fn header_lines(headers: Seq<(&'static str, String)>) -> Seq<char>
    decreases headers.len(),
{
    if headers.len() == 0 {
        seq![]
    } else {
        let h = headers.last();
        header_lines(headers.drop_last()) + h.0@ + ": "@ + h.1@ + "\r\n"@
    }
}

pub open spec fn response_tail() -> Seq<char> {
    "Cross-Origin-Opener-Policy: same-origin\r\nCross-Origin-Embedder-Policy: require-corp\r\nAccess-Control-Allow-Origin: *\r\nConnection: close\r\n\r\n"@
}

impl StaticResponse {
    /// The text before the body: status line, length, type, extra headers and
    /// the browser-isolation and connection headers.
    pub open spec fn head(self) -> Seq<char> {
        "HTTP/1.1 "@ + self.status.line() + "\r\nContent-Length: "@ + decimal(
            self.body@.len(),
        ) + "\r\nContent-Type: "@ + self.content_type@ + "\r\n"@ + header_lines(self.headers@)
            + response_tail()
    }

    /// A `text/plain` response carrying `body`.
    pub fn plain(status: HttpStatus, body: &str) -> (r: Self)
        ensures
            r.status == status,
            r.content_type@ == "text/plain; charset=utf-8"@,
            r.headers@.len() == 0,
            r.body@ == encode_utf8(body@),
    {
        StaticResponse {
            status,
            content_type: "text/plain; charset=utf-8",
            headers: Vec::new(),
            body: vstd::slice::slice_to_vec(body.as_bytes()),
        }
    }

    /// Adds a header; carriage returns and line feeds are dropped from the
    /// value, so a value can never end the header block or start another.
    pub fn with_header(self, name: &'static str, value: String) -> (r: Self)
        ensures
            r.status == self.status,
            r.content_type == self.content_type,
            r.body == self.body,
            r.headers@.len() == self.headers@.len() + 1,
            r.headers@.take(self.headers@.len() as int) == self.headers@,
            r.headers@.last().0 == name,
            r.headers@.last().1@ == without_crlf(value@),
    {
        let chars = str_chars(value.as_str());
        let mut kept: Vec<char> = Vec::new();
        let mut i: usize = 0;
        while i < chars.len()
            invariant
                i <= chars.len(),
                chars@ == value@,
                kept@ == without_crlf(chars@.take(i as int)),
            decreases chars.len() - i,
        {
            let c = chars[i];
            assert(chars@.take(i + 1).drop_last() =~= chars@.take(i as int));
            if c != '\r' && c != '\n' {
                kept.push(c);
            }
            i = i + 1;
        }
        assert(chars@.take(i as int) =~= chars@);
        let mut response = self;
        let ghost old_headers = response.headers@;
        response.headers.push((name, crate::text::string_from_chars(kept.as_slice())));
        assert(response.headers@.take(old_headers.len() as int) =~= old_headers);
        response
    }

    /// The bytes on the wire: the head in UTF-8, then the body.
    pub fn encode(&self) -> (bytes: Vec<u8>)
        ensures
            bytes@ == encode_utf8(self.head()) + self.body@,
    {
        let mut head: Vec<char> = Vec::new();
        push_str(&mut head, "HTTP/1.1 ");
        push_str(&mut head, self.status.status_line());
        push_str(&mut head, "\r\nContent-Length: ");
        push_decimal(&mut head, self.body.len() as u64);
        push_str(&mut head, "\r\nContent-Type: ");
        push_str(&mut head, self.content_type);
        push_str(&mut head, "\r\n");
        let ghost prefix = head@;
        let mut i: usize = 0;
        while i < self.headers.len()
            invariant
                i <= self.headers.len(),
                head@ == prefix + header_lines(self.headers@.take(i as int)),
            decreases self.headers.len() - i,
        {
            let (name, value) = &self.headers[i];
            assert(self.headers@.take(i + 1).drop_last() =~= self.headers@.take(i as int));
            push_str(&mut head, name);
            push_str(&mut head, ": ");
            push_str(&mut head, value.as_str());
            push_str(&mut head, "\r\n");
            i = i + 1;
            assert(head@ =~= prefix + header_lines(self.headers@.take(i as int)));
        }
        assert(self.headers@.take(i as int) =~= self.headers@);
        push_str(
            &mut head,
            "Cross-Origin-Opener-Policy: same-origin\r\nCross-Origin-Embedder-Policy: require-corp\r\nAccess-Control-Allow-Origin: *\r\nConnection: close\r\n\r\n",
        );
        assert(head@ =~= self.head());
        let mut bytes = chars_to_utf8(head.as_slice());
        bytes.extend_from_slice(self.body.as_slice());
        assert(bytes@ =~= encode_utf8(self.head()) + self.body@);
        bytes
    }
}

} // verus!
