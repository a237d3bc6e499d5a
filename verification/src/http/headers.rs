//! Header-block questions: method, target path, body, length, host, upgrade,
//! and the content type that a file extension maps to.

use vstd::prelude::*;

use crate::text::{is_ws, str_chars, string_from_chars, utf8_lossy, lossy_utf8, parse_unsigned, parse_unsigned_spec};
use crate::seqs::{trim_start, trim_end, lemma_index_of, lines, split_lines, split_whitespace, index_of, find_char, before_char, chars_before, trim, trim_chars, eq_ignore_ascii_case, chars_eq_ignore_ascii_case, split_char, split_on, find_first, lemma_find_first_step, sub_chars, ascii_lower, char_ascii_lower};
use crate::terminal::resize::{find_from, find_chars};
use super::request::{header_end, header_end_of, header_text, request_header_str, first_header_line, request_line_tokens};

verus! {

/// The first part of the request line.
pub open spec fn method_of(b: Seq<u8>) -> Option<Seq<char>> {
    match request_line_tokens(b) {
        Some(t) => if t.len() >= 1 {
            Some(t[0])
        } else {
            None
        },
        None => None,
    }
}

fn request_line_parts_of(request: &[u8]) -> (r: Option<Vec<Vec<char>>>)
    ensures
        r matches Some(t) ==> request_line_tokens(request@) == Some(t.deep_view()),
        r is None ==> request_line_tokens(request@) is None,
{
    let header = request_header_str(request)?;
    let line = match first_header_line(header.as_slice()) {
        Ok(line) => line,
        Err(_) => return None,
    };
    Some(split_whitespace(line.as_slice()))
}

/// The request method.
pub fn request_method(request: &[u8]) -> (r: Option<String>)
    ensures
        r matches Some(m) ==> method_of(request@) == Some(m@),
        r is None ==> method_of(request@) is None,
{
    let parts = request_line_parts_of(request)?;
    assert(parts.deep_view().len() == parts@.len());
    if parts.len() < 1 {
        return None;
    }
    assert(parts.deep_view()[0] == parts@[0]@);
    Some(string_from_chars(parts[0].as_slice()))
}

/// The request path without its query.
pub open spec fn line_path_of(b: Seq<u8>) -> Option<Seq<char>> {
    match request_line_tokens(b) {
        Some(t) => if t.len() >= 2 {
            Some(before_char(t[1], '?'))
        } else {
            None
        },
        None => None,
    }
}

/// The request target without its query.
pub fn request_line_path(request: &[u8]) -> (r: Option<String>)
    ensures
        r matches Some(p) ==> line_path_of(request@) == Some(p@),
        r is None ==> line_path_of(request@) is None,
{
    let parts = request_line_parts_of(request)?;
    assert(parts.deep_view().len() == parts@.len());
    if parts.len() < 2 {
        return None;
    }
    assert(parts.deep_view()[1] == parts@[1]@);
    let path = chars_before(parts[1].as_slice(), '?');
    Some(string_from_chars(path.as_slice()))
}

/// The `name: value` split of a header line, when it has a colon.
pub open spec fn header_field(line: Seq<char>) -> Option<(Seq<char>, Seq<char>)> {
    let k = index_of(line, ':');
    if 0 <= k < line.len() {
        Some((line.take(k), line.skip(k + 1)))
    } else {
        None
    }
}

fn split_header_field(line: &[char]) -> (r: Option<(Vec<char>, Vec<char>)>)
    ensures
        r matches Some(f) ==> header_field(line@) == Some((f.0@, f.1@)),
        r is None ==> header_field(line@) is None,
{
    let k = find_char(line, ':');
    if k >= line.len() {
        return None;
    }
    Some((sub_chars(line, 0, k), sub_chars(line, k + 1, line.len())))
}

/// A `Content-Length` header line's value, when it parses as a `usize`.
pub open spec fn length_field(line: Seq<char>) -> Option<nat> {
    match header_field(line) {
        Some(f) => if eq_ignore_ascii_case(trim(f.0), "content-length"@) {
            parse_unsigned_spec(trim(f.1), usize::MAX as nat)
        } else {
            None
        },
        None => None,
    }
}

proof fn lemma_header_field_split(name: Seq<char>, value: Seq<char>)
    requires
        !name.contains(':'),
    ensures
        header_field(name + ":"@ + value) == Some((name, value)),
{
    reveal_strlit(":");
    let line = name + ":"@ + value;
    assert forall|j: int| 0 <= j < name.len() implies line[j] != ':' by {
        assert(line[j] == name[j]);
        if name[j] == ':' {
            assert(name.contains(':'));
        }
    }
    assert(line[name.len() as int] == ':');
    lemma_index_of(line, ':', name.len() as int);
    assert(line.take(name.len() as int) =~= name);
    assert(line.skip(name.len() as int + 1) =~= value);
}

proof fn lemma_same_case_same_space(a: char, b: char)
    requires
        ascii_lower(a) == ascii_lower(b),
    ensures
        is_ws(a) == is_ws(b),
{
    let x = a as u32;
    let y = b as u32;
    if 'A' <= a && a <= 'Z' {
        assert(65 <= x <= 90);
        assert((ascii_lower(a) as u32) == x + 32);
    }
    if 'A' <= b && b <= 'Z' {
        assert(65 <= y <= 90);
        assert((ascii_lower(b) as u32) == y + 32);
    }
}

proof fn lemma_case_blind_drop_first(a: Seq<char>, b: Seq<char>)
    requires
        eq_ignore_ascii_case(a, b),
        a.len() > 0,
    ensures
        eq_ignore_ascii_case(a.drop_first(), b.drop_first()),
        is_ws(a[0]) == is_ws(b[0]),
{
    assert(ascii_lower(a[0]) == ascii_lower(b[0]));
    lemma_same_case_same_space(a[0], b[0]);
    assert forall|i: int| 0 <= i < a.len() - 1 implies ascii_lower(#[trigger] a.drop_first()[i])
        == ascii_lower(b.drop_first()[i]) by {
        assert(a.drop_first()[i] == a[i + 1]);
        assert(ascii_lower(a[i + 1]) == ascii_lower(b[i + 1]));
    }
}

proof fn lemma_case_blind_trim_start(a: Seq<char>, b: Seq<char>)
    requires
        eq_ignore_ascii_case(a, b),
    ensures
        eq_ignore_ascii_case(trim_start(a), trim_start(b)),
    decreases a.len(),
{
    if a.len() > 0 {
        lemma_case_blind_drop_first(a, b);
        if is_ws(a[0]) {
            lemma_case_blind_trim_start(a.drop_first(), b.drop_first());
        }
    }
}

proof fn lemma_case_blind_trim_end(a: Seq<char>, b: Seq<char>)
    requires
        eq_ignore_ascii_case(a, b),
    ensures
        eq_ignore_ascii_case(trim_end(a), trim_end(b)),
    decreases a.len(),
{
    if a.len() > 0 {
        let n = a.len() - 1;
        assert(ascii_lower(a[n]) == ascii_lower(b[n]));
        lemma_same_case_same_space(a.last(), b.last());
        if is_ws(a.last()) {
            assert forall|i: int| 0 <= i < n implies ascii_lower(#[trigger] a.drop_last()[i])
                == ascii_lower(b.drop_last()[i]) by {
                assert(ascii_lower(a[i]) == ascii_lower(b[i]));
            }
            lemma_case_blind_trim_end(a.drop_last(), b.drop_last());
        }
    }
}

/// Whether a header line declares the body length does not depend on the
/// ASCII case of its name: two names that differ only in case give the
/// same answer for the same value, and every spelling of `Content-Length`
/// gives its value read as an unsigned number (after trimming).
pub proof fn lemma_length_field_ignores_case(n1: Seq<char>, n2: Seq<char>, value: Seq<char>)
    requires
        !n1.contains(':'),
        !n2.contains(':'),
    ensures
        eq_ignore_ascii_case(n1, n2) ==> length_field(n1 + ":"@ + value) == length_field(
            n2 + ":"@ + value,
        ),
        eq_ignore_ascii_case(n1, "content-length"@) ==> length_field(n1 + ":"@ + value)
            == parse_unsigned_spec(trim(value), usize::MAX as nat),
{
    lemma_header_field_split(n1, value);
    lemma_header_field_split(n2, value);
    reveal_strlit("content-length");
    if eq_ignore_ascii_case(n1, n2) {
        lemma_case_blind_trim_start(n1, n2);
        lemma_case_blind_trim_end(trim_start(n1), trim_start(n2));
        let (t1, t2) = (trim(n1), trim(n2));
        let k = "content-length"@;
        assert(eq_ignore_ascii_case(t1, k) == eq_ignore_ascii_case(t2, k)) by {
            if eq_ignore_ascii_case(t1, k) {
                assert forall|i: int| 0 <= i < t2.len() implies ascii_lower(#[trigger] t2[i])
                    == ascii_lower(k[i]) by {
                    assert(ascii_lower(t1[i]) == ascii_lower(t2[i]));
                    assert(ascii_lower(t1[i]) == ascii_lower(k[i]));
                }
            }
            if eq_ignore_ascii_case(t2, k) {
                assert forall|i: int| 0 <= i < t1.len() implies ascii_lower(#[trigger] t1[i])
                    == ascii_lower(k[i]) by {
                    assert(ascii_lower(t1[i]) == ascii_lower(t2[i]));
                    assert(ascii_lower(t2[i]) == ascii_lower(k[i]));
                }
            }
        }
    }
    if eq_ignore_ascii_case(n1, "content-length"@) {
        let k = "content-length"@;
        lemma_case_blind_trim_start(n1, k);
        lemma_case_blind_trim_end(trim_start(n1), trim_start(k));
        assert(!is_ws(k[0]));
        assert(trim_start(k) == k);
        assert(!is_ws(k.last()));
        assert(trim_end(k) == k);
    }
}

/// The first usable `Content-Length` among the header lines after the request line.
pub open spec fn content_length_of(b: Seq<u8>) -> Option<nat> {
    match header_text(b) {
        Some(h) => if lines(h).len() >= 1 {
            find_first(lines(h).skip(1), |line: Seq<char>| length_field(line))
        } else {
            None
        },
        None => None,
    }
}

fn line_length_field(line: &[char]) -> (r: Option<usize>)
    ensures
        r matches Some(n) ==> length_field(line@) == Some(n as nat),
        r is None ==> length_field(line@) is None,
{
    let (name, value) = split_header_field(line)?;
    let name = trim_chars(name.as_slice());
    if !chars_eq_ignore_ascii_case(name.as_slice(), str_chars("content-length").as_slice()) {
        return None;
    }
    let value = trim_chars(value.as_slice());
    match parse_unsigned(value.as_slice(), usize::MAX as u64) {
        Some(n) => Some(n as usize),
        None => None,
    }
}

/// The declared body length: the first `Content-Length` header whose value
/// parses; lines with other names or unparsable values are passed over.
pub fn content_length(request: &[u8]) -> (r: Option<usize>)
    ensures
        r matches Some(n) ==> content_length_of(request@) == Some(n as nat),
        r is None ==> content_length_of(request@) is None,
{
    let header = request_header_str(request)?;
    let all = split_lines(header.as_slice());
    if all.len() == 0 {
        return None;
    }
    let ghost ls = all.deep_view();
    let ghost f = |line: Seq<char>| length_field(line);
    let mut i: usize = 1;
    assert(ls.skip(1).skip(0) =~= ls.skip(1));
    while i < all.len()
        invariant
            1 <= i <= all.len(),
            ls == all.deep_view(),
            ls == lines(header@),
            header_text(request@) == Some(header@),
            f == (|line: Seq<char>| length_field(line)),
            find_first(ls.skip(1), f) == find_first(ls.skip(i as int), f),
        decreases all.len() - i,
    {
        proof {
            lemma_find_first_step(ls, f, i as int);
        }
        assert(ls[i as int] == all@[i as int]@);
        if let Some(n) = line_length_field(all[i].as_slice()) {
            return Some(n);
        }
        i = i + 1;
    }
    assert(ls.skip(i as int) =~= Seq::<Seq<char>>::empty());
    None
}

/// A header line's trimmed value, when its trimmed name is `name` in any
/// ASCII case.
pub open spec fn named_field(name: Seq<char>, line: Seq<char>) -> Option<Seq<char>> {
    match header_field(line) {
        Some(f) => if eq_ignore_ascii_case(trim(f.0), name) {
            Some(trim(f.1))
        } else {
            None
        },
        None => None,
    }
}

/// The value of the first header named `name` among the lines after the
/// request line.
pub open spec fn header_value_of(b: Seq<u8>, name: Seq<char>) -> Option<Seq<char>> {
    match header_text(b) {
        Some(h) => if lines(h).len() >= 1 {
            find_first(lines(h).skip(1), |line: Seq<char>| named_field(name, line))
        } else {
            None
        },
        None => None,
    }
}

fn line_named_field(line: &[char], name: &[char]) -> (r: Option<Vec<char>>)
    ensures
        r matches Some(v) ==> named_field(name@, line@) == Some(v@),
        r is None ==> named_field(name@, line@) is None,
{
    let (field, value) = split_header_field(line)?;
    let field = trim_chars(field.as_slice());
    if !chars_eq_ignore_ascii_case(field.as_slice(), name) {
        return None;
    }
    Some(trim_chars(value.as_slice()))
}

/// The trimmed value of the first header called `name` (in any ASCII case).
pub fn request_header_value(request: &[u8], name: &str) -> (r: Option<String>)
    ensures
        r matches Some(v) ==> header_value_of(request@, name@) == Some(v@),
        r is None ==> header_value_of(request@, name@) is None,
{
    let header = request_header_str(request)?;
    let all = split_lines(header.as_slice());
    if all.len() == 0 {
        return None;
    }
    let wanted = str_chars(name);
    let ghost ls = all.deep_view();
    let ghost f = |line: Seq<char>| named_field(name@, line);
    let mut i: usize = 1;
    assert(ls.skip(1).skip(0) =~= ls.skip(1));
    while i < all.len()
        invariant
            1 <= i <= all.len(),
            ls == all.deep_view(),
            ls == lines(header@),
            wanted@ == name@,
            header_text(request@) == Some(header@),
            f == (|line: Seq<char>| named_field(name@, line)),
            find_first(ls.skip(1), f) == find_first(ls.skip(i as int), f),
        decreases all.len() - i,
    {
        proof {
            lemma_find_first_step(ls, f, i as int);
        }
        assert(ls[i as int] == all@[i as int]@);
        if let Some(v) = line_named_field(all[i].as_slice(), wanted.as_slice()) {
            return Some(string_from_chars(v.as_slice()));
        }
        i = i + 1;
    }
    assert(ls.skip(i as int) =~= Seq::<Seq<char>>::empty());
    None
}

/// A text with its ASCII capitals made small.
pub open spec fn ascii_lowercase(s: Seq<char>) -> Seq<char> {
    s.map_values(|c: char| ascii_lower(c))
}

/// Whether the first `Accept` header, lowercased, contains
/// `text/event-stream`.
pub open spec fn accepts_event_stream_of(b: Seq<u8>) -> bool {
    match header_value_of(b, "accept"@) {
        Some(v) => find_from(ascii_lowercase(v), "text/event-stream"@, 0) is Some,
        None => false,
    }
}

/// Whether the client asks for a server-sent event stream.
pub fn accepts_event_stream(request: &[u8]) -> (r: bool)
    ensures
        r == accepts_event_stream_of(request@),
{
    let value = match request_header_value(request, "accept") {
        Some(v) => v,
        None => return false,
    };
    let chars = str_chars(value.as_str());
    let mut lower: Vec<char> = Vec::new();
    let mut i: usize = 0;
    while i < chars.len()
        invariant
            i <= chars.len(),
            lower@ == ascii_lowercase(chars@.take(i as int)),
        decreases chars.len() - i,
    {
        lower.push(char_ascii_lower(chars[i]));
        i = i + 1;
        assert(lower@ =~= ascii_lowercase(chars@.take(i as int)));
    }
    assert(chars@.take(i as int) =~= chars@);
    find_chars(lower.as_slice(), str_chars("text/event-stream").as_slice()).is_some()
}

/// The most header bytes read before a request is given up on.
pub const MAX_HTTP_HEADER_BYTES: usize = 16384usize;

/// The most body bytes read after the header block.
pub const MAX_HTTP_BODY_BYTES: usize = 1048576usize;

/// What reading a request should do next.
#[derive(Debug, Clone, Copy, PartialEq, Eq, Structural)]
pub enum ReadStep {
    /// Read more bytes.
    More,
    /// The request is complete.
    Done,
    /// The header block never ended: the request is refused.
    Incomplete,
}

/// How many bytes a request with its header block ending at `end` is read
/// to: the header block and its declared body, at most `MAX_HTTP_BODY_BYTES`
/// of it (no body when no length is declared).
pub open spec fn read_target(b: Seq<u8>, end: int) -> int {
    match content_length_of(b) {
        Some(n) => end + 4 + if n < MAX_HTTP_BODY_BYTES {
            n as int
        } else {
            MAX_HTTP_BODY_BYTES as int
        },
        None => 0,
    }
}

pub open spec fn read_step_of(b: Seq<u8>, eof: bool) -> ReadStep {
    match header_end_of(b) {
        None => if eof || b.len() >= MAX_HTTP_HEADER_BYTES {
            ReadStep::Incomplete
        } else {
            ReadStep::More
        },
        Some(end) => if eof || b.len() >= read_target(b, end) {
            ReadStep::Done
        } else {
            ReadStep::More
        },
    }
}

/// The next step in reading a request, given the bytes so far and whether
/// the last read found the connection closed: the header block is read
/// until it ends (refused past `MAX_HTTP_HEADER_BYTES` or at the end of the
/// stream), then the declared body up to its cap or the end of the stream.
pub fn http_read_step(request: &[u8], eof: bool) -> (r: ReadStep)
    ensures
        r == read_step_of(request@, eof),
{
    match header_end(request) {
        None => if eof || request.len() >= MAX_HTTP_HEADER_BYTES {
            ReadStep::Incomplete
        } else {
            ReadStep::More
        },
        Some(end) => {
            if eof {
                return ReadStep::Done;
            }
            match content_length(request) {
                None => ReadStep::Done,
                Some(n) => {
                    let body = if n < MAX_HTTP_BODY_BYTES {
                        n
                    } else {
                        MAX_HTTP_BODY_BYTES
                    };
                    if request.len() - end - 4 >= body {
                        ReadStep::Done
                    } else {
                        ReadStep::More
                    }
                },
            }
        },
    }
}

/// Where the body starts: just after the blank line, or nowhere.
pub open spec fn body_of(b: Seq<u8>) -> Seq<u8> {
    match header_end_of(b) {
        Some(e) => b.skip(e + 4),
        None => seq![],
    }
}

/// The bytes after the header block.
pub fn request_body(request: &[u8]) -> (r: &[u8])
    ensures
        r@ == body_of(request@),
{
    match header_end(request) {
        Some(end) => {
            let start = if end + 4 < request.len() {
                end + 4
            } else {
                request.len()
            };
            let r = vstd::slice::slice_subrange(request, start, request.len());
            assert(r@ =~= request@.skip(end + 4));
            r
        },
        None => {
            let r = vstd::slice::slice_subrange(request, 0, 0);
            assert(r@ =~= Seq::<u8>::empty());
            r
        },
    }
}

/// A host name that is safe to echo back in URLs: non-empty and made only of
/// ASCII letters, digits and `.-_:[]` (for UTF-8 text, every byte allowed is
/// exactly every character allowed, as the set is ASCII).
pub open spec fn safe_host(host: Seq<char>) -> bool {
    host.len() > 0 && forall|i: int| 0 <= i < host.len() ==> host_char(#[trigger] host[i])
}

pub open spec fn host_char(c: char) -> bool {
    ('a' <= c && c <= 'z') || ('A' <= c && c <= 'Z') || ('0' <= c && c <= '9') || c == '.' || c
        == '-' || c == '_' || c == ':' || c == '[' || c == ']'
}

/// Whether `host` may be used as the host of advertised URLs.
pub fn is_safe_host(host: &str) -> (r: bool)
    ensures
        r == safe_host(host@),
{
    let chars = str_chars(host);
    if chars.len() == 0 {
        return false;
    }
    let mut i: usize = 0;
    while i < chars.len()
        invariant
            i <= chars.len(),
            chars@ == host@,
            forall|j: int| 0 <= j < i ==> host_char(#[trigger] chars@[j]),
        decreases chars.len() - i,
    {
        let c = chars[i];
        let ok = ('a' <= c && c <= 'z') || ('A' <= c && c <= 'Z') || ('0' <= c && c <= '9')
            || c == '.' || c == '-' || c == '_' || c == ':' || c == '[' || c == ']';
        if !ok {
            assert(!host_char(chars@[i as int]));
            return false;
        }
        i = i + 1;
    }
    true
}

/// A `Host` header line's value, when the name is `host` and the trimmed
/// value is safe.
pub open spec fn host_field(line: Seq<char>) -> Option<Seq<char>> {
    match header_field(line) {
        Some(f) => if eq_ignore_ascii_case(trim(f.0), "host"@) && safe_host(trim(f.1)) {
            Some(trim(f.1))
        } else {
            None
        },
        None => None,
    }
}

/// The first safe `Host` value among the header lines after the request line.
pub open spec fn host_of(b: Seq<u8>) -> Option<Seq<char>> {
    match header_text(b) {
        Some(h) => if lines(h).len() >= 1 {
            find_first(lines(h).skip(1), |line: Seq<char>| host_field(line))
        } else {
            None
        },
        None => None,
    }
}

fn line_host_field(line: &[char]) -> (r: Option<String>)
    ensures
        r matches Some(h) ==> host_field(line@) == Some(h@),
        r is None ==> host_field(line@) is None,
{
    let (name, value) = split_header_field(line)?;
    let name = trim_chars(name.as_slice());
    if !chars_eq_ignore_ascii_case(name.as_slice(), str_chars("host").as_slice()) {
        return None;
    }
    let host = string_from_chars(trim_chars(value.as_slice()).as_slice());
    if is_safe_host(host.as_str()) {
        Some(host)
    } else {
        None
    }
}

/// The host the client addressed: the first `Host` header whose trimmed
/// value is safe (unsafe values are passed over).
pub fn request_host(request: &[u8]) -> (r: Option<String>)
    ensures
        r matches Some(h) ==> host_of(request@) == Some(h@),
        r is None ==> host_of(request@) is None,
{
    let header = request_header_str(request)?;
    let all = split_lines(header.as_slice());
    if all.len() == 0 {
        return None;
    }
    let ghost ls = all.deep_view();
    let ghost f = |line: Seq<char>| host_field(line);
    let mut i: usize = 1;
    assert(ls.skip(1).skip(0) =~= ls.skip(1));
    while i < all.len()
        invariant
            1 <= i <= all.len(),
            ls == all.deep_view(),
            ls == lines(header@),
            header_text(request@) == Some(header@),
            f == (|line: Seq<char>| host_field(line)),
            find_first(ls.skip(1), f) == find_first(ls.skip(i as int), f),
        decreases all.len() - i,
    {
        proof {
            lemma_find_first_step(ls, f, i as int);
        }
        assert(ls[i as int] == all@[i as int]@);
        if let Some(h) = line_host_field(all[i].as_slice()) {
            return Some(h);
        }
        i = i + 1;
    }
    assert(ls.skip(i as int) =~= Seq::<Seq<char>>::empty());
    None
}

/// `s` with commas read as spaces, so that splitting on spaces splits on both.
pub open spec fn commas_as_spaces(s: Seq<char>) -> Seq<char> {
    s.map_values(|c: char| if c == ',' { ' ' } else { c })
}

/// A `Connection` value lists `upgrade` among its space- or comma-separated
/// parts.
pub open spec fn mentions_upgrade(value: Seq<char>) -> bool {
    let parts = split_char(commas_as_spaces(value), ' ');
    exists|i: int| 0 <= i < parts.len() && eq_ignore_ascii_case(trim(#[trigger] parts[i]), "upgrade"@)
}

/// What the header lines say so far: whether the last `Connection` line
/// asks for an upgrade and the last `Upgrade` line names `websocket`.
pub open spec fn upgrade_scan(ls: Seq<Seq<char>>) -> (bool, bool)
    decreases ls.len(),
{
    if ls.len() == 0 {
        (false, false)
    } else {
        let st = upgrade_scan(ls.drop_last());
        match header_field(ls.last()) {
            Some(f) => if eq_ignore_ascii_case(trim(f.0), "connection"@) {
                (mentions_upgrade(f.1), st.1)
            } else if eq_ignore_ascii_case(trim(f.0), "upgrade"@) {
                (st.0, eq_ignore_ascii_case(trim(f.1), "websocket"@))
            } else {
                st
            },
            None => st,
        }
    }
}

/// The request asks for a websocket: both parts hold after the header lines
/// that follow the request line (the bytes read as UTF-8, invalid sequences
/// replaced).
pub open spec fn websocket_upgrade_of(b: Seq<u8>) -> bool {
    let ls = lines(lossy_utf8(b));
    ls.len() >= 1 && {
        let st = upgrade_scan(ls.skip(1));
        st.0 && st.1
    }
}

fn connection_mentions_upgrade(value: &[char]) -> (r: bool)
    ensures
        r == mentions_upgrade(value@),
{
    let mut spaced: Vec<char> = Vec::new();
    let mut i: usize = 0;
    while i < value.len()
        invariant
            i <= value.len(),
            spaced@ == commas_as_spaces(value@.take(i as int)),
        decreases value.len() - i,
    {
        let c = value[i];
        spaced.push(if c == ',' { ' ' } else { c });
        assert(spaced@ =~= commas_as_spaces(value@.take(i + 1)));
        i = i + 1;
    }
    assert(value@.take(i as int) =~= value@);
    let parts = split_on(spaced.as_slice(), ' ');
    let ghost pv = parts.deep_view();
    let word = str_chars("upgrade");
    let mut k: usize = 0;
    while k < parts.len()
        invariant
            k <= parts.len(),
            pv == parts.deep_view(),
            pv == split_char(commas_as_spaces(value@), ' '),
            word@ == "upgrade"@,
            forall|j: int| 0 <= j < k ==> !eq_ignore_ascii_case(trim(#[trigger] pv[j]), "upgrade"@),
        decreases parts.len() - k,
    {
        let t = trim_chars(parts[k].as_slice());
        assert(pv[k as int] == parts@[k as int]@);
        if chars_eq_ignore_ascii_case(t.as_slice(), word.as_slice()) {
            return true;
        }
        k = k + 1;
    }
    false
}

/// Whether the header bytes ask for a websocket upgrade (see
/// `websocket_upgrade_of`).
pub fn is_websocket_upgrade(header_bytes: &[u8]) -> (r: bool)
    ensures
        r == websocket_upgrade_of(header_bytes@),
{
    let header = utf8_lossy(header_bytes);
    let chars = str_chars(header.as_str());
    let all = split_lines(chars.as_slice());
    if all.len() == 0 {
        return false;
    }
    let ghost ls = all.deep_view().skip(1);
    let mut has_connection_upgrade = false;
    let mut has_websocket_upgrade = false;
    let mut i: usize = 1;
    assert(ls.take(0) =~= Seq::<Seq<char>>::empty());
    while i < all.len()
        invariant
            1 <= i <= all.len(),
            ls == all.deep_view().skip(1),
            upgrade_scan(ls.take(i - 1)) == (has_connection_upgrade, has_websocket_upgrade),
        decreases all.len() - i,
    {
        assert(ls.take(i as int).drop_last() =~= ls.take(i - 1));
        assert(ls.take(i as int).last() == all@[i as int]@);
        let line = all[i].as_slice();
        if let Some((name, value)) = split_header_field(line) {
            let name = trim_chars(name.as_slice());
            if chars_eq_ignore_ascii_case(name.as_slice(), str_chars("connection").as_slice()) {
                has_connection_upgrade = connection_mentions_upgrade(value.as_slice());
            } else if chars_eq_ignore_ascii_case(name.as_slice(), str_chars("upgrade").as_slice()) {
                let v = trim_chars(value.as_slice());
                has_websocket_upgrade = chars_eq_ignore_ascii_case(
                    v.as_slice(),
                    str_chars("websocket").as_slice(),
                );
            }
        }
        i = i + 1;
    }
    assert(ls.take(i - 1) =~= ls);
    has_connection_upgrade && has_websocket_upgrade
}

/// A raw response split at its blank line: the head as text (invalid UTF-8
/// replaced) with the blank line, and the body bytes.
pub fn http_response_parts(response: &[u8]) -> (r: (String, Vec<u8>))
    requires
        header_end_of(response@) is Some,
    ensures
        r.0@ == lossy_utf8(response@.take(header_end_of(response@)->0 + 4)),
        r.1@ == response@.skip(header_end_of(response@)->0 + 4),
{
    let end = match header_end(response) {
        Some(e) => e,
        None => 0,
    };
    let head = vstd::slice::slice_subrange(response, 0, end + 4);
    let body = vstd::slice::slice_subrange(response, end + 4, response.len());
    (utf8_lossy(head), vstd::slice::slice_to_vec(body))
}

} // verus!
