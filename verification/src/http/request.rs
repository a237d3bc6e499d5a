//! Request-line and path parsing for the HTTP door.
//!
//! A request is read as raw bytes; its header block ends at the first blank
//! line (`\r\n\r\n`) and must be UTF-8. The request line's target is turned
//! into plain path segments: percent escapes are decoded and any segment that
//! could climb out of the served root is refused.

use vstd::prelude::*;
use vstd::utf8::{valid_utf8, decode_utf8, encode_utf8};
use crate::text::{str_from_utf8, str_chars, string_from_chars, chars_to_utf8};
use crate::seqs::{first_line, split_lines, ws_tokens, split_whitespace, before_char, chars_before, starts_with, chars_starts_with, split_char, split_on, chars_eq};
use super::response::{HttpStatus, StaticResponse};

verus! {

/// `b[i..i + 4]` is `\r\n\r\n`.
pub open spec fn blank_line_at(b: Seq<u8>, i: int) -> bool {
    0 <= i && i + 4 <= b.len() && b[i] == 13u8 && b[i + 1] == 10u8 && b[i + 2] == 13u8 && b[i
        + 3] == 10u8
}

/// The first `i >= from` where a blank line starts.
pub open spec fn blank_line_from(b: Seq<u8>, from: int) -> Option<int>
    decreases b.len() - from,
{
    if from < 0 || from + 4 > b.len() {
        None
    } else if blank_line_at(b, from) {
        Some(from)
    } else {
        blank_line_from(b, from + 1)
    }
}

/// Where the header block ends: the first `\r\n\r\n`.
pub open spec fn header_end_of(b: Seq<u8>) -> Option<int> {
    blank_line_from(b, 0)
}

proof fn lemma_blank_line_from_found(b: Seq<u8>, from: int)
    requires
        0 <= from,
    ensures
        blank_line_from(b, from) matches Some(i) ==> from <= i && blank_line_at(b, i) && forall|
            j: int,
        | from <= j < i ==> !blank_line_at(b, j),
        blank_line_from(b, from) is None ==> forall|j: int| from <= j ==> !blank_line_at(b, j),
    decreases b.len() - from,
{
    if from + 4 <= b.len() && !blank_line_at(b, from) {
        lemma_blank_line_from_found(b, from + 1);
    }
}

/// Position of the blank line that ends the header block.
pub fn header_end(bytes: &[u8]) -> (r: Option<usize>)
    ensures
        r matches Some(i) ==> header_end_of(bytes@) == Some(i as int) && i + 4 <= bytes.len(),
        r is None ==> header_end_of(bytes@) is None,
{
    if bytes.len() < 4 {
        return None;
    }
    let mut i: usize = 0;
    while i <= bytes.len() - 4
        invariant
            bytes.len() >= 4,
            i <= bytes.len() - 3,
            blank_line_from(bytes@, 0) == blank_line_from(bytes@, i as int),
        decreases bytes.len() - i,
    {
        if bytes[i] == 13 && bytes[i + 1] == 10 && bytes[i + 2] == 13 && bytes[i + 3] == 10 {
            return Some(i);
        }
        i = i + 1;
    }
    None
}

/// The header block as text, when it is complete and valid UTF-8.
pub open spec fn header_text(b: Seq<u8>) -> Option<Seq<char>> {
    match header_end_of(b) {
        Some(e) => if valid_utf8(b.take(e)) {
            Some(decode_utf8(b.take(e)))
        } else {
            None
        },
        None => None,
    }
}

/// The whitespace-separated parts of the request line.
pub open spec fn request_line_tokens(b: Seq<u8>) -> Option<Seq<Seq<char>>> {
    match header_text(b) {
        Some(h) => match first_line(h) {
            Some(line) => Some(ws_tokens(line)),
            None => None,
        },
        None => None,
    }
}

/// The request's header block as characters; `BadRequest` when the block is
/// unterminated or not UTF-8.
pub fn request_header(bytes: &[u8]) -> (r: Result<Vec<char>, HttpStatus>)
    ensures
        r matches Ok(h) ==> header_text(bytes@) == Some(h@),
        r matches Err(e) ==> header_text(bytes@) is None && e == HttpStatus::BadRequest,
{
    let end = match header_end(bytes) {
        Some(end) => end,
        None => return Err(HttpStatus::BadRequest),
    };
    let head = vstd::slice::slice_subrange(bytes, 0, end);
    assert(head@ =~= bytes@.take(end as int));
    match str_from_utf8(head) {
        Some(text) => Ok(str_chars(text)),
        None => Err(HttpStatus::BadRequest),
    }
}

/// The header block as characters, when there is one (`request_header` without the status).
pub fn request_header_str(request: &[u8]) -> (r: Option<Vec<char>>)
    ensures
        r matches Some(h) ==> header_text(request@) == Some(h@),
        r is None ==> header_text(request@) is None,
{
    match request_header(request) {
        Ok(h) => Some(h),
        Err(_) => None,
    }
}

/// The first line of the header block.
pub fn first_header_line(header: &[char]) -> (r: Result<Vec<char>, HttpStatus>)
    ensures
        r matches Ok(line) ==> first_line(header@) == Some(line@),
        r matches Err(e) ==> first_line(header@) is None && e == HttpStatus::BadRequest,
{
    let all = split_lines(header);
    if all.len() == 0 {
        return Err(HttpStatus::BadRequest);
    }
    let line = vstd::slice::slice_to_vec(all[0].as_slice());
    assert(all.deep_view()[0] == all@[0]@);
    Ok(line)
}

/// The request-line parts, when there are exactly three: method, target, version.
pub open spec fn exactly_three(t: Seq<Seq<char>>) -> Option<(Seq<char>, Seq<char>, Seq<char>)> {
    if t.len() == 3 {
        Some((t[0], t[1], t[2]))
    } else {
        None
    }
}

/// Splits the request line into method, target and version.
pub fn request_line_parts(request_line: &[char]) -> (r: Result<
    (Vec<char>, Vec<char>, Vec<char>),
    HttpStatus,
>)
    ensures
        r matches Ok(p) ==> exactly_three(ws_tokens(request_line@)) == Some((p.0@, p.1@, p.2@)),
        r matches Err(e) ==> exactly_three(ws_tokens(request_line@)) is None && e
            == HttpStatus::BadRequest,
{
    let parts = split_whitespace(request_line);
    assert(parts.deep_view().len() == parts@.len());
    if parts.len() < 3 {
        return Err(HttpStatus::BadRequest);
    }
    let extra = if parts.len() > 3 {
        Some(parts[3].as_slice())
    } else {
        None
    };
    reject_extra_request_line_parts(extra)?;
    assert(parts.deep_view()[0] == parts@[0]@);
    assert(parts.deep_view()[1] == parts@[1]@);
    assert(parts.deep_view()[2] == parts@[2]@);
    let method = vstd::slice::slice_to_vec(parts[0].as_slice());
    let raw_path = vstd::slice::slice_to_vec(parts[1].as_slice());
    let version = vstd::slice::slice_to_vec(parts[2].as_slice());
    Ok((method, raw_path, version))
}

/// A fourth request-line part is a malformed request.
pub fn reject_extra_request_line_parts(extra_part: Option<&[char]>) -> (r: Result<(), HttpStatus>)
    ensures
        r is Ok <==> extra_part is None,
        r matches Err(e) ==> e == HttpStatus::BadRequest,
{
    if extra_part.is_some() {
        return Err(HttpStatus::BadRequest);
    }
    Ok(())
}

/// Only HTTP/1.x is spoken.
pub fn validate_http_version(version: &[char]) -> (r: Result<(), HttpStatus>)
    ensures
        r is Ok <==> starts_with(version@, "HTTP/1."@),
        r matches Err(e) ==> e == HttpStatus::BadRequest,
{
    let prefix = str_chars("HTTP/1.");
    if chars_starts_with(version, prefix.as_slice()) {
        return Ok(());
    }
    Err(HttpStatus::BadRequest)
}

/// Static serving answers only `GET`.
pub fn require_get_method(method: &[char]) -> (r: Result<(), HttpStatus>)
    ensures
        r is Ok <==> method@ == "GET"@,
        r matches Err(e) ==> e == HttpStatus::MethodNotAllowed,
{
    let get = str_chars("GET");
    if chars_eq(method, get.as_slice()) {
        return Ok(());
    }
    Err(HttpStatus::MethodNotAllowed)
}

/// The target of a well-formed `GET` request line, or the error it earns.
pub open spec fn line_target(line: Seq<char>) -> Result<Seq<char>, HttpStatus> {
    match exactly_three(ws_tokens(line)) {
        None => Err(HttpStatus::BadRequest),
        Some(p) => if !starts_with(p.2, "HTTP/1."@) {
            Err(HttpStatus::BadRequest)
        } else if p.0 != "GET"@ {
            Err(HttpStatus::MethodNotAllowed)
        } else {
            Ok(p.1)
        },
    }
}

/// The raw target of a `GET` request line.
pub fn request_line_target(header: &[char]) -> (r: Result<Vec<char>, HttpStatus>)
    ensures
        r matches Ok(t) ==> first_line(header@) matches Some(line) && line_target(line) == Ok::<
            Seq<char>,
            HttpStatus,
        >(t@),
        r matches Err(e) ==> match first_line(header@) {
            None => e == HttpStatus::BadRequest,
            Some(line) => line_target(line) == Err::<Seq<char>, HttpStatus>(e),
        },
{
    let request_line = first_header_line(header)?;
    let (method, raw_path, version) = request_line_parts(request_line.as_slice())?;
    validate_http_version(version.as_slice())?;
    require_get_method(method.as_slice())?;
    Ok(raw_path)
}

/// The value of one hexadecimal digit byte.
pub open spec fn hex_val(b: u8) -> Option<u8> {
    if 48 <= b && b <= 57 {
        Some((b - 48) as u8)
    } else if 97 <= b && b <= 102 {
        Some((b - 97 + 10) as u8)
    } else if 65 <= b && b <= 70 {
        Some((b - 65 + 10) as u8)
    } else {
        None
    }
}

/// The byte that the first unit of `b` decodes to, and the unit's length:
/// `%XX` with two hex digits, or one literal byte.
pub open spec fn pct_unit(b: Seq<u8>) -> Option<(u8, int)> {
    if b.len() == 0 {
        None
    } else if b[0] == 37u8 {
        if b.len() < 3 {
            None
        } else {
            match (hex_val(b[1]), hex_val(b[2])) {
                (Some(h), Some(l)) => Some(((h * 16 + l) as u8, 3int)),
                _ => None,
            }
        }
    } else {
        Some((b[0], 1int))
    }
}

/// Percent-decoding of a byte sequence; `None` on a malformed escape.
pub open spec fn pct_bytes(b: Seq<u8>) -> Option<Seq<u8>>
    decreases b.len(),
{
    if b.len() == 0 {
        Some(seq![])
    } else {
        match pct_unit(b) {
            None => None,
            Some(u) => if u.1 >= 1 {
                match pct_bytes(b.skip(u.1)) {
                    Some(rest) => Some(seq![u.0] + rest),
                    None => None,
                }
            } else {
                None
            },
        }
    }
}

/// The text that a path segment percent-decodes to, when the escapes are
/// well-formed and the decoded bytes are UTF-8.
pub open spec fn pct_decode(seg: Seq<char>) -> Option<Seq<char>> {
    match pct_bytes(encode_utf8(seg)) {
        Some(d) => if valid_utf8(d) {
            Some(decode_utf8(d))
        } else {
            None
        },
        None => None,
    }
}

/// The value of a hex digit.
pub fn hex_value(byte: u8) -> (r: Result<u8, HttpStatus>)
    ensures
        r matches Ok(v) ==> hex_val(byte) == Some(v),
        r matches Err(e) ==> hex_val(byte) is None && e == HttpStatus::BadRequest,
{
    if 48 <= byte && byte <= 57 {
        Ok(byte - 48)
    } else if 97 <= byte && byte <= 102 {
        Ok(byte - 97 + 10)
    } else if 65 <= byte && byte <= 70 {
        Ok(byte - 65 + 10)
    } else {
        Err(HttpStatus::BadRequest)
    }
}

/// Appends a literal byte; decoding continues after it.
pub fn push_raw_byte(byte: u8, index: usize, decoded: &mut Vec<u8>) -> (r: Result<usize, HttpStatus>)
    requires
        index < usize::MAX,
    ensures
        r == Ok::<usize, HttpStatus>((index + 1) as usize),
        final(decoded)@ == old(decoded)@.push(byte),
{
    decoded.push(byte);
    Ok(index + 1)
}

/// Decodes the `%XX` escape at `index` and appends its byte.
pub fn push_percent_escape(bytes: &[u8], index: usize, decoded: &mut Vec<u8>) -> (r: Result<
    usize,
    HttpStatus,
>)
    requires
        index < bytes.len(),
        bytes@[index as int] == 37u8,
    ensures
        match pct_unit(bytes@.skip(index as int)) {
            Some(u) => r == Ok::<usize, HttpStatus>((index + u.1) as usize) && final(decoded)@
                == old(decoded)@.push(u.0),
            None => r == Err::<usize, HttpStatus>(HttpStatus::BadRequest) && final(decoded)@
                == old(decoded)@,
        },
{
    let ghost rest = bytes@.skip(index as int);
    if index + 1 >= bytes.len() || index + 2 >= bytes.len() {
        return Err(HttpStatus::BadRequest);
    }
    let high = bytes[index + 1];
    let low = bytes[index + 2];
    assert(rest[1] == high && rest[2] == low);
    let h = hex_value(high)?;
    let l = hex_value(low)?;
    decoded.push(h * 16 + l);
    Ok(index + 3)
}

/// Decodes the unit at `index` (an escape or a literal byte) and appends it.
pub fn push_percent_decoded_byte(bytes: &[u8], index: usize, decoded: &mut Vec<u8>) -> (r: Result<
    usize,
    HttpStatus,
>)
    requires
        index < bytes.len(),
    ensures
        match pct_unit(bytes@.skip(index as int)) {
            Some(u) => r == Ok::<usize, HttpStatus>((index + u.1) as usize) && final(decoded)@
                == old(decoded)@.push(u.0),
            None => r == Err::<usize, HttpStatus>(HttpStatus::BadRequest) && final(decoded)@
                == old(decoded)@,
        },
{
    let ghost rest = bytes@.skip(index as int);
    assert(rest[0] == bytes@[index as int]);
    if bytes[index] == 37 {
        push_percent_escape(bytes, index, decoded)
    } else {
        push_raw_byte(bytes[index], index, decoded)
    }
}

/// Percent-decodes one path segment into text.
pub fn percent_decode(segment: &[char]) -> (r: Result<String, HttpStatus>)
    ensures
        r matches Ok(s) ==> pct_decode(segment@) == Some(s@),
        r matches Err(e) ==> pct_decode(segment@) is None && e == HttpStatus::BadRequest,
{
    let bytes = chars_to_utf8(segment);
    let mut decoded: Vec<u8> = Vec::new();
    let mut i: usize = 0;
    assert(bytes@.skip(0) =~= bytes@);
    while i < bytes.len()
        invariant
            i <= bytes.len(),
            bytes@ == encode_utf8(segment@),
            pct_bytes(bytes@) == (match pct_bytes(bytes@.skip(i as int)) {
                Some(rest) => Some(decoded@ + rest),
                None => None::<Seq<u8>>,
            }),
        decreases bytes.len() - i,
    {
        let ghost tail = bytes@.skip(i as int);
        let ghost before = decoded@;
        let next = push_percent_decoded_byte(bytes.as_slice(), i, &mut decoded);
        match next {
            Ok(n) => {
                proof {
                    let u = pct_unit(tail).unwrap();
                    assert(tail.skip(u.1) =~= bytes@.skip(n as int));
                    if let Some(rest) = pct_bytes(bytes@.skip(n as int)) {
                        assert(before + (seq![u.0] + rest) =~= decoded@ + rest);
                    }
                }
                i = n;
            },
            Err(e) => {
                return Err(e);
            },
        }
    }
    assert(bytes@.skip(i as int) =~= Seq::<u8>::empty());
    assert(decoded@ + Seq::<u8>::empty() =~= decoded@);
    match str_from_utf8(decoded.as_slice()) {
        Some(text) => Ok(string_from_chars(str_chars(text).as_slice())),
        None => Err(HttpStatus::BadRequest),
    }
}

/// A segment that could name the current or parent directory or smuggle a separator.
pub open spec fn forbidden_segment(s: Seq<char>) -> bool {
    s == "."@ || s == ".."@ || s.contains('/') || s.contains('\\')
}

pub fn is_forbidden_path_segment(segment: &[char]) -> (r: bool)
    ensures
        r == forbidden_segment(segment@),
{
    let dot = str_chars(".");
    let dotdot = str_chars("..");
    if chars_eq(segment, dot.as_slice()) || chars_eq(segment, dotdot.as_slice()) {
        return true;
    }
    let mut i: usize = 0;
    while i < segment.len()
        invariant
            i <= segment.len(),
            forall|j: int| 0 <= j < i ==> segment@[j] != '/' && segment@[j] != '\\',
        decreases segment.len() - i,
    {
        if segment[i] == '/' || segment[i] == '\\' {
            assert(segment@[i as int] == segment[i as int]);
            return true;
        }
        i = i + 1;
    }
    false
}

/// What the raw segments of a path yield: empty segments are skipped, the
/// rest are decoded and checked, and the first failure decides the error.
pub open spec fn safe_segments(raw: Seq<Seq<char>>) -> Result<Seq<Seq<char>>, HttpStatus>
    decreases raw.len(),
{
    if raw.len() == 0 {
        Ok(seq![])
    } else if raw[0].len() == 0 {
        safe_segments(raw.drop_first())
    } else {
        match pct_decode(raw[0]) {
            None => Err(HttpStatus::BadRequest),
            Some(d) => if forbidden_segment(d) {
                Err(HttpStatus::Forbidden)
            } else {
                match safe_segments(raw.drop_first()) {
                    Ok(rest) => Ok(seq![d] + rest),
                    Err(e) => Err(e),
                }
            },
        }
    }
}

/// The request path as plain segments relative to the served root.
pub open spec fn safe_path(raw_path: Seq<char>) -> Result<Seq<Seq<char>>, HttpStatus> {
    let path = before_char(raw_path, '?');
    if !starts_with(path, "/"@) {
        Err(HttpStatus::BadRequest)
    } else {
        safe_segments(split_char(path, '/'))
    }
}

/// `acc` followed by what `r` holds, or `r`'s error.
pub open spec fn after(acc: Seq<Seq<char>>, r: Result<Seq<Seq<char>>, HttpStatus>) -> Result<
    Seq<Seq<char>>,
    HttpStatus,
> {
    match r {
        Ok(rest) => Ok(acc + rest),
        Err(e) => Err(e),
    }
}

/// Decodes and checks one segment, appending it to `path` when it is plain.
pub fn push_safe_segment(path: &mut Vec<String>, raw_segment: &[char]) -> (r: Result<(), HttpStatus>)
    ensures
        raw_segment@.len() == 0 ==> r is Ok && final(path)@ == old(path)@,
        raw_segment@.len() > 0 ==> match pct_decode(raw_segment@) {
            None => r == Err::<(), HttpStatus>(HttpStatus::BadRequest),
            Some(d) => if forbidden_segment(d) {
                r == Err::<(), HttpStatus>(HttpStatus::Forbidden)
            } else {
                r is Ok && final(path).deep_view() == old(path).deep_view().push(d)
            },
        },
{
    if raw_segment.len() == 0 {
        return Ok(());
    }
    let segment = percent_decode(raw_segment)?;
    let seg_chars = str_chars(segment.as_str());
    if is_forbidden_path_segment(seg_chars.as_slice()) {
        return Err(HttpStatus::Forbidden);
    }
    let ghost old_view = path.deep_view();
    path.push(segment);
    assert(path.deep_view() =~= old_view.push(seg_chars@));
    Ok(())
}

/// The request path as plain segments: the query is dropped, the path must be
/// absolute, and every segment is decoded and refused if it could escape.
pub fn safe_relative_path(raw_path: &[char]) -> (r: Result<Vec<String>, HttpStatus>)
    ensures
        r matches Ok(p) ==> safe_path(raw_path@) == Ok::<Seq<Seq<char>>, HttpStatus>(
            p.deep_view(),
        ),
        r matches Err(e) ==> safe_path(raw_path@) == Err::<Seq<Seq<char>>, HttpStatus>(e),
{
    let path_without_query = chars_before(raw_path, '?');
    let slash = str_chars("/");
    if !chars_starts_with(path_without_query.as_slice(), slash.as_slice()) {
        return Err(HttpStatus::BadRequest);
    }
    let raw = split_on(path_without_query.as_slice(), '/');
    let ghost segs = raw.deep_view();
    let mut path: Vec<String> = Vec::new();
    let mut i: usize = 0;
    assert(segs.skip(0) =~= segs);
    assert(path.deep_view() =~= Seq::<Seq<char>>::empty());
    while i < raw.len()
        invariant
            i <= raw.len(),
            segs == raw.deep_view(),
            segs == split_char(path_without_query@, '/'),
            safe_path(raw_path@) == safe_segments(segs),
            safe_segments(segs) == after(path.deep_view(), safe_segments(segs.skip(i as int))),
        decreases raw.len() - i,
    {
        let ghost tail = segs.skip(i as int);
        let ghost before = path.deep_view();
        assert(tail[0] == raw@[i as int]@);
        assert(tail.drop_first() =~= segs.skip(i + 1));
        let pushed = push_safe_segment(&mut path, raw[i].as_slice());
        if let Err(e) = pushed {
            assert(safe_segments(tail) == Err::<Seq<Seq<char>>, HttpStatus>(e));
            return Err(e);
        }
        proof {
            if tail[0].len() > 0 {
                let d = pct_decode(tail[0]).unwrap();
                if let Ok(rest) = safe_segments(segs.skip(i + 1)) {
                    assert(before + (seq![d] + rest) =~= path.deep_view() + rest);
                }
            }
        }
        i = i + 1;
    }
    assert(segs.skip(i as int) =~= Seq::<Seq<char>>::empty());
    assert(path.deep_view() + Seq::<Seq<char>>::empty() =~= path.deep_view());
    Ok(path)
}

/// Every segment a successful decode yields is plain: never `.`, `..`, and
/// free of `/` and `\`.
pub proof fn lemma_safe_segments_plain(raw: Seq<Seq<char>>)
    ensures
        safe_segments(raw) matches Ok(p) ==> forall|i: int|
            0 <= i < p.len() ==> !forbidden_segment(#[trigger] p[i]),
    decreases raw.len(),
{
    if raw.len() > 0 {
        lemma_safe_segments_plain(raw.drop_first());
        if raw[0].len() > 0 {
            if let Some(d) = pct_decode(raw[0]) {
                if let Ok(rest) = safe_segments(raw.drop_first()) {
                    let p = seq![d] + rest;
                    if !forbidden_segment(d) {
                    assert(p[0] == d);
                    assert forall|i: int| 0 <= i < p.len() implies !forbidden_segment(
                        #[trigger] p[i],
                    ) by {
                        if i > 0 {
                            assert(p[i] == rest[i - 1]);
                        }
                    }
                    }
                }
            }
        }
    }
}

/// The path a static `GET` asks for; the root names `index.html`.
pub open spec fn request_path(b: Seq<u8>) -> Result<Seq<Seq<char>>, HttpStatus> {
    match header_text(b) {
        None => Err(HttpStatus::BadRequest),
        Some(h) => match first_line(h) {
            None => Err(HttpStatus::BadRequest),
            Some(line) => match line_target(line) {
                Err(e) => Err(e),
                Ok(t) => match safe_path(t) {
                    Err(e) => Err(e),
                    Ok(p) => Ok(
                        if p.len() == 0 {
                            seq!["index.html"@]
                        } else {
                            p
                        },
                    ),
                },
            },
        },
    }
}

/// Parses a static `GET` request into the path it asks for. The path is
/// never empty (the root is `index.html`) and no segment can climb out of
/// the served root.
pub fn parse_http_request(bytes: &[u8]) -> (r: Result<Vec<String>, HttpStatus>)
    ensures
        r matches Ok(p) ==> request_path(bytes@) == Ok::<Seq<Seq<char>>, HttpStatus>(
            p.deep_view(),
        ),
        r matches Err(e) ==> request_path(bytes@) == Err::<Seq<Seq<char>>, HttpStatus>(e),
        r matches Ok(p) ==> p@.len() > 0 && forall|i: int|
            0 <= i < p@.len() ==> !forbidden_segment(#[trigger] p@[i]@),
{
    let header = request_header(bytes)?;
    let target = request_line_target(header.as_slice())?;
    let mut path = safe_relative_path(target.as_slice())?;
    proof {
        lemma_safe_segments_plain(split_char(before_char(target@, '?'), '/'));
        assert forall|i: int| 0 <= i < path@.len() implies !forbidden_segment(
            #[trigger] path@[i]@,
        ) by {
            assert(path.deep_view()[i] == path@[i]@);
        }
    }
    if path.len() == 0 {
        let index = string_from_chars(str_chars("index.html").as_slice());
        path.push(index);
        proof {
            assert(path.deep_view() =~= seq!["index.html"@]);
            assert(!forbidden_segment("index.html"@)) by {
                reveal_strlit("index.html");
                reveal_strlit(".");
                reveal_strlit("..");
                assert("index.html"@[5] == '.');
            }
        }
    }
    Ok(path)
}

/// The target of a request line with any method.
pub open spec fn any_method_target(line: Seq<char>) -> Result<Seq<char>, HttpStatus> {
    match exactly_three(ws_tokens(line)) {
        None => Err(HttpStatus::BadRequest),
        Some(p) => if !starts_with(p.2, "HTTP/1."@) {
            Err(HttpStatus::BadRequest)
        } else {
            Ok(p.1)
        },
    }
}

/// The gateway's view of the request path: any method, and the root stays empty.
pub open spec fn gateway_path(b: Seq<u8>) -> Result<Seq<Seq<char>>, HttpStatus> {
    match header_text(b) {
        None => Err(HttpStatus::BadRequest),
        Some(h) => match first_line(h) {
            None => Err(HttpStatus::BadRequest),
            Some(line) => match any_method_target(line) {
                Err(e) => Err(e),
                Ok(t) => safe_path(t),
            },
        },
    }
}

/// The request path for a gateway origin: any method (the gateway maps verbs
/// itself), and `/` stays the empty path.
pub fn gateway_request_path(bytes: &[u8]) -> (r: Result<Vec<String>, HttpStatus>)
    ensures
        r matches Ok(p) ==> gateway_path(bytes@) == Ok::<Seq<Seq<char>>, HttpStatus>(
            p.deep_view(),
        ),
        r matches Err(e) ==> gateway_path(bytes@) == Err::<Seq<Seq<char>>, HttpStatus>(e),
{
    let header = request_header(bytes)?;
    let request_line = first_header_line(header.as_slice())?;
    let (_method, raw_path, version) = request_line_parts(request_line.as_slice())?;
    validate_http_version(version.as_slice())?;
    safe_relative_path(raw_path.as_slice())
}

/// The second part of the request line, when the header block is complete
/// and the line has one.
pub open spec fn target_of(b: Seq<u8>) -> Option<Seq<char>> {
    match request_line_tokens(b) {
        Some(t) => if t.len() >= 2 {
            Some(t[1])
        } else {
            None
        },
        None => None,
    }
}

/// The raw request target (path and query) of a request, without parsing it.
pub fn request_target(header_bytes: &[u8]) -> (r: Option<String>)
    ensures
        r matches Some(t) ==> target_of(header_bytes@) == Some(t@),
        r is None ==> target_of(header_bytes@) is None,
{
    let header = match request_header_str(header_bytes) {
        Some(h) => h,
        None => return None,
    };
    let request_line = match first_header_line(header.as_slice()) {
        Ok(line) => line,
        Err(_) => return None,
    };
    let parts = split_whitespace(request_line.as_slice());
    assert(parts.deep_view().len() == parts@.len());
    if parts.len() < 2 {
        return None;
    }
    assert(parts.deep_view()[1] == parts@[1]@);
    Some(string_from_chars(parts[1].as_slice()))
}

/// The request target seen when peeking at a connection's first bytes.
pub fn peek_request_target(header_bytes: &[u8]) -> (r: Option<String>)
    ensures
        r matches Some(t) ==> target_of(header_bytes@) == Some(t@),
        r is None ==> target_of(header_bytes@) is None,
{
    request_target(header_bytes)
}

/// How a websocket upgrade to `raw_path` is refused, if it is: the `export9p`
/// door is accepted, the `ethernet` bridge is not implemented, and any other
/// reserved `/.well-known/` path is not found.
pub open spec fn websocket_rejection(raw_path: Option<Seq<char>>) -> Option<(HttpStatus, Seq<char>)> {
    match raw_path {
        None => None,
        Some(raw) => {
            let path = before_char(raw, '?');
            if path == "/.well-known/export9p"@ {
                None
            } else if path == "/.well-known/ethernet"@ {
                Some(
                    (
                        HttpStatus::NotImplemented,
                        "ethernet websocket bridge is not implemented in rust serve"@,
                    ),
                )
            } else if starts_with(path, "/.well-known/"@) {
                Some((HttpStatus::NotFound, "not found"@))
            } else {
                None
            }
        },
    }
}

/// The plain-text response that refuses a websocket upgrade, if any.
pub fn websocket_rejection_response(raw_path: Option<&str>) -> (r: Option<StaticResponse>)
    ensures
        match websocket_rejection(
            match raw_path {
                Some(p) => Some(p@),
                None => None,
            },
        ) {
            None => r is None,
            Some(x) => r matches Some(resp) && resp.status == x.0 && resp.body@ == encode_utf8(x.1)
                && resp.content_type@ == "text/plain; charset=utf-8"@ && resp.headers@.len() == 0,
        },
{
    let raw_path = match raw_path {
        Some(p) => str_chars(p),
        None => return None,
    };
    let path = chars_before(raw_path.as_slice(), '?');
    if chars_eq(path.as_slice(), str_chars("/.well-known/export9p").as_slice()) {
        return None;
    }
    if chars_eq(path.as_slice(), str_chars("/.well-known/ethernet").as_slice()) {
        return Some(
            StaticResponse::plain(
                HttpStatus::NotImplemented,
                "ethernet websocket bridge is not implemented in rust serve",
            ),
        );
    }
    if chars_starts_with(path.as_slice(), str_chars("/.well-known/").as_slice()) {
        return Some(StaticResponse::plain(HttpStatus::NotFound, "not found"));
    }
    None
}

} // verus!
