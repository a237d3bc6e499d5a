//! The gateway's decisions for a bound origin: which verb does what, how a
//! filesystem failure is answered, the JSON listing of a directory, the
//! content type of a served file, the index of bound names and the refusal
//! of an unknown one. Resolving names and touching the origin's files are
//! the caller's.

use vstd::prelude::*;
use vstd::utf8::encode_utf8;
use crate::text::{str_chars, string_from_chars, push_str, decimal, push_decimal, chars_to_utf8};
use crate::seqs::{chars_eq, trim, trim_chars, chars_starts_with, starts_with, before_char, chars_before, char_ascii_lower, sub_chars};
use crate::terminal::protocol::{json_str, json_string};
use super::response::{HttpStatus, StaticResponse, without_crlf};
use super::routes::{content_type_of, content_type_for_extension, last_index_of, path_to_url_relative, slash_joined};
use super::request::{gateway_path, gateway_request_path};
use super::headers::{method_of, request_method, ascii_lowercase};

verus! {

/// How a filesystem operation on an origin failed.
#[derive(Debug, Clone, PartialEq, Eq)]
pub enum FsFailure {
    NotFound,
    PermissionDenied,
    NotSupported,
    /// The provider is offline; what is known of why.
    Unreachable(String),
    InvalidPath,
    /// The origin refused the content; the error's text.
    InvalidArgument(String),
    IsDirectory,
    NotDirectory,
    AlreadyExists,
    Other,
}

/// The status and text a failure is answered with.
pub open spec fn failure_answer(error: FsFailure) -> (HttpStatus, Seq<char>) {
    match error {
        FsFailure::NotFound => (HttpStatus::NotFound, "not found"@),
        FsFailure::PermissionDenied => (HttpStatus::Forbidden, "forbidden"@),
        FsFailure::NotSupported => (HttpStatus::MethodNotAllowed, "the file does not support this operation"@),
        FsFailure::Unreachable(detail) => (HttpStatus::ServiceUnavailable, "resource unreachable: "@ + detail@),
        FsFailure::InvalidPath => (HttpStatus::Forbidden, "forbidden"@),
        FsFailure::InvalidArgument(text) => (HttpStatus::BadRequest, text@),
        FsFailure::IsDirectory | FsFailure::NotDirectory | FsFailure::AlreadyExists => (
            HttpStatus::Conflict,
            "conflict"@,
        ),
        FsFailure::Other => (HttpStatus::InternalServerError, "internal server error"@),
    }
}

/// The answer to a failed operation (see `failure_answer`): an unreachable
/// provider is an outage, a `503` with a `Retry-After` hint, never a miss;
/// an origin's refusal of content is a `400` carrying its own message.
pub fn gateway_error_response(error: &FsFailure) -> (r: StaticResponse)
    ensures
        r.status == failure_answer(*error).0,
        r.body@ == encode_utf8(failure_answer(*error).1),
        r.content_type@ == "text/plain; charset=utf-8"@,
        error is Unreachable ==> r.headers@.len() == 1 && r.headers@[0].0@ == "Retry-After"@
            && r.headers@[0].1@ == "5"@,
        !(error is Unreachable) ==> r.headers@.len() == 0,
{
    match error {
        FsFailure::NotFound => StaticResponse::plain(HttpStatus::NotFound, "not found"),
        FsFailure::PermissionDenied => StaticResponse::plain(HttpStatus::Forbidden, "forbidden"),
        FsFailure::NotSupported => StaticResponse::plain(
            HttpStatus::MethodNotAllowed,
            "the file does not support this operation",
        ),
        FsFailure::Unreachable(detail) => {
            let mut text: Vec<char> = Vec::new();
            push_str(&mut text, "resource unreachable: ");
            push_str(&mut text, detail.as_str());
            let text = string_from_chars(text.as_slice());
            let r = StaticResponse::plain(HttpStatus::ServiceUnavailable, text.as_str()).with_header(
                "Retry-After",
                "5".to_owned(),
            );
            proof {
                reveal_strlit("5");
                assert("5"@ =~= seq!['5']);
                assert(seq!['5'].drop_last() =~= Seq::<char>::empty());
                assert(without_crlf(Seq::<char>::empty()) == Seq::<char>::empty());
                assert(without_crlf(seq!['5']) =~= seq!['5']);
                assert(r.headers@.len() == 1);
            }
            r
        },
        FsFailure::InvalidPath => StaticResponse::plain(HttpStatus::Forbidden, "forbidden"),
        FsFailure::InvalidArgument(text) => StaticResponse::plain(HttpStatus::BadRequest, text.as_str()),
        FsFailure::IsDirectory | FsFailure::NotDirectory | FsFailure::AlreadyExists => {
            StaticResponse::plain(HttpStatus::Conflict, "conflict")
        },
        FsFailure::Other => StaticResponse::plain(
            HttpStatus::InternalServerError,
            "internal server error",
        ),
    }
}

/// One entry of a directory: its name, whether it is a directory, and its
/// length.
#[derive(Debug, Clone, PartialEq, Eq)]
pub struct DirEntryInfo {
    pub name: String,
    pub is_dir: bool,
    pub size: u64,
}

pub open spec fn entry_json(e: DirEntryInfo) -> Seq<char> {
    "{\"name\":"@ + json_str(e.name@) + ",\"type\":\""@ + (if e.is_dir {
        "dir"@
    } else {
        "file"@
    }) + "\",\"size\":"@ + decimal(e.size as nat) + "}"@
}

pub open spec fn entries_json(entries: Seq<DirEntryInfo>) -> Seq<char>
    decreases entries.len(),
{
    if entries.len() == 0 {
        Seq::empty()
    } else if entries.len() == 1 {
        entry_json(entries[0])
    } else {
        entries_json(entries.drop_last()) + ","@ + entry_json(entries.last())
    }
}

/// A directory without an `index.html`: a JSON array with each entry's
/// name, type (`dir` or `file`) and size, in the order given.
pub fn directory_listing_response(entries: &[DirEntryInfo]) -> (r: StaticResponse)
    ensures
        r.status == HttpStatus::Success,
        r.content_type@ == "application/json"@,
        r.headers@.len() == 0,
        r.body@ == encode_utf8("["@ + entries_json(entries@) + "]"@),
{
    let mut out: Vec<char> = Vec::new();
    push_str(&mut out, "[");
    let ghost start = out@;
    let mut i: usize = 0;
    assert(entries@.take(0) =~= Seq::<DirEntryInfo>::empty());
    while i < entries.len()
        invariant
            i <= entries.len(),
            out@ == start + entries_json(entries@.take(i as int)),
        decreases entries.len() - i,
    {
        if i > 0 {
            push_str(&mut out, ",");
        }
        let e = &entries[i];
        push_str(&mut out, "{\"name\":");
        let name = json_string(e.name.as_str());
        push_str(&mut out, name.as_str());
        push_str(&mut out, ",\"type\":\"");
        if e.is_dir {
            push_str(&mut out, "dir");
        } else {
            push_str(&mut out, "file");
        }
        push_str(&mut out, "\",\"size\":");
        push_decimal(&mut out, e.size);
        push_str(&mut out, "}");
        proof {
            let t = entries@.take(i + 1);
            assert(t.drop_last() =~= entries@.take(i as int));
            assert(t.last() == entries@[i as int]);
            assert(out@ =~= start + entries_json(t));
        }
        i = i + 1;
    }
    assert(entries@.take(i as int) =~= entries@);
    push_str(&mut out, "]");
    StaticResponse {
        status: HttpStatus::Success,
        content_type: "application/json",
        headers: Vec::new(),
        body: chars_to_utf8(out.as_slice()),
    }
}

/// The extension a gateway file is typed by: what follows the last `.` of
/// its last path segment, lowercased, unless it is empty or there is no
/// `.`.
pub open spec fn gateway_extension(url_relative: Seq<char>) -> Option<Seq<char>> {
    let name = url_relative.skip(last_index_of(url_relative, '/') + 1);
    let k = last_index_of(name, '.');
    if k < 0 || k + 1 == name.len() {
        None
    } else {
        Some(ascii_lowercase(name.skip(k + 1)))
    }
}

proof fn lemma_last_index_in_range(s: Seq<char>, c: char)
    ensures
        -1 <= last_index_of(s, c) < s.len(),
        last_index_of(s, c) >= 0 ==> s[last_index_of(s, c)] == c,
    decreases s.len(),
{
    if s.len() > 0 && s.last() != c {
        lemma_last_index_in_range(s.drop_last(), c);
    }
}

fn last_index(s: &[char], c: char) -> (r: Option<usize>)
    ensures
        match r {
            Some(k) => last_index_of(s@, c) == k as int && k < s.len(),
            None => last_index_of(s@, c) == -1,
        },
{
    let mut i = s.len();
    assert(s@.take(i as int) =~= s@);
    while i > 0
        invariant
            i <= s.len(),
            last_index_of(s@, c) == last_index_of(s@.take(i as int), c),
        decreases i,
    {
        assert(s@.take(i as int).drop_last() =~= s@.take(i - 1));
        if s[i - 1] == c {
            return Some(i - 1);
        }
        i = i - 1;
    }
    None
}

/// The content type of a gateway file (see `gateway_extension`).
pub fn gateway_content_type(url_relative: &str) -> (r: &'static str)
    ensures
        r@ == content_type_of(gateway_extension(url_relative@)),
{
    let chars = str_chars(url_relative);
    proof {
        lemma_last_index_in_range(chars@, '/');
    }
    let start = match last_index(chars.as_slice(), '/') {
        Some(k) => k + 1,
        None => 0,
    };
    let name = sub_chars(chars.as_slice(), start, chars.len());
    assert(name@ =~= url_relative@.skip(last_index_of(url_relative@, '/') + 1));
    proof {
        lemma_last_index_in_range(name@, '.');
    }
    match last_index(name.as_slice(), '.') {
        Some(k) => {
            if k + 1 == name.len() {
                return content_type_for_extension(None);
            }
            let ext = sub_chars(name.as_slice(), k + 1, name.len());
            let mut lower: Vec<char> = Vec::new();
            let mut i: usize = 0;
            while i < ext.len()
                invariant
                    i <= ext.len(),
                    lower@ == ascii_lowercase(ext@.take(i as int)),
                decreases ext.len() - i,
            {
                lower.push(char_ascii_lower(ext[i]));
                i = i + 1;
                assert(lower@ =~= ascii_lowercase(ext@.take(i as int)));
            }
            assert(ext@.take(i as int) =~= ext@);
            let lower = string_from_chars(lower.as_slice());
            content_type_for_extension(Some(lower.as_str()))
        },
        None => content_type_for_extension(None),
    }
}

/// The page listing the bound names, each linked at its own origin on
/// `port`.
pub open spec fn index_items(names: Seq<Seq<char>>, port: u16) -> Seq<char>
    decreases names.len(),
{
    if names.len() == 0 {
        Seq::empty()
    } else {
        index_items(names.drop_last(), port) + "<li><a href=\"http://"@ + names.last() + ":"@
            + decimal(port as nat) + "/\">"@ + names.last() + "</a></li>"@
    }
}

pub open spec fn index_page(names: Seq<Seq<char>>, port: u16) -> Seq<char> {
    "<!doctype html><title>wanix gateway</title><h1>bound names</h1><ul>"@ + index_items(names, port)
        + "</ul>"@
}

/// What the bare host answers: `GET /` is the index of bound names; any
/// other request keeps the server's usual behaviour (`None`).
pub fn bare_host_index(request: &[u8], names: &[String], port: u16) -> (r: Option<StaticResponse>)
    ensures
        (method_of(request@) == Some("GET"@) && gateway_path(request@) == Ok::<
            Seq<Seq<char>>,
            HttpStatus,
        >(Seq::empty())) ==> (r matches Some(resp) && resp.status == HttpStatus::Success
            && resp.content_type@ == "text/html; charset=utf-8"@ && resp.headers@.len() == 0
            && resp.body@ == encode_utf8(index_page(names.deep_view(), port))),
        !(method_of(request@) == Some("GET"@) && gateway_path(request@) == Ok::<
            Seq<Seq<char>>,
            HttpStatus,
        >(Seq::empty())) ==> r is None,
{
    let is_get = match request_method(request) {
        Some(m) => chars_eq(str_chars(m.as_str()).as_slice(), str_chars("GET").as_slice()),
        None => false,
    };
    if !is_get {
        return None;
    }
    match gateway_request_path(request) {
        Ok(path) => {
            if path.len() != 0 {
                assert(path.deep_view().len() != 0);
                return None;
            }
            assert(path.deep_view() =~= Seq::<Seq<char>>::empty());
        },
        Err(_) => return None,
    }
    let ghost nv = names.deep_view();
    let mut out: Vec<char> = Vec::new();
    push_str(&mut out, "<!doctype html><title>wanix gateway</title><h1>bound names</h1><ul>");
    let ghost start = out@;
    let mut i: usize = 0;
    assert(nv.take(0) =~= Seq::<Seq<char>>::empty());
    while i < names.len()
        invariant
            i <= names.len(),
            nv == names.deep_view(),
            out@ == start + index_items(nv.take(i as int), port),
        decreases names.len() - i,
    {
        push_str(&mut out, "<li><a href=\"http://");
        push_str(&mut out, names[i].as_str());
        push_str(&mut out, ":");
        push_decimal(&mut out, port as u64);
        push_str(&mut out, "/\">");
        push_str(&mut out, names[i].as_str());
        push_str(&mut out, "</a></li>");
        proof {
            let t = nv.take(i + 1);
            assert(t.drop_last() =~= nv.take(i as int));
            assert(t.last() == names@[i as int]@);
            assert(out@ =~= start + index_items(t, port));
        }
        i = i + 1;
    }
    assert(nv.take(i as int) =~= nv);
    push_str(&mut out, "</ul>");
    Some(StaticResponse {
        status: HttpStatus::Success,
        content_type: "text/html; charset=utf-8",
        headers: Vec::new(),
        body: chars_to_utf8(out.as_slice()),
    })
}

/// A name the gateway does not bind: a `404` pointing at the index on
/// `port`, unless the static sites bind it with the services on, which
/// keeps the usual behaviour (`None`).
pub fn unknown_host_response(wanix_services: bool, site_bound: bool, port: u16) -> (r: Option<
    StaticResponse,
>)
    ensures
        wanix_services && site_bound ==> r is None,
        !(wanix_services && site_bound) ==> (r matches Some(resp) && resp.status
            == HttpStatus::NotFound && resp.headers@.len() == 0 && resp.body@ == encode_utf8(
            "unknown gateway name; the bound names are listed at http://localhost:"@ + decimal(
                port as nat,
            ) + "/"@,
        )),
{
    if wanix_services && site_bound {
        return None;
    }
    let mut text: Vec<char> = Vec::new();
    push_str(&mut text, "unknown gateway name; the bound names are listed at http://localhost:");
    push_decimal(&mut text, port as u64);
    push_str(&mut text, "/");
    let text = string_from_chars(text.as_slice());
    Some(StaticResponse::plain(HttpStatus::NotFound, text.as_str()))
}

/// What a request to a bound origin asks of it.
#[derive(Debug)]
pub enum OriginAction {
    /// Answer at once.
    Respond(StaticResponse),
    /// Read the file or directory at this `/`-joined path.
    Get(String),
    /// Write the body to the file at this path; `PUT` truncates it first.
    Write { url_relative: String, truncate: bool },
}

/// What a request to a bound origin asks: a bad path is answered with its
/// status; `GET` reads, `POST` and `PUT` write (`PUT` truncating); other
/// methods are refused. A write is checked against the request's origin by
/// the caller (see `origin_host`).
pub fn origin_action(request: &[u8]) -> (r: OriginAction)
    ensures
        match gateway_path(request@) {
            Err(status) => r matches OriginAction::Respond(resp) && resp.status == status
                && resp.body@ == encode_utf8(status.reason_text()),
            Ok(path) => if method_of(request@) == Some("GET"@) {
                r matches OriginAction::Get(u) && u@ == slash_joined(path)
            } else if method_of(request@) == Some("POST"@) || method_of(request@) == Some("PUT"@) {
                r matches OriginAction::Write { url_relative: u, truncate: t } && u@ == slash_joined(
                    path,
                ) && t == (method_of(request@) == Some("PUT"@))
            } else {
                r matches OriginAction::Respond(resp) && resp.status == HttpStatus::MethodNotAllowed
                    && resp.body@ == encode_utf8("gateway origins accept GET, POST, and PUT"@)
            },
        },
{
    let path = match gateway_request_path(request) {
        Ok(path) => path,
        Err(status) => return OriginAction::Respond(StaticResponse::plain(status, status.reason())),
    };
    assert(gateway_path(request@) == Ok::<Seq<Seq<char>>, HttpStatus>(path.deep_view()));
    let url_relative = path_to_url_relative(path.as_slice());
    assert(url_relative@ == slash_joined(path.deep_view()));
    let ghost mv = method_of(request@);
    let method = match request_method(request) {
        Some(m) => str_chars(m.as_str()),
        None => Vec::new(),
    };
    assert(mv is Some ==> mv == Some(method@));
    assert(mv is None ==> method@.len() == 0);
    proof {
        reveal_strlit("GET");
        reveal_strlit("POST");
        reveal_strlit("PUT");
        assert("POST"@.len() == 4 && "PUT"@.len() == 3 && "GET"@.len() == 3);
        assert("GET"@[0] != "PUT"@[0]);
        assert("POST"@ != "PUT"@ && "GET"@ != "PUT"@ && "GET"@ != "POST"@);
    }
    if chars_eq(method.as_slice(), str_chars("GET").as_slice()) {
        OriginAction::Get(url_relative)
    } else if chars_eq(method.as_slice(), str_chars("POST").as_slice()) {
        OriginAction::Write { url_relative, truncate: false }
    } else if chars_eq(method.as_slice(), str_chars("PUT").as_slice()) {
        OriginAction::Write { url_relative, truncate: true }
    } else {
        OriginAction::Respond(
            StaticResponse::plain(
                HttpStatus::MethodNotAllowed,
                "gateway origins accept GET, POST, and PUT",
            ),
        )
    }
}

/// The refusal of a write sent by a page of another origin.
pub fn cross_site_write_response() -> (r: StaticResponse)
    ensures
        r.status == HttpStatus::Forbidden,
        r.headers@.len() == 0,
        r.body@ == encode_utf8(
            "cross-site write refused: gateway origins accept writes only from their own pages (or Origin-less native tools)"@,
        ),
{
    StaticResponse::plain(
        HttpStatus::Forbidden,
        "cross-site write refused: gateway origins accept writes only from their own pages (or Origin-less native tools)",
    )
}

/// What a write's `Origin` header says of where it came from.
#[derive(Debug, Clone, PartialEq, Eq)]
pub enum OriginHost {
    /// No `Origin`: a native tool, not a browser page.
    Absent,
    /// An opaque or non-HTTP origin, never one of the gateway's pages.
    Opaque,
    /// The host part of an `http://` or `https://` origin.
    Named(String),
}

pub open spec fn origin_host_of(origin: Option<Seq<char>>) -> OriginHostModel {
    match origin {
        None => OriginHostModel::Absent,
        Some(o) => {
            let t = trim(o);
            if starts_with(t, "http://"@) {
                OriginHostModel::Named(before_char(t.skip(7), '/'))
            } else if starts_with(t, "https://"@) {
                OriginHostModel::Named(before_char(t.skip(8), '/'))
            } else {
                OriginHostModel::Opaque
            }
        },
    }
}

pub enum OriginHostModel {
    Absent,
    Opaque,
    Named(Seq<char>),
}

pub open spec fn origin_host_model(h: OriginHost) -> OriginHostModel {
    match h {
        OriginHost::Absent => OriginHostModel::Absent,
        OriginHost::Opaque => OriginHostModel::Opaque,
        OriginHost::Named(n) => OriginHostModel::Named(n@),
    }
}

/// Where a write came from, by its `Origin` header value (trimmed): the
/// host part up to the first `/` of an HTTP(S) origin. A write whose named
/// host is not the bound name is refused (`cross_site_write_response`); so
/// is one from an opaque origin.
pub fn origin_host(origin: Option<&str>) -> (r: OriginHost)
    ensures
        origin_host_model(r) == origin_host_of(
            match origin {
                Some(o) => Some(o@),
                None => None,
            },
        ),
{
    let o = match origin {
        Some(o) => o,
        None => return OriginHost::Absent,
    };
    let t = trim_chars(str_chars(o).as_slice());
    proof {
        reveal_strlit("http://");
        reveal_strlit("https://");
    }
    if chars_starts_with(t.as_slice(), str_chars("http://").as_slice()) {
        let rest = sub_chars(t.as_slice(), 7, t.len());
        assert(rest@ =~= t@.skip(7));
        OriginHost::Named(string_from_chars(chars_before(rest.as_slice(), '/').as_slice()))
    } else if chars_starts_with(t.as_slice(), str_chars("https://").as_slice()) {
        let rest = sub_chars(t.as_slice(), 8, t.len());
        assert(rest@ =~= t@.skip(8));
        OriginHost::Named(string_from_chars(chars_before(rest.as_slice(), '/').as_slice()))
    } else {
        OriginHost::Opaque
    }
}

} // verus!
