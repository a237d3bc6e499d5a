//! Which handler a request path belongs to: the reserved `/.well-known/`
//! endpoints, the bundle page, app routes and workbench assets; and the
//! content type a file extension is served with.

use vstd::prelude::*;
use vstd::utf8::encode_utf8;
use crate::text::{str_chars, string_from_chars, push_str};
use crate::seqs::{split_char, split_on, index_of, find_char, sub_chars, eq_ignore_ascii_case, chars_eq_ignore_ascii_case, chars_eq, ascii_lower};
use super::response::{HttpStatus, StaticResponse};
use super::request::{target_of, request_target};
use crate::serve::html::{BundleTemplates, bundle_page, bundle_html};

verus! {

/// The reserved endpoints under `/.well-known/`.
#[derive(Debug, Clone, Copy, PartialEq, Eq, Structural)]
pub enum WellKnownEndpoint {
    WanixDiscovery,
    RootfsHandoff,
    Export9pWebSocket,
    QjsShellWebSocket,
    EthernetWebSocket,
    NotFound,
}

pub open spec fn manifest_of(name: Seq<char>) -> Option<WellKnownEndpoint> {
    if name == "wanix.json"@ {
        Some(WellKnownEndpoint::WanixDiscovery)
    } else if name == "rootfs.json"@ {
        Some(WellKnownEndpoint::RootfsHandoff)
    } else {
        None
    }
}

pub open spec fn websocket_of(name: Seq<char>, wanix_services: bool) -> Option<WellKnownEndpoint> {
    if name == "export9p"@ {
        Some(WellKnownEndpoint::Export9pWebSocket)
    } else if name == "qjs-shell"@ && wanix_services {
        Some(WellKnownEndpoint::QjsShellWebSocket)
    } else if name == "ethernet"@ {
        Some(WellKnownEndpoint::EthernetWebSocket)
    } else {
        None
    }
}

/// A manifest first, then a websocket endpoint, else not found.
pub open spec fn named_endpoint(name: Seq<char>, wanix_services: bool) -> WellKnownEndpoint {
    match manifest_of(name) {
        Some(e) => e,
        None => match websocket_of(name, wanix_services) {
            Some(e) => e,
            None => WellKnownEndpoint::NotFound,
        },
    }
}

/// The endpoint a path under `.well-known` names: exactly one segment below
/// it, else not found; paths elsewhere are not reserved.
pub open spec fn well_known_of(path: Seq<Seq<char>>, wanix_services: bool) -> Option<WellKnownEndpoint> {
    if path.len() == 0 || path[0] != ".well-known"@ {
        None
    } else if path.len() != 2 {
        Some(WellKnownEndpoint::NotFound)
    } else {
        Some(named_endpoint(path[1], wanix_services))
    }
}

fn text_eq(a: &str, b: &str) -> (r: bool)
    ensures
        r == (a@ == b@),
{
    let x = str_chars(a);
    let y = str_chars(b);
    chars_eq(x.as_slice(), y.as_slice())
}

/// `wanix.json` and `rootfs.json` name the discovery and handoff documents.
pub fn manifest_endpoint(endpoint: &str) -> (r: Option<WellKnownEndpoint>)
    ensures
        r == manifest_of(endpoint@),
{
    if text_eq(endpoint, "wanix.json") {
        return Some(WellKnownEndpoint::WanixDiscovery);
    }
    if text_eq(endpoint, "rootfs.json") {
        return Some(WellKnownEndpoint::RootfsHandoff);
    }
    None
}

/// The websocket endpoints; the shell is there only with the Wanix services.
pub fn websocket_endpoint(endpoint: &str, wanix_services: bool) -> (r: Option<WellKnownEndpoint>)
    ensures
        r == websocket_of(endpoint@, wanix_services),
{
    if text_eq(endpoint, "export9p") {
        return Some(WellKnownEndpoint::Export9pWebSocket);
    }
    if text_eq(endpoint, "qjs-shell") && wanix_services {
        return Some(WellKnownEndpoint::QjsShellWebSocket);
    }
    if text_eq(endpoint, "ethernet") {
        return Some(WellKnownEndpoint::EthernetWebSocket);
    }
    None
}

/// The endpoint one name below `.well-known` stands for.
pub fn named_well_known_endpoint(endpoint: &str, wanix_services: bool) -> (r: WellKnownEndpoint)
    ensures
        r == named_endpoint(endpoint@, wanix_services),
{
    match manifest_endpoint(endpoint) {
        Some(e) => e,
        None => match websocket_endpoint(endpoint, wanix_services) {
            Some(e) => e,
            None => WellKnownEndpoint::NotFound,
        },
    }
}

/// The reserved endpoint a request path names, if it is under `.well-known`.
pub fn well_known_endpoint(relative_path: &[String], wanix_services: bool) -> (r: Option<
    WellKnownEndpoint,
>)
    ensures
        r == well_known_of(relative_path.deep_view(), wanix_services),
{
    let ghost pv = relative_path.deep_view();
    if relative_path.len() == 0 || !text_eq(relative_path[0].as_str(), ".well-known") {
        assert(relative_path.len() > 0 ==> pv[0] == relative_path@[0]@);
        return None;
    }
    assert(pv[0] == relative_path@[0]@);
    if relative_path.len() != 2 {
        return Some(WellKnownEndpoint::NotFound);
    }
    assert(pv[1] == relative_path@[1]@);
    Some(named_well_known_endpoint(relative_path[1].as_str(), wanix_services))
}

/// The `400` that a websocket path answers a plain GET with.
pub fn websocket_upgrade_required_response() -> (r: StaticResponse)
    ensures
        r.status == HttpStatus::BadRequest,
        r.body@ == encode_utf8("websocket upgrade required"@),
        r.content_type@ == "text/plain; charset=utf-8"@,
        r.headers@.len() == 0,
{
    StaticResponse::plain(HttpStatus::BadRequest, "websocket upgrade required")
}

/// The `501` for the reserved ethernet bridge path.
pub fn ethernet_not_implemented_response() -> (r: StaticResponse)
    ensures
        r.status == HttpStatus::NotImplemented,
        r.body@ == encode_utf8("ethernet websocket bridge is not implemented in rust serve"@),
        r.content_type@ == "text/plain; charset=utf-8"@,
        r.headers@.len() == 0,
{
    StaticResponse::plain(
        HttpStatus::NotImplemented,
        "ethernet websocket bridge is not implemented in rust serve",
    )
}

/// The plain `404`.
pub fn not_found_response() -> (r: StaticResponse)
    ensures
        r.status == HttpStatus::NotFound,
        r.body@ == encode_utf8("not found"@),
        r.content_type@ == "text/plain; charset=utf-8"@,
        r.headers@.len() == 0,
{
    StaticResponse::plain(HttpStatus::NotFound, "not found")
}

/// What a reserved endpoint answers without a handler of its own: websocket
/// paths want an upgrade, the ethernet bridge is not implemented, the rest
/// are not found.
pub fn static_well_known_response(endpoint: WellKnownEndpoint) -> (r: StaticResponse)
    ensures
        r.status == match endpoint {
            WellKnownEndpoint::Export9pWebSocket | WellKnownEndpoint::QjsShellWebSocket => HttpStatus::BadRequest,
            WellKnownEndpoint::EthernetWebSocket => HttpStatus::NotImplemented,
            _ => HttpStatus::NotFound,
        },
        r.body@ == encode_utf8(
            match endpoint {
                WellKnownEndpoint::Export9pWebSocket | WellKnownEndpoint::QjsShellWebSocket => "websocket upgrade required"@,
                WellKnownEndpoint::EthernetWebSocket => "ethernet websocket bridge is not implemented in rust serve"@,
                _ => "not found"@,
            },
        ),
        r.content_type@ == "text/plain; charset=utf-8"@,
        r.headers@.len() == 0,
{
    match endpoint {
        WellKnownEndpoint::Export9pWebSocket | WellKnownEndpoint::QjsShellWebSocket => {
            websocket_upgrade_required_response()
        },
        WellKnownEndpoint::EthernetWebSocket => ethernet_not_implemented_response(),
        _ => not_found_response(),
    }
}

// ---------------------------------------------------------------------------
// Bundle pages
// ---------------------------------------------------------------------------

/// Only `index.html` can carry a bundle page.
pub fn require_bundle_index_path(relative_path: &[String]) -> (r: Option<()>)
    ensures
        r is Some <==> relative_path.deep_view() == seq!["index.html"@],
{
    if relative_path.len() == 1 && text_eq(relative_path[0].as_str(), "index.html") {
        assert(relative_path.deep_view() =~= seq!["index.html"@]);
        Some(())
    } else {
        proof {
            if relative_path.deep_view() == seq!["index.html"@] {
                assert(relative_path.deep_view().len() == 1);
                assert(relative_path.deep_view()[0] == relative_path@[0]@);
                assert(relative_path.deep_view()[0] == "index.html"@);
            }
        }
        None
    }
}

/// The key of a `key=value` pair (the whole pair when it has no `=`).
pub open spec fn pair_key(pair: Seq<char>) -> Seq<char> {
    pair.take(index_of(pair, '='))
}

/// The value of a `key=value` pair (empty when it has no `=`).
pub open spec fn pair_value(pair: Seq<char>) -> Seq<char> {
    if index_of(pair, '=') < pair.len() {
        pair.skip(index_of(pair, '=') + 1)
    } else {
        Seq::empty()
    }
}

/// The value of the first pair named `name`.
pub open spec fn param_in(pairs: Seq<Seq<char>>, name: Seq<char>) -> Option<Seq<char>>
    decreases pairs.len(),
{
    if pairs.len() == 0 {
        None
    } else if pair_key(pairs[0]) == name {
        Some(pair_value(pairs[0]))
    } else {
        param_in(pairs.drop_first(), name)
    }
}

/// The value of `name` in an `&`-separated query.
pub open spec fn query_param_of(query: Seq<char>, name: Seq<char>) -> Option<Seq<char>> {
    param_in(split_char(query, '&'), name)
}

/// The value of the first `name=value` pair of a query (`name` alone gives
/// an empty value).
pub fn query_param(query: &str, name: &str) -> (r: Option<String>)
    ensures
        r matches Some(v) ==> query_param_of(query@, name@) == Some(v@),
        r is None ==> query_param_of(query@, name@) is None,
{
    let q = str_chars(query);
    let n = str_chars(name);
    let pairs = split_on(q.as_slice(), '&');
    let ghost pv = pairs.deep_view();
    let mut i: usize = 0;
    assert(pv.skip(0) =~= pv);
    while i < pairs.len()
        invariant
            i <= pairs.len(),
            pv == pairs.deep_view(),
            pv == split_char(query@, '&'),
            n@ == name@,
            query_param_of(query@, name@) == param_in(pv.skip(i as int), name@),
        decreases pairs.len() - i,
    {
        let pair = pairs[i].as_slice();
        assert(pv.skip(i as int)[0] == pair@);
        assert(pv.skip(i as int).drop_first() =~= pv.skip(i + 1));
        proof {
            crate::seqs::lemma_index_of_bounds(pair@, '=');
        }
        let k = find_char(pair, '=');
        let key = sub_chars(pair, 0, k);
        if chars_eq(key.as_slice(), n.as_slice()) {
            let value = if k < pair.len() {
                sub_chars(pair, k + 1, pair.len())
            } else {
                Vec::new()
            };
            assert(value@ =~= pair_value(pair@));
            return Some(string_from_chars(value.as_slice()));
        }
        i = i + 1;
    }
    assert(pv.skip(i as int) =~= Seq::<Seq<char>>::empty());
    None
}

/// The bundle a request asks for: the `bundle` query parameter of its target.
pub open spec fn requested_bundle_of(request: Seq<u8>) -> Option<Seq<char>> {
    match target_of(request) {
        Some(t) => if index_of(t, '?') < t.len() {
            query_param_of(t.skip(index_of(t, '?') + 1), "bundle"@)
        } else {
            None
        },
        None => None,
    }
}

/// The `bundle` query parameter of the request target.
pub fn requested_bundle(request: &[u8]) -> (r: Option<String>)
    ensures
        r matches Some(b) ==> requested_bundle_of(request@) == Some(b@),
        r is None ==> requested_bundle_of(request@) is None,
{
    let target = request_target(request)?;
    let t = str_chars(target.as_str());
    let k = find_char(t.as_slice(), '?');
    if k >= t.len() {
        return None;
    }
    let query = string_from_chars(sub_chars(t.as_slice(), k + 1, t.len()).as_slice());
    query_param(query.as_str(), "bundle")
}

/// What a bundle page is answered with: `200`, HTML, the page as its body.
pub open spec fn bundle_page_response(page: Seq<char>, r: StaticResponse) -> bool {
    &&& r.status == HttpStatus::Success
    &&& r.content_type@ == "text/html; charset=utf-8"@
    &&& r.headers@.len() == 0
    &&& r.body@ == encode_utf8(page)
}

/// The page of `bundle` as a response, when the bundle has one.
pub fn bundle_html_response(bundle: &str, templates: &BundleTemplates) -> (r: Option<StaticResponse>)
    ensures
        match bundle_page(bundle@, *templates) {
            Some(page) => r matches Some(resp) && bundle_page_response(page, resp),
            None => r is None,
        },
{
    let html = bundle_html(bundle, templates)?;
    Some(
        StaticResponse {
            status: HttpStatus::Success,
            content_type: "text/html; charset=utf-8",
            headers: Vec::new(),
            body: vstd::slice::slice_to_vec(html.as_str().as_bytes()),
        },
    )
}

/// The configured bundle's page, only when the request asks for that very
/// bundle.
pub fn matching_bundle_response(
    configured_bundle: &str,
    requested_bundle: &str,
    templates: &BundleTemplates,
) -> (r: Option<StaticResponse>)
    ensures
        configured_bundle@ != requested_bundle@ ==> r is None,
        configured_bundle@ == requested_bundle@ ==> match bundle_page(configured_bundle@, *templates) {
            Some(page) => r matches Some(resp) && bundle_page_response(page, resp),
            None => r is None,
        },
{
    if !text_eq(configured_bundle, requested_bundle) {
        return None;
    }
    bundle_html_response(configured_bundle, templates)
}

/// The bundle page for a request of `index.html` whose `bundle` parameter
/// names the configured bundle.
pub fn bundle_response(
    relative_path: &[String],
    configured_bundle: Option<&str>,
    request: &[u8],
    templates: &BundleTemplates,
) -> (r: Option<StaticResponse>)
    ensures
        ({
            let asked = relative_path.deep_view() == seq!["index.html"@] && configured_bundle is Some
                && requested_bundle_of(request@) == Some(configured_bundle.unwrap()@);
            &&& !asked ==> r is None
            &&& asked ==> match bundle_page(configured_bundle.unwrap()@, *templates) {
                Some(page) => r matches Some(resp) && bundle_page_response(page, resp),
                None => r is None,
            }
        }),
{
    require_bundle_index_path(relative_path)?;
    let configured = configured_bundle?;
    let requested = requested_bundle(request)?;
    matching_bundle_response(configured, requested.as_str(), templates)
}

// ---------------------------------------------------------------------------
// Workbench assets and static paths
// ---------------------------------------------------------------------------

/// The path below `workbench`, when the request path is there.
pub fn workbench_asset_path(relative_path: &[String]) -> (r: Option<Vec<String>>)
    ensures
        r matches Some(rest) ==> relative_path.deep_view().len() > 0
            && relative_path.deep_view()[0] == "workbench"@ && rest.deep_view()
            == relative_path.deep_view().skip(1),
        r is None ==> !(relative_path.deep_view().len() > 0 && relative_path.deep_view()[0]
            == "workbench"@),
{
    let ghost pv = relative_path.deep_view();
    if relative_path.len() == 0 || !text_eq(relative_path[0].as_str(), "workbench") {
        assert(relative_path.len() > 0 ==> pv[0] == relative_path@[0]@);
        return None;
    }
    assert(pv[0] == relative_path@[0]@);
    let mut rest: Vec<String> = Vec::new();
    let mut i: usize = 1;
    assert(rest.deep_view() =~= pv.subrange(1, 1));
    while i < relative_path.len()
        invariant
            1 <= i <= relative_path.len(),
            pv == relative_path.deep_view(),
            rest.deep_view() == pv.subrange(1, i as int),
        decreases relative_path.len() - i,
    {
        let ghost before = rest.deep_view();
        rest.push(relative_path[i].clone());
        assert(rest.deep_view() =~= before.push(relative_path@[i as int]@));
        assert(pv.subrange(1, i + 1) =~= pv.subrange(1, i as int).push(pv[i as int]));
        i = i + 1;
    }
    assert(pv.subrange(1, i as int) =~= pv.skip(1));
    Some(rest)
}

/// The segments joined by `/`.
pub open spec fn slash_joined(parts: Seq<Seq<char>>) -> Seq<char>
    decreases parts.len(),
{
    if parts.len() == 0 {
        Seq::empty()
    } else if parts.len() == 1 {
        parts[0]
    } else {
        slash_joined(parts.drop_last()) + seq!['/'] + parts.last()
    }
}

/// The request path as a `/`-separated relative URL.
pub fn path_to_url_relative(relative_path: &[String]) -> (r: String)
    ensures
        r@ == slash_joined(relative_path.deep_view()),
{
    let ghost pv = relative_path.deep_view();
    let mut out: Vec<char> = Vec::new();
    let mut i: usize = 0;
    assert(out@ =~= slash_joined(pv.take(0)));
    while i < relative_path.len()
        invariant
            i <= relative_path.len(),
            pv == relative_path.deep_view(),
            out@ == slash_joined(pv.take(i as int)),
        decreases relative_path.len() - i,
    {
        assert(pv.take(i + 1).drop_last() =~= pv.take(i as int));
        assert(pv.take(i + 1).last() == relative_path@[i as int]@);
        if i > 0 {
            out.push('/');
        }
        push_str(&mut out, relative_path[i].as_str());
        proof {
            if i == 0 {
                assert(pv.take(1)[0] == relative_path@[0]@);
            }
        }
        assert(out@ =~= slash_joined(pv.take(i + 1)));
        i = i + 1;
    }
    assert(pv.take(i as int) =~= pv);
    string_from_chars(out.as_slice())
}

/// The content type of a file extension, compared without regard to ASCII
/// case; unknown or missing extensions are `application/octet-stream`.
pub open spec fn content_type_of(extension: Option<Seq<char>>) -> Seq<char> {
    match extension {
        Some(e) => if eq_ignore_ascii_case(e, "html"@) {
            "text/html; charset=utf-8"@
        } else if eq_ignore_ascii_case(e, "js"@) || eq_ignore_ascii_case(e, "mjs"@) {
            "text/javascript; charset=utf-8"@
        } else if eq_ignore_ascii_case(e, "css"@) {
            "text/css; charset=utf-8"@
        } else if eq_ignore_ascii_case(e, "json"@) {
            "application/json"@
        } else if eq_ignore_ascii_case(e, "wasm"@) {
            "application/wasm"@
        } else if eq_ignore_ascii_case(e, "txt"@) {
            "text/plain; charset=utf-8"@
        } else {
            "application/octet-stream"@
        },
        None => "application/octet-stream"@,
    }
}

proof fn lemma_case_spellings_differ(e: Seq<char>, a: Seq<char>, b: Seq<char>, i: int)
    requires
        a.len() == b.len(),
        0 <= i < a.len(),
        ascii_lower(a[i]) != ascii_lower(b[i]),
    ensures
        !(eq_ignore_ascii_case(e, a) && eq_ignore_ascii_case(e, b)),
{
    if eq_ignore_ascii_case(e, a) && eq_ignore_ascii_case(e, b) {
        assert(ascii_lower(e[i]) == ascii_lower(a[i]));
    }
}

/// The extension table: every spelling of a known extension, in any ASCII
/// case, has its listed type (`html`, `js`/`mjs`, `css`, `json`, `wasm`,
/// `txt`), and no extension at all is `application/octet-stream`.
pub proof fn lemma_content_type_table(e: Seq<char>)
    ensures
        eq_ignore_ascii_case(e, "html"@) ==> content_type_of(Some(e))
            == "text/html; charset=utf-8"@,
        eq_ignore_ascii_case(e, "js"@) ==> content_type_of(Some(e))
            == "text/javascript; charset=utf-8"@,
        eq_ignore_ascii_case(e, "mjs"@) ==> content_type_of(Some(e))
            == "text/javascript; charset=utf-8"@,
        eq_ignore_ascii_case(e, "css"@) ==> content_type_of(Some(e)) == "text/css; charset=utf-8"@,
        eq_ignore_ascii_case(e, "json"@) ==> content_type_of(Some(e)) == "application/json"@,
        eq_ignore_ascii_case(e, "wasm"@) ==> content_type_of(Some(e)) == "application/wasm"@,
        eq_ignore_ascii_case(e, "txt"@) ==> content_type_of(Some(e))
            == "text/plain; charset=utf-8"@,
        content_type_of(None) == "application/octet-stream"@,
{
    reveal_strlit("html");
    reveal_strlit("js");
    reveal_strlit("mjs");
    reveal_strlit("css");
    reveal_strlit("json");
    reveal_strlit("wasm");
    reveal_strlit("txt");
    lemma_case_spellings_differ(e, "html"@, "json"@, 0);
    lemma_case_spellings_differ(e, "html"@, "wasm"@, 0);
    lemma_case_spellings_differ(e, "json"@, "wasm"@, 0);
    lemma_case_spellings_differ(e, "mjs"@, "css"@, 0);
    lemma_case_spellings_differ(e, "mjs"@, "txt"@, 0);
    lemma_case_spellings_differ(e, "css"@, "txt"@, 0);
}

fn ext_is(e: &[char], known: &str) -> (r: bool)
    ensures
        r == eq_ignore_ascii_case(e@, known@),
{
    let k = str_chars(known);
    chars_eq_ignore_ascii_case(e, k.as_slice())
}

/// The content type a file extension is served with.
pub fn content_type_for_extension(extension: Option<&str>) -> (r: &'static str)
    ensures
        r@ == content_type_of(
            match extension {
                Some(e) => Some(e@),
                None => None,
            },
        ),
{
    match extension {
        Some(text) => {
            let e = str_chars(text);
            if ext_is(e.as_slice(), "html") {
                "text/html; charset=utf-8"
            } else if ext_is(e.as_slice(), "js") || ext_is(e.as_slice(), "mjs") {
                "text/javascript; charset=utf-8"
            } else if ext_is(e.as_slice(), "css") {
                "text/css; charset=utf-8"
            } else if ext_is(e.as_slice(), "json") {
                "application/json"
            } else if ext_is(e.as_slice(), "wasm") {
                "application/wasm"
            } else if ext_is(e.as_slice(), "txt") {
                "text/plain; charset=utf-8"
            } else {
                "application/octet-stream"
            }
        },
        None => "application/octet-stream",
    }
}

/// Position of the last `c` in `s`, or -1.
pub open spec fn last_index_of(s: Seq<char>, c: char) -> int
    decreases s.len(),
{
    if s.len() == 0 {
        -1
    } else if s.last() == c {
        s.len() - 1
    } else {
        last_index_of(s.drop_last(), c)
    }
}

/// The extension of a file name (`Path::extension`): what follows its last
/// `.`, unless there is none or the only one starts the name.
pub open spec fn extension_of(name: Seq<char>) -> Option<Seq<char>> {
    let k = last_index_of(name, '.');
    if k > 0 {
        Some(name.skip(k + 1))
    } else {
        None
    }
}

proof fn lemma_last_index_at(s: Seq<char>, c: char, t: Seq<char>)
    requires
        !t.contains(c),
    ensures
        last_index_of(s + seq![c] + t, c) == s.len(),
    decreases t.len(),
{
    let whole = s + seq![c] + t;
    if t.len() == 0 {
        assert(whole.last() == c);
    } else {
        assert(t.last() != c) by {
            if t.last() == c {
                assert(t[t.len() - 1] == c);
                assert(t.contains(c));
            }
        }
        assert(!t.drop_last().contains(c)) by {
            if t.drop_last().contains(c) {
                let j = choose|j: int| 0 <= j < t.drop_last().len() && t.drop_last()[j] == c;
                assert(t[j] == c);
            }
        }
        lemma_last_index_at(s, c, t.drop_last());
        assert(whole.drop_last() =~= s + seq![c] + t.drop_last());
    }
}

/// A served file's type follows the extension of its name: for a path
/// `DIR/STEM.EXT`, whatever `DIR` and a non-empty `STEM` (with no `/`) and
/// `EXT` (with no `.` or `/`) are, the type `content_type` gives is the
/// type of `EXT`.
pub proof fn lemma_content_type_follows_extension(dir: Seq<char>, stem: Seq<char>, ext: Seq<char>)
    requires
        stem.len() > 0,
        !stem.contains('/'),
        !ext.contains('.'),
        !ext.contains('/'),
    ensures
        ({
            let path = dir + "/"@ + stem + "."@ + ext;
            content_type_of(extension_of(path.skip(last_index_of(path, '/') + 1)))
                == content_type_of(Some(ext))
        }),
{
    reveal_strlit("/");
    reveal_strlit(".");
    let name = stem + seq!['.'] + ext;
    let path = dir + "/"@ + stem + "."@ + ext;
    assert(path =~= dir + seq!['/'] + name);
    assert(!name.contains('/')) by {
        if name.contains('/') {
            let j = choose|j: int| 0 <= j < name.len() && name[j] == '/';
            if j < stem.len() {
                assert(stem[j] == '/');
            } else if j > stem.len() {
                assert(ext[j - stem.len() - 1] == '/');
            }
        }
    }
    lemma_last_index_at(dir, '/', name);
    assert(path.skip(dir.len() as int + 1) =~= name);
    lemma_last_index_at(stem, '.', ext);
    assert(name.skip(stem.len() as int + 1) =~= ext);
}

fn last_char_index(s: &[char], c: char) -> (r: Option<usize>)
    ensures
        match r {
            Some(k) => last_index_of(s@, c) == k as int && k < s.len(),
            None => last_index_of(s@, c) == -1,
        },
{
    let mut i = s.len();
    assert(s@.take(i as int) =~= s@);
    while i > 0
        invariant
            i <= s.len(),
            last_index_of(s@, c) == last_index_of(s@.take(i as int), c),
        decreases i,
    {
        assert(s@.take(i as int).drop_last() =~= s@.take(i - 1));
        if s[i - 1] == c {
            return Some(i - 1);
        }
        i = i - 1;
    }
    None
}

/// The content type of a served file, by the extension of its last path
/// component.
pub fn content_type(path: &str) -> (r: &'static str)
    ensures
        r@ == content_type_of(extension_of(path@.skip(last_index_of(path@, '/') + 1))),
{
    let chars = str_chars(path);
    let start = match last_char_index(chars.as_slice(), '/') {
        Some(k) => k + 1,
        None => 0,
    };
    proof {
        lemma_last_index_bounds(chars@, '/');
    }
    let name = sub_chars(chars.as_slice(), start, chars.len());
    assert(name@ =~= path@.skip(last_index_of(path@, '/') + 1));
    proof {
        lemma_last_index_bounds(name@, '.');
    }
    match last_char_index(name.as_slice(), '.') {
        Some(k) => if k > 0 {
            let ext = string_from_chars(sub_chars(name.as_slice(), k + 1, name.len()).as_slice());
            content_type_for_extension(Some(ext.as_str()))
        } else {
            content_type_for_extension(None)
        },
        None => content_type_for_extension(None),
    }
}

proof fn lemma_last_index_bounds(s: Seq<char>, c: char)
    ensures
        -1 <= last_index_of(s, c) < s.len(),
    decreases s.len(),
{
    if s.len() > 0 && s.last() != c {
        lemma_last_index_bounds(s.drop_last(), c);
    }
}

} // verus!
