//! The `serve --bind NAME=SOURCE` grammar: splitting the argument, the
//! name an origin is served under, and what the source points at. Whether
//! a name is a routable site name, and whether a ticket is well formed,
//! are checked by the caller between these steps.

use vstd::prelude::*;
use crate::error::CliError;
use crate::text::{str_chars, string_from_chars, push_str, debug_str, debug_quoted};
use crate::seqs::{index_of, find_char, sub_chars, trim, trim_chars, eq_ignore_ascii_case, chars_eq_ignore_ascii_case, starts_with, chars_starts_with};

verus! {

/// The scheme of a mesh ticket source.
pub const IROH_SCHEME: &'static str = "iroh://";

pub open spec fn split_message(raw: Seq<char>) -> Seq<char> {
    "serve --bind expects NAME=DIR or NAME=iroh://PEER, got "@ + debug_str(raw)
}

/// Splits `NAME=SOURCE` at its first `=`.
pub fn split_web_bind(raw: &str) -> (r: Result<(String, String), CliError>)
    ensures
        index_of(raw@, '=') < raw@.len() ==> (r matches Ok((name, source)) && name@ == raw@.take(
            index_of(raw@, '='),
        ) && source@ == raw@.skip(index_of(raw@, '=') + 1)),
        index_of(raw@, '=') >= raw@.len() ==> (r matches Err(e) && e.message@ == split_message(raw@)
            && e.exit_code == 2),
{
    let chars = str_chars(raw);
    let k = find_char(chars.as_slice(), '=');
    if k >= chars.len() {
        let mut m: Vec<char> = Vec::new();
        push_str(&mut m, "serve --bind expects NAME=DIR or NAME=iroh://PEER, got ");
        let q = debug_quoted(raw);
        push_str(&mut m, q.as_str());
        let m = string_from_chars(m.as_slice());
        return Err(CliError::usage(m.as_str()));
    }
    let name = string_from_chars(sub_chars(chars.as_slice(), 0, k).as_slice());
    let source = string_from_chars(sub_chars(chars.as_slice(), k + 1, chars.len()).as_slice());
    assert(chars@.subrange(0, k as int) =~= raw@.take(k as int));
    assert(chars@.subrange(k + 1, chars@.len() as int) =~= raw@.skip(k + 1));
    Ok((name, source))
}

/// The origin a bind NAME is served as: the trimmed name, with
/// `.localhost` added when it has no `.`; an empty name and the bare
/// `localhost` (which serves the index of names) are usage errors.
pub open spec fn bind_name_of(name: Seq<char>) -> Result<Seq<char>, Seq<char>> {
    let t = trim(name);
    if t.len() == 0 {
        Err("serve --bind expects NAME=SOURCE with a non-empty NAME"@)
    } else if eq_ignore_ascii_case(t, "localhost"@) {
        Err(
            "serve --bind cannot bind the bare localhost (it serves the name index); pick a name like chat (served as chat.localhost)"@,
        )
    } else if index_of(t, '.') < t.len() {
        Ok(t)
    } else {
        Ok(t + ".localhost"@)
    }
}

/// The origin name a bind serves (see `bind_name_of`), still to be checked
/// as a routable site name.
pub fn qualify_bind_name(name: &str) -> (r: Result<String, CliError>)
    ensures
        match bind_name_of(name@) {
            Ok(q) => r matches Ok(s) && s@ == q,
            Err(m) => r matches Err(e) && e.message@ == m && e.exit_code == 2,
        },
{
    let t = trim_chars(str_chars(name).as_slice());
    if t.len() == 0 {
        return Err(CliError::usage("serve --bind expects NAME=SOURCE with a non-empty NAME"));
    }
    if chars_eq_ignore_ascii_case(t.as_slice(), str_chars("localhost").as_slice()) {
        return Err(
            CliError::usage(
                "serve --bind cannot bind the bare localhost (it serves the name index); pick a name like chat (served as chat.localhost)",
            ),
        );
    }
    if find_char(t.as_slice(), '.') < t.len() {
        return Ok(string_from_chars(t.as_slice()));
    }
    let mut q = t;
    push_str(&mut q, ".localhost");
    Ok(string_from_chars(q.as_slice()))
}

pub open spec fn unroutable_message(name: Seq<char>) -> Seq<char> {
    "serve --bind name "@ + debug_str(trim(name))
        + " must be a routable site name (e.g. chat or chat.localhost), not an IP literal or bare localhost"@
}

/// The usage error for a bind name that is not a routable site name; it
/// quotes the trimmed name.
pub fn unroutable_bind_name(name: &str) -> (e: CliError)
    ensures
        e.message@ == unroutable_message(name@),
        e.exit_code == 2,
{
    let t = string_from_chars(trim_chars(str_chars(name).as_slice()).as_slice());
    let mut m: Vec<char> = Vec::new();
    push_str(&mut m, "serve --bind name ");
    let q = debug_quoted(t.as_str());
    push_str(&mut m, q.as_str());
    push_str(
        &mut m,
        " must be a routable site name (e.g. chat or chat.localhost), not an IP literal or bare localhost",
    );
    let m = string_from_chars(m.as_slice());
    CliError::usage(m.as_str())
}

/// What a bind points its name at.
#[derive(Debug, Clone, PartialEq, Eq)]
pub enum WebBindSource {
    /// A host directory.
    Dir(String),
    /// A mesh ticket (`iroh://PEER[?addr=...]`), to be checked and dialed.
    Mesh(String),
}

pub open spec fn empty_source_message(name: Seq<char>) -> Seq<char> {
    "serve --bind "@ + name + " names an empty source; pass a directory or an iroh:// ticket"@
}

/// The source of a bind, trimmed: a mesh ticket when it starts with
/// `iroh://`, else a directory; an empty one is a usage error naming the
/// bind's NAME as written.
pub fn bind_source(name: &str, source: &str) -> (r: Result<WebBindSource, CliError>)
    ensures
        trim(source@).len() == 0 ==> (r matches Err(e) && e.message@ == empty_source_message(name@)
            && e.exit_code == 2),
        trim(source@).len() > 0 && starts_with(trim(source@), IROH_SCHEME@) ==> (r matches Ok(
            WebBindSource::Mesh(t),
        ) && t@ == trim(source@)),
        trim(source@).len() > 0 && !starts_with(trim(source@), IROH_SCHEME@) ==> (r matches Ok(
            WebBindSource::Dir(t),
        ) && t@ == trim(source@)),
{
    let t = trim_chars(str_chars(source).as_slice());
    if t.len() == 0 {
        let mut m: Vec<char> = Vec::new();
        push_str(&mut m, "serve --bind ");
        push_str(&mut m, name);
        push_str(&mut m, " names an empty source; pass a directory or an iroh:// ticket");
        let m = string_from_chars(m.as_slice());
        return Err(CliError::usage(m.as_str()));
    }
    let text = string_from_chars(t.as_slice());
    if chars_starts_with(t.as_slice(), str_chars(IROH_SCHEME).as_slice()) {
        Ok(WebBindSource::Mesh(text))
    } else {
        Ok(WebBindSource::Dir(text))
    }
}

} // verus!
