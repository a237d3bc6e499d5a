//! Recognising the shell websocket route and decoding its query values.

use vstd::prelude::*;
use vstd::utf8::encode_utf8;
use crate::seqs::{before_char, chars_before, chars_eq, index_of, find_char, sub_chars, split_char, split_on};
use crate::text::{str_chars, string_from_chars};
use crate::http::routes::{pair_key, pair_value};
use crate::http::request::{pct_decode, percent_decode};
use crate::http::response::{HttpStatus, StaticResponse};

verus! {

/// The path the shell websocket is served on.
pub open spec fn qjs_shell_path() -> Seq<char> {
    "/.well-known/qjs-shell"@
}

/// Whether a request target names the shell websocket, whatever its query.
pub fn is_qjs_shell_websocket_path(raw_path: Option<&str>) -> (r: bool)
    ensures
        r == (raw_path matches Some(p) && before_char(p@, '?') == qjs_shell_path()),
{
    match raw_path {
        Some(p) => {
            let chars = str_chars(p);
            let path = chars_before(chars.as_slice(), '?');
            let expected = str_chars("/.well-known/qjs-shell");
            chars_eq(path.as_slice(), expected.as_slice())
        },
        None => false,
    }
}

/// `s` with every `+` read as a space, as query strings write spaces.
pub open spec fn plus_as_space(s: Seq<char>) -> Seq<char> {
    s.map_values(|c: char| if c == '+' { ' ' } else { c })
}

/// Decodes a query key or value: `+` is a space, then percent escapes are
/// decoded; a bad escape or invalid UTF-8 is a `400` with the text
/// `invalid query string`.
pub fn query_percent_decode(value: &str) -> (r: Result<String, StaticResponse>)
    ensures
        r matches Ok(s) ==> pct_decode(plus_as_space(value@)) == Some(s@),
        r matches Err(resp) ==> pct_decode(plus_as_space(value@)) is None
            && resp.status == HttpStatus::BadRequest && resp.body@ == encode_utf8(
            "invalid query string"@,
        ) && resp.content_type@ == "text/plain; charset=utf-8"@ && resp.headers@.len() == 0,
{
    let chars = str_chars(value);
    let mut spaced: Vec<char> = Vec::new();
    let mut i: usize = 0;
    while i < chars.len()
        invariant
            i <= chars.len(),
            chars@ == value@,
            spaced@ == plus_as_space(chars@.take(i as int)),
        decreases chars.len() - i,
    {
        let c = chars[i];
        spaced.push(if c == '+' { ' ' } else { c });
        assert(spaced@ =~= plus_as_space(chars@.take(i + 1)));
        i = i + 1;
    }
    assert(chars@.take(i as int) =~= chars@);
    match percent_decode(spaced.as_slice()) {
        Ok(s) => Ok(s),
        Err(_) => Err(StaticResponse::plain(HttpStatus::BadRequest, "invalid query string")),
    }
}

/// A query key or value as decoded (see `query_percent_decode`).
pub open spec fn query_decoded(v: Seq<char>) -> Option<Seq<char>> {
    pct_decode(plus_as_space(v))
}

/// The decoded value of the first pair whose decoded key is `cwd`: none
/// when no key is, an error when a key before it, or its value, does not
/// decode.
pub open spec fn cwd_in(pairs: Seq<Seq<char>>) -> Result<Option<Seq<char>>, ()>
    decreases pairs.len(),
{
    if pairs.len() == 0 {
        Ok(None)
    } else {
        match query_decoded(pair_key(pairs[0])) {
            None => Err(()),
            Some(k) => if k == "cwd"@ {
                match query_decoded(pair_value(pairs[0])) {
                    None => Err(()),
                    Some(v) => Ok(Some(v)),
                }
            } else {
                cwd_in(pairs.drop_first())
            },
        }
    }
}

/// The shell's working directory as the path handed to the path
/// normaliser: `/` is the root `.`, one leading `/` is dropped, and an
/// empty value is refused.
pub open spec fn cwd_text_of(value: Seq<char>) -> Option<Seq<char>> {
    if value.len() == 0 {
        None
    } else if value == seq!['/'] {
        Some("."@)
    } else {
        let p = if value[0] == '/' {
            value.drop_first()
        } else {
            value
        };
        if p.len() == 0 {
            Some("."@)
        } else {
            Some(p)
        }
    }
}

/// What a shell websocket target asks as its working directory: `.` when
/// there is no query or no `cwd` in it; otherwise the error text of the
/// `400` it is refused with.
pub open spec fn qjs_cwd_of(raw_path: Option<Seq<char>>) -> Result<Seq<char>, Seq<char>> {
    match raw_path {
        None => Err("bad request"@),
        Some(p) => if index_of(p, '?') >= p.len() {
            Ok("."@)
        } else {
            match cwd_in(split_char(p.skip(index_of(p, '?') + 1), '&')) {
                Err(_) => Err("invalid query string"@),
                Ok(None) => Ok("."@),
                Ok(Some(v)) => match cwd_text_of(v) {
                    Some(t) => Ok(t),
                    None => Err("invalid qjs shell cwd"@),
                },
            }
        },
    }
}

/// The working directory a shell websocket target asks for (see
/// `qjs_cwd_of`), still to be normalised as a wanix path; a refusal is a
/// `400`.
pub fn qjs_shell_cwd_text(raw_path: Option<&str>) -> (r: Result<String, StaticResponse>)
    ensures
        match qjs_cwd_of(
            match raw_path {
                Some(p) => Some(p@),
                None => None,
            },
        ) {
            Ok(t) => r matches Ok(s) && s@ == t,
            Err(m) => r matches Err(resp) && resp.status == HttpStatus::BadRequest && resp.body@
                == encode_utf8(m) && resp.headers@.len() == 0,
        },
{
    let p = match raw_path {
        Some(p) => p,
        None => return Err(StaticResponse::plain(HttpStatus::BadRequest, "bad request")),
    };
    let chars = str_chars(p);
    let k = find_char(chars.as_slice(), '?');
    if k >= chars.len() {
        return Ok(".".to_owned());
    }
    let query = sub_chars(chars.as_slice(), k + 1, chars.len());
    assert(query@ =~= p@.skip(k + 1));
    let pairs = split_on(query.as_slice(), '&');
    assert(chars@ == p@);
    let ghost pv = pairs.deep_view();
    let mut i: usize = 0;
    assert(pv.skip(0) =~= pv);
    while i < pairs.len()
        invariant
            i <= pairs.len(),
            pv == pairs.deep_view(),
            pv == split_char(query@, '&'),
            cwd_in(pv) == cwd_in(pv.skip(i as int)),
            raw_path matches Some(q) && q@ == p@,
            index_of(p@, '?') < p@.len(),
            split_char(p@.skip(index_of(p@, '?') + 1), '&') == pv,
        decreases pairs.len() - i,
    {
        let pair = pairs[i].as_slice();
        assert(pv.skip(i as int)[0] == pair@);
        assert(pv.skip(i as int).drop_first() =~= pv.skip(i + 1));
        proof {
            crate::seqs::lemma_index_of_bounds(pair@, '=');
        }
        let eq = find_char(pair, '=');
        let raw_key = string_from_chars(sub_chars(pair, 0, eq).as_slice());
        assert(raw_key@ =~= pair_key(pair@));
        let key = match query_percent_decode(raw_key.as_str()) {
            Ok(key) => key,
            Err(resp) => {
                assert(cwd_in(pv.skip(i as int)) == Err::<Option<Seq<char>>, ()>(()));
                return Err(resp);
            },
        };
        assert(query_decoded(pair_key(pair@)) == Some(key@));
        if chars_eq(str_chars(key.as_str()).as_slice(), str_chars("cwd").as_slice()) {
            let raw_value = if eq < pair.len() {
                sub_chars(pair, eq + 1, pair.len())
            } else {
                Vec::new()
            };
            assert(raw_value@ =~= pair_value(pair@));
            let raw_value = string_from_chars(raw_value.as_slice());
            let value = match query_percent_decode(raw_value.as_str()) {
                Ok(v) => v,
                Err(resp) => {
                    assert(cwd_in(pv.skip(i as int)) == Err::<Option<Seq<char>>, ()>(()));
                    return Err(resp);
                },
            };
            assert(cwd_in(pv) == Ok::<Option<Seq<char>>, ()>(Some(value@)));
            let v = str_chars(value.as_str());
            if v.len() == 0 {
                return Err(StaticResponse::plain(HttpStatus::BadRequest, "invalid qjs shell cwd"));
            }
            if v.len() == 1 && v[0] == '/' {
                assert(v@ =~= seq!['/']);
                return Ok(".".to_owned());
            }
            let rest = if v[0] == '/' {
                sub_chars(v.as_slice(), 1, v.len())
            } else {
                v
            };
            proof {
                if value@[0] == '/' {
                    assert(rest@ =~= value@.drop_first());
                }
                assert(value@ != seq!['/']);
            }
            if rest.len() == 0 {
                return Ok(".".to_owned());
            }
            return Ok(string_from_chars(rest.as_slice()));
        }
        i = i + 1;
    }
    assert(pv.skip(i as int) =~= Seq::<Seq<char>>::empty());
    Ok(".".to_owned())
}

} // verus!
