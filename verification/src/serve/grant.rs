//! Capability grants for the raw 9P server: `--grant ANAME:PREFIX:RIGHTS`
//! and the `--peer` key the grants are bound to.

use vstd::prelude::*;
use vstd::utf8::encode_utf8;
use crate::error::CliError;
use crate::text::{str_chars, string_from_chars, push_str, push_decimal, decimal, debug_str, debug_quoted, debug_char, debug_quoted_char};
use crate::seqs::{split_char, split_on, chars_eq};

verus! {

/// What a grant allows.
#[derive(Debug, Clone, Copy, PartialEq, Eq, Structural)]
pub enum Rights {
    ReadWrite,
    ReadOnly,
}

/// A parsed grant, not yet bound to a peer or a filesystem.
#[derive(Debug, Clone, PartialEq, Eq)]
pub struct GrantSpec {
    pub aname: String,
    pub prefix: String,
    pub rights: Rights,
}

/// What `ANAME:PREFIX:RIGHTS` gives: exactly three fields, a non-empty
/// name, and rights `rw` or `ro`; else the usage message.
pub open spec fn grant_of(spec: Seq<char>) -> Result<(Seq<char>, Seq<char>, Rights), Seq<char>> {
    let f = split_char(spec, ':');
    if f[0].len() == 0 || f.len() != 3 {
        Err("serve --grant expects ANAME:PREFIX:RIGHTS, got "@ + debug_str(spec))
    } else if f[2] == "rw"@ {
        Ok((f[0], f[1], Rights::ReadWrite))
    } else if f[2] == "ro"@ {
        Ok((f[0], f[1], Rights::ReadOnly))
    } else {
        Err("serve --grant RIGHTS must be rw or ro, got "@ + debug_str(f[2]))
    }
}

proof fn lemma_split_nonempty(s: Seq<char>, c: char)
    ensures
        split_char(s, c).len() >= 1,
    decreases s.len(),
{
    let k = crate::seqs::index_of(s, c);
    crate::seqs::lemma_index_of_bounds(s, c);
    if k < s.len() {
        lemma_split_nonempty(s.skip(k + 1), c);
    }
}

proof fn lemma_split_at_first(a: Seq<char>, rest: Seq<char>, c: char)
    requires
        !a.contains(c),
    ensures
        split_char(a + seq![c] + rest, c) == seq![a] + split_char(rest, c),
{
    let s = a + seq![c] + rest;
    assert forall|j: int| 0 <= j < a.len() implies s[j] != c by {
        assert(s[j] == a[j]);
        if s[j] == c {
            assert(a.contains(c));
        }
    }
    crate::seqs::lemma_index_of(s, c, a.len() as int);
    assert(s.take(a.len() as int) =~= a);
    assert(s.skip(a.len() as int + 1) =~= rest);
}

proof fn lemma_split_without(r: Seq<char>, c: char)
    requires
        !r.contains(c),
    ensures
        split_char(r, c) == seq![r],
{
    assert forall|j: int| 0 <= j < r.len() implies r[j] != c by {
        if r[j] == c {
            assert(r.contains(c));
        }
    }
    crate::seqs::lemma_index_of(r, c, r.len() as int);
}

/// A well-formed grant keeps its fields in place: for a non-empty name and
/// a prefix, neither holding `:`, `NAME:PREFIX:rw` grants read-write and
/// `NAME:PREFIX:ro` read-only access to PREFIX under NAME.
pub proof fn lemma_grant_fields_in_place(aname: Seq<char>, prefix: Seq<char>)
    requires
        aname.len() > 0,
        !aname.contains(':'),
        !prefix.contains(':'),
    ensures
        grant_of(aname + ":"@ + prefix + ":rw"@) == Ok::<_, Seq<char>>((aname, prefix, Rights::ReadWrite)),
        grant_of(aname + ":"@ + prefix + ":ro"@) == Ok::<_, Seq<char>>((aname, prefix, Rights::ReadOnly)),
{
    reveal_strlit(":");
    reveal_strlit(":rw");
    reveal_strlit(":ro");
    reveal_strlit("rw");
    reveal_strlit("ro");
    let rw = seq!['r', 'w'];
    let ro = seq!['r', 'o'];
    assert("rw"@ =~= rw && "ro"@ =~= ro);
    assert(":rw"@ =~= seq![':'] + rw && ":ro"@ =~= seq![':'] + ro && ":"@ =~= seq![':']);
    assert(!rw.contains(':')) by {
        if rw.contains(':') {
            let j = choose|j: int| 0 <= j < rw.len() && rw[j] == ':';
        }
    }
    assert(!ro.contains(':')) by {
        if ro.contains(':') {
            let j = choose|j: int| 0 <= j < ro.len() && ro[j] == ':';
        }
    }
    lemma_split_without(rw, ':');
    lemma_split_without(ro, ':');
    lemma_split_at_first(prefix, rw, ':');
    lemma_split_at_first(prefix, ro, ':');
    lemma_split_at_first(aname, prefix + seq![':'] + rw, ':');
    lemma_split_at_first(aname, prefix + seq![':'] + ro, ':');
    assert(aname + ":"@ + prefix + ":rw"@ =~= aname + seq![':'] + (prefix + seq![':'] + rw));
    assert(aname + ":"@ + prefix + ":ro"@ =~= aname + seq![':'] + (prefix + seq![':'] + ro));
    assert(split_char(aname + ":"@ + prefix + ":rw"@, ':') =~= seq![aname, prefix, rw]);
    assert(split_char(aname + ":"@ + prefix + ":ro"@, ':') =~= seq![aname, prefix, ro]);
    assert(rw != ro) by {
        assert(rw[1] != ro[1]);
    }
    let f = split_char(aname + ":"@ + prefix + ":rw"@, ':');
    assert(f.len() == 3 && f[0] == aname && f[1] == prefix && f[2] == "rw"@);
    let g = split_char(aname + ":"@ + prefix + ":ro"@, ':');
    assert(g.len() == 3 && g[0] == aname && g[1] == prefix && g[2] == "ro"@ && g[2] != "rw"@);
}

/// What a grant refuses: an empty name, rights other than `rw` or `ro`, and
/// anything but exactly three `:`-separated fields.
pub proof fn lemma_grant_refusals(aname: Seq<char>, prefix: Seq<char>, rights: Seq<char>, extra: Seq<char>)
    requires
        !aname.contains(':'),
        !prefix.contains(':'),
        !rights.contains(':'),
    ensures
        aname.len() == 0 ==> grant_of(aname + ":"@ + prefix + ":"@ + rights) is Err,
        rights != "rw"@ && rights != "ro"@ ==> grant_of(aname + ":"@ + prefix + ":"@ + rights) is Err,
        grant_of(aname + ":"@ + prefix) is Err,
        grant_of(aname + ":"@ + prefix + ":"@ + rights + ":"@ + extra) is Err,
{
    reveal_strlit(":");
    assert(":"@ =~= seq![':']);
    lemma_split_nonempty(extra, ':');
    lemma_split_without(rights, ':');
    lemma_split_without(prefix, ':');
    lemma_split_at_first(prefix, rights, ':');
    lemma_split_at_first(aname, prefix + seq![':'] + rights, ':');
    assert(aname + ":"@ + prefix + ":"@ + rights =~= aname + seq![':'] + (prefix + seq![':'] + rights));
    assert(split_char(aname + ":"@ + prefix + ":"@ + rights, ':') =~= seq![aname, prefix, rights]);
    lemma_split_at_first(aname, prefix, ':');
    assert(aname + ":"@ + prefix =~= aname + seq![':'] + prefix);
    assert(split_char(aname + ":"@ + prefix, ':') =~= seq![aname, prefix]);
    lemma_split_at_first(rights, extra, ':');
    lemma_split_at_first(prefix, rights + seq![':'] + extra, ':');
    lemma_split_at_first(aname, prefix + seq![':'] + (rights + seq![':'] + extra), ':');
    assert(aname + ":"@ + prefix + ":"@ + rights + ":"@ + extra =~= aname + seq![':'] + (prefix
        + seq![':'] + (rights + seq![':'] + extra)));
    assert(split_char(aname + ":"@ + prefix + ":"@ + rights + ":"@ + extra, ':').len() >= 4);
}

impl GrantSpec {
    /// Parses one grant (see `grant_of`).
    pub fn parse(spec: &str) -> (r: Result<Self, CliError>)
        ensures
            match grant_of(spec@) {
                Ok((aname, prefix, rights)) => r matches Ok(g) && g.aname@ == aname && g.prefix@
                    == prefix && g.rights == rights,
                Err(m) => r matches Err(e) && e.message@ == m && e.exit_code == 2,
            },
    {
        let chars = str_chars(spec);
        let fields = split_on(chars.as_slice(), ':');
        proof {
            lemma_split_nonempty(spec@, ':');
        }
        let ghost fv = fields.deep_view();
        assert(fv[0] == fields@[0]@);
        if fields[0].len() == 0 || fields.len() != 3 {
            let mut m: Vec<char> = Vec::new();
            push_str(&mut m, "serve --grant expects ANAME:PREFIX:RIGHTS, got ");
            let q = debug_quoted(spec);
            push_str(&mut m, q.as_str());
            let text = string_from_chars(m.as_slice());
            return Err(CliError::usage(text.as_str()));
        }
        assert(fv[1] == fields@[1]@ && fv[2] == fields@[2]@);
        let rights = if chars_eq(fields[2].as_slice(), str_chars("rw").as_slice()) {
            Rights::ReadWrite
        } else if chars_eq(fields[2].as_slice(), str_chars("ro").as_slice()) {
            Rights::ReadOnly
        } else {
            let mut m: Vec<char> = Vec::new();
            push_str(&mut m, "serve --grant RIGHTS must be rw or ro, got ");
            let other = string_from_chars(fields[2].as_slice());
            let q = debug_quoted(other.as_str());
            push_str(&mut m, q.as_str());
            let text = string_from_chars(m.as_slice());
            return Err(CliError::usage(text.as_str()));
        };
        Ok(
            GrantSpec {
                aname: string_from_chars(fields[0].as_slice()),
                prefix: string_from_chars(fields[1].as_slice()),
                rights,
            },
        )
    }
}

/// The value of a hex digit byte.
pub open spec fn hex_digit_value(b: u8) -> Option<u8> {
    if 48 <= b <= 57 {
        Some((b - 48) as u8)
    } else if 97 <= b <= 102 {
        Some((b - 97 + 10) as u8)
    } else if 65 <= b <= 70 {
        Some((b - 65 + 10) as u8)
    } else {
        None
    }
}

/// A hex digit's value; anything else is a usage error naming it.
pub fn hex_value(byte: u8) -> (r: Result<u8, CliError>)
    ensures
        match hex_digit_value(byte) {
            Some(v) => r == Ok::<u8, CliError>(v),
            None => r matches Err(e) && e.message@ == "serve --peer has a non-hex digit "@
                + debug_char(byte as char) && e.exit_code == 2,
        },
{
    if 48 <= byte && byte <= 57 {
        Ok(byte - 48)
    } else if 97 <= byte && byte <= 102 {
        Ok(byte - 97 + 10)
    } else if 65 <= byte && byte <= 70 {
        Ok(byte - 65 + 10)
    } else {
        let mut m: Vec<char> = Vec::new();
        push_str(&mut m, "serve --peer has a non-hex digit ");
        let q = debug_quoted_char(byte as char);
        push_str(&mut m, q.as_str());
        let text = string_from_chars(m.as_slice());
        Err(CliError::usage(text.as_str()))
    }
}

/// The key bytes a 64-digit hex text spells, two digits per byte, or the
/// first digit that is not hex.
pub open spec fn peer_bytes(b: Seq<u8>) -> Result<Seq<u8>, u8>
    decreases b.len(),
{
    if b.len() < 2 {
        Ok(Seq::empty())
    } else {
        match (hex_digit_value(b[0]), hex_digit_value(b[1])) {
            (Some(hi), Some(lo)) => match peer_bytes(b.skip(2)) {
                Ok(rest) => Ok(seq![(hi * 16 + lo) as u8] + rest),
                Err(x) => Err(x),
            },
            (None, _) => Err(b[0]),
            (Some(_), None) => Err(b[1]),
        }
    }
}

/// Reads a peer key: exactly 64 bytes of hex digits, two per key byte.
pub fn parse_peer(value: &str) -> (r: Result<Vec<u8>, CliError>)
    ensures
        encode_utf8(value@).len() != 64 ==> (r matches Err(e) && e.message@
            == "serve --peer expects 64 hex digits, got "@ + decimal(encode_utf8(value@).len())
            + " characters"@ && e.exit_code == 2),
        encode_utf8(value@).len() == 64 ==> match peer_bytes(encode_utf8(value@)) {
            Ok(k) => r matches Ok(key) && key@ == k && key@.len() == 32,
            Err(x) => r matches Err(e) && e.message@ == "serve --peer has a non-hex digit "@
                + debug_char(x as char) && e.exit_code == 2,
        },
{
    let bytes = value.as_bytes();
    if bytes.len() != 64 {
        let mut m: Vec<char> = Vec::new();
        push_str(&mut m, "serve --peer expects 64 hex digits, got ");
        push_decimal(&mut m, bytes.len() as u64);
        push_str(&mut m, " characters");
        let text = string_from_chars(m.as_slice());
        return Err(CliError::usage(text.as_str()));
    }
    let ghost all = bytes@;
    let mut key: Vec<u8> = Vec::new();
    let mut i: usize = 0;
    assert(all.skip(0) =~= all);
    while i < 32
        invariant
            i <= 32,
            bytes@ == all,
            all == encode_utf8(value@),
            all.len() == 64,
            key@.len() == i,
            peer_bytes(all) == match peer_bytes(all.skip(2 * i as int)) {
                Ok(rest) => Ok(key@ + rest),
                Err(x) => Err::<Seq<u8>, u8>(x),
            },
        decreases 32 - i,
    {
        let ghost tail = all.skip(2 * i as int);
        assert(tail[0] == bytes@[2 * i as int] && tail[1] == bytes@[2 * i + 1]);
        assert(tail.skip(2) =~= all.skip(2 * (i + 1) as int));
        let hi = match hex_value(bytes[2 * i]) {
            Ok(v) => v,
            Err(e) => return Err(e),
        };
        let lo = match hex_value(bytes[2 * i + 1]) {
            Ok(v) => v,
            Err(e) => return Err(e),
        };
        let ghost before = key@;
        key.push(hi * 16 + lo);
        proof {
            if let Ok(rest) = peer_bytes(all.skip(2 * (i + 1) as int)) {
                assert(before + (seq![(hi * 16 + lo) as u8] + rest) =~= key@ + rest);
            }
        }
        i = i + 1;
    }
    assert(all.skip(64) =~= Seq::<u8>::empty());
    assert(key@ + Seq::<u8>::empty() =~= key@);
    Ok(key)
}

} // verus!
