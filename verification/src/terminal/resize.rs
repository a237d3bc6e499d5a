//! Resize requests from the browser: `{"type":"resize","columns":C,"rows":R}`
//! or the plain text `resize C R`, with both sizes non-zero `u16` values.

use vstd::prelude::*;
use crate::text::{is_ws, is_digit, parse_unsigned_spec, parse_unsigned, char_is_whitespace, str_chars, push_str};
use crate::seqs::{ws_tokens, split_whitespace, chars_eq};

verus! {

/// `s` without any whitespace.
pub open spec fn strip_ws(s: Seq<char>) -> Seq<char>
    decreases s.len(),
{
    if s.len() == 0 {
        s
    } else if is_ws(s.last()) {
        strip_ws(s.drop_last())
    } else {
        strip_ws(s.drop_last()).push(s.last())
    }
}

/// `m` occurs in `s` at `i`.
pub open spec fn occurs_at(s: Seq<char>, m: Seq<char>, i: int) -> bool {
    0 <= i && i + m.len() <= s.len() && s.subrange(i, i + m.len()) == m
}

/// The first position at or after `from` where `m` occurs in `s` (`str::find`).
pub open spec fn find_from(s: Seq<char>, m: Seq<char>, from: int) -> Option<int>
    decreases s.len() + 1 - from,
{
    if from < 0 || from + m.len() > s.len() {
        None
    } else if occurs_at(s, m, from) {
        Some(from)
    } else {
        find_from(s, m, from + 1)
    }
}

pub proof fn lemma_find_from(s: Seq<char>, m: Seq<char>, from: int)
    ensures
        find_from(s, m, from) matches Some(i) ==> from <= i && occurs_at(s, m, i),
    decreases s.len() + 1 - from,
{
    if !(from < 0 || from + m.len() > s.len()) && !occurs_at(s, m, from) {
        lemma_find_from(s, m, from + 1);
    }
}

/// The run of ASCII digits that `s` starts with.
pub open spec fn leading_digits(s: Seq<char>) -> Seq<char>
    decreases s.len(),
{
    if s.len() == 0 || !is_digit(s[0]) {
        Seq::empty()
    } else {
        seq![s[0]] + leading_digits(s.drop_first())
    }
}

/// The value of `"field":N` in compact JSON text: the first occurrence of
/// the key, then its digits, read as a non-zero `u16`.
pub open spec fn json_u16_of(compact: Seq<char>, field: Seq<char>) -> Option<u16> {
    let marker = seq!['"'] + field + seq!['"', ':'];
    match find_from(compact, marker, 0) {
        None => None,
        Some(i) => {
            let digits = leading_digits(compact.skip(i + marker.len()));
            match parse_unsigned_spec(digits, 65535) {
                Some(v) => if digits.len() > 0 && v != 0 {
                    Some(v as u16)
                } else {
                    None
                },
                None => None,
            }
        },
    }
}

/// A JSON resize request: the compact text holds `"type":"resize"` and both
/// sizes.
pub open spec fn resize_json_of(text: Seq<char>) -> Option<(u16, u16)> {
    let compact = strip_ws(text);
    if find_from(compact, "\"type\":\"resize\""@, 0) is None {
        None
    } else {
        match (json_u16_of(compact, "columns"@), json_u16_of(compact, "rows"@)) {
            (Some(c), Some(r)) => Some((c, r)),
            _ => None,
        }
    }
}

/// A text resize request: exactly `resize`, then two non-zero `u16` values.
pub open spec fn resize_text_of(text: Seq<char>) -> Option<(u16, u16)> {
    let t = ws_tokens(text);
    if t.len() == 3 && t[0] == "resize"@ {
        match (parse_unsigned_spec(t[1], 65535), parse_unsigned_spec(t[2], 65535)) {
            (Some(c), Some(r)) => if c != 0 && r != 0 {
                Some((c as u16, r as u16))
            } else {
                None
            },
            _ => None,
        }
    } else {
        None
    }
}

/// A resize request in either form, the JSON form first.
pub open spec fn resize_of(text: Seq<char>) -> Option<(u16, u16)> {
    match resize_json_of(text) {
        Some(r) => Some(r),
        None => resize_text_of(text),
    }
}

fn without_whitespace(s: &[char]) -> (r: Vec<char>)
    ensures
        r@ == strip_ws(s@),
{
    let mut r: Vec<char> = Vec::new();
    let mut i: usize = 0;
    while i < s.len()
        invariant
            i <= s.len(),
            r@ == strip_ws(s@.take(i as int)),
        decreases s.len() - i,
    {
        assert(s@.take(i + 1).drop_last() =~= s@.take(i as int));
        if !char_is_whitespace(s[i]) {
            r.push(s[i]);
        }
        i = i + 1;
    }
    assert(s@.take(i as int) =~= s@);
    r
}

fn chars_at(s: &[char], m: &[char], i: usize) -> (r: bool)
    ensures
        r == occurs_at(s@, m@, i as int),
{
    if i > s.len() || m.len() > s.len() - i {
        return false;
    }
    let mut k: usize = 0;
    while k < m.len()
        invariant
            i + m.len() <= s.len(),
            k <= m.len(),
            forall|j: int| 0 <= j < k ==> s@[i + j] == m@[j],
        decreases m.len() - k,
    {
        if s[i + k] != m[k] {
            assert(s@.subrange(i as int, i + m.len())[k as int] != m@[k as int]);
            return false;
        }
        k = k + 1;
    }
    assert(s@.subrange(i as int, i + m.len()) =~= m@);
    true
}

pub(crate) fn find_chars(s: &[char], m: &[char]) -> (r: Option<usize>)
    ensures
        match r {
            Some(i) => find_from(s@, m@, 0) == Some(i as int),
            None => find_from(s@, m@, 0) is None,
        },
{
    if m.len() > s.len() {
        return None;
    }
    let last = s.len() - m.len();
    let mut i: usize = 0;
    loop
        invariant
            i <= last,
            last + m.len() == s.len(),
            find_from(s@, m@, 0) == find_from(s@, m@, i as int),
        decreases last - i,
    {
        if chars_at(s, m, i) {
            return Some(i);
        }
        if i == last {
            assert(find_from(s@, m@, i + 1) is None);
            return None;
        }
        i = i + 1;
    }
}

fn digits_from(s: &[char], start: usize) -> (r: Vec<char>)
    requires
        start <= s.len(),
    ensures
        r@ == leading_digits(s@.skip(start as int)),
{
    let mut i = start;
    while i < s.len() && '0' <= s[i] && s[i] <= '9'
        invariant
            start <= i <= s.len(),
            forall|j: int| start <= j < i ==> is_digit(s@[j]),
        decreases s.len() - i,
    {
        i = i + 1;
    }
    let r = crate::seqs::sub_chars(s, start, i);
    proof {
        lemma_leading_digits(s@.skip(start as int), i - start);
        assert(s@.skip(start as int).take(i - start) =~= s@.subrange(start as int, i as int));
    }
    r
}

proof fn lemma_leading_digits(s: Seq<char>, k: int)
    requires
        0 <= k <= s.len(),
        forall|j: int| 0 <= j < k ==> is_digit(s[j]),
        k == s.len() || !is_digit(s[k]),
    ensures
        leading_digits(s) == s.take(k),
    decreases k,
{
    if k > 0 {
        lemma_leading_digits(s.drop_first(), k - 1);
        assert(seq![s[0]] + s.drop_first().take(k - 1) =~= s.take(k));
    } else {
        assert(s.take(0) =~= Seq::<char>::empty());
    }
}

/// The non-zero `u16` value of `"field":` in compact JSON text.
pub fn json_u16_field(compact_json: &str, field: &str) -> (r: Option<u16>)
    ensures
        r == json_u16_of(compact_json@, field@),
{
    let s = str_chars(compact_json);
    let mut marker: Vec<char> = Vec::new();
    marker.push('"');
    push_str(&mut marker, field);
    marker.push('"');
    marker.push(':');
    assert(marker@ =~= seq!['"'] + field@ + seq!['"', ':']);
    let found = find_chars(s.as_slice(), marker.as_slice());
    let i = match found {
        Some(i) => i,
        None => return None,
    };
    proof {
        lemma_find_from(s@, marker@, 0);
        assert(find_from(s@, marker@, 0) == Some(i as int));
        assert(occurs_at(s@, marker@, i as int));
        assert(i + marker@.len() <= s@.len());
    }
    let n = s.len();
    let start = i + marker.len();
    let digits = digits_from(s.as_slice(), start);
    if digits.len() == 0 {
        return None;
    }
    match parse_unsigned(digits.as_slice(), 65535) {
        Some(v) => if v != 0 {
            Some(v as u16)
        } else {
            None
        },
        None => None,
    }
}

/// A JSON resize request (see `resize_json_of`).
pub fn parse_terminal_resize_json(text: &str) -> (r: Option<(u16, u16)>)
    ensures
        r == resize_json_of(text@),
{
    let chars = str_chars(text);
    let compact = without_whitespace(chars.as_slice());
    let marker = str_chars("\"type\":\"resize\"");
    if find_chars(compact.as_slice(), marker.as_slice()).is_none() {
        return None;
    }
    let compact_text = crate::text::string_from_chars(compact.as_slice());
    let columns = match json_u16_field(compact_text.as_str(), "columns") {
        Some(c) => c,
        None => return None,
    };
    let rows = match json_u16_field(compact_text.as_str(), "rows") {
        Some(r) => r,
        None => return None,
    };
    Some((columns, rows))
}

/// A resize request in JSON or text form (see `resize_of`).
pub fn parse_terminal_resize_message(text: &str) -> (r: Option<(u16, u16)>)
    ensures
        r == resize_of(text@),
{
    if let Some(resize) = parse_terminal_resize_json(text) {
        return Some(resize);
    }
    let chars = str_chars(text);
    let parts = split_whitespace(chars.as_slice());
    let ghost t = parts.deep_view();
    let resize_word = str_chars("resize");
    if parts.len() != 3 || !chars_eq(parts[0].as_slice(), resize_word.as_slice()) {
        assert(parts.len() == 3 ==> t[0] == parts[0]@);
        return None;
    }
    assert(t[0] == parts[0]@ && t[1] == parts[1]@ && t[2] == parts[2]@);
    let columns = parse_unsigned(parts[1].as_slice(), 65535);
    let rows = parse_unsigned(parts[2].as_slice(), 65535);
    match (columns, rows) {
        (Some(c), Some(r)) => if c != 0 && r != 0 {
            Some((c as u16, r as u16))
        } else {
            None
        },
        _ => None,
    }
}

} // verus!
