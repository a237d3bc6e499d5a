//! Why an encoded response frames its body: the head's blank line is the
//! first one in the bytes, so a reader that splits at the first blank line
//! gets the head and the body back exactly.

use vstd::prelude::*;
use vstd::utf8::*;
use crate::text::{decimal, digit_char};
use super::request::{blank_line_at, blank_line_from, header_end_of};
use super::response::{HttpStatus, StaticResponse, header_lines, response_tail, without_crlf};

verus! {

/// No carriage return or line feed.
pub open spec fn crlf_free(s: Seq<char>) -> bool {
    forall|i: int| 0 <= i < s.len() ==> s[i] != '\r' && s[i] != '\n'
}

pub open spec fn no_cr_lf_bytes(b: Seq<u8>) -> bool {
    forall|i: int| 0 <= i < b.len() ==> b[i] != 13u8 && b[i] != 10u8
}

pub open spec fn no_blank_line(b: Seq<u8>) -> bool {
    forall|j: int| !blank_line_at(b, j)
}

/// Bytes that end a header line's text: no blank line in them, and a last
/// byte that is neither a carriage return nor a line feed.
pub open spec fn line_text(b: Seq<u8>) -> bool {
    &&& b.len() > 0
    &&& no_blank_line(b)
    &&& b.last() != 13u8
    &&& b.last() != 10u8
}

proof fn lemma_encode_concat(a: Seq<char>, b: Seq<char>)
    ensures
        encode_utf8(a + b) == encode_utf8(a) + encode_utf8(b),
    decreases a.len(),
{
    if a.len() == 0 {
        assert(a + b =~= b);
        assert(encode_utf8(a) =~= Seq::<u8>::empty());
        assert(encode_utf8(a) + encode_utf8(b) =~= encode_utf8(b));
    } else {
        lemma_encode_concat(a.drop_first(), b);
        assert((a + b).drop_first() =~= a.drop_first() + b);
        assert((a + b)[0] == a[0]);
        assert(encode_utf8(a + b) =~= encode_scalar(a[0] as u32) + encode_utf8(a.drop_first() + b));
        assert(encode_utf8(a) =~= encode_scalar(a[0] as u32) + encode_utf8(a.drop_first()));
    }
}

proof fn lemma_scalar_without_crlf(c: char)
    requires
        c != '\r',
        c != '\n',
    ensures
        encode_scalar(c as u32).len() > 0,
        no_cr_lf_bytes(encode_scalar(c as u32)),
{
    let v = c as u32;
    broadcast use char_is_scalar;
    assert(is_scalar(v));
    if v == 13 {
        assert((13u32 as char) == '\r');
        assert(c == (v as char));
    }
    if v == 10 {
        assert((10u32 as char) == '\n');
        assert(c == (v as char));
    }
    if has_width_1_encoding(v) {
        assert((v & 0x7F) as u8 == v as u8) by (bit_vector)
            requires
                v <= 0x7F,
        ;
        assert(leading_byte_width_1(v) != 13u8 && leading_byte_width_1(v) != 10u8) by (bit_vector)
            requires
                v <= 0x7F,
                v != 13,
                v != 10,
        ;
    } else if has_width_2_encoding(v) {
        assert(leading_byte_width_2(v) >= 0x80u8) by (bit_vector);
        assert(last_continuation_byte(v) >= 0x80u8) by (bit_vector);
    } else if has_width_3_encoding(v) {
        assert(leading_byte_width_3(v) >= 0x80u8) by (bit_vector);
        assert(second_last_continuation_byte(v) >= 0x80u8) by (bit_vector);
        assert(last_continuation_byte(v) >= 0x80u8) by (bit_vector);
    } else {
        assert(leading_byte_width_4(v) >= 0x80u8) by (bit_vector);
        assert(third_last_continuation_byte(v) >= 0x80u8) by (bit_vector);
        assert(second_last_continuation_byte(v) >= 0x80u8) by (bit_vector);
        assert(last_continuation_byte(v) >= 0x80u8) by (bit_vector);
    }
}

proof fn lemma_encode_without_crlf(s: Seq<char>)
    requires
        crlf_free(s),
    ensures
        no_cr_lf_bytes(encode_utf8(s)),
        s.len() > 0 ==> encode_utf8(s).len() > 0,
    decreases s.len(),
{
    if s.len() > 0 {
        lemma_scalar_without_crlf(s[0]);
        lemma_encode_without_crlf(s.drop_first());
        let a = encode_scalar(s[0] as u32);
        let b = encode_utf8(s.drop_first());
        assert(encode_utf8(s) == a + b);
        assert forall|i: int| 0 <= i < (a + b).len() implies (a + b)[i] != 13u8 && (a + b)[i]
            != 10u8 by {
            if i < a.len() {
                assert((a + b)[i] == a[i]);
            } else {
                assert((a + b)[i] == b[i - a.len()]);
            }
        }
    }
}

proof fn lemma_encode_crlf()
    ensures
        encode_utf8("\r\n"@) == seq![13u8, 10u8],
{
    reveal_strlit("\r\n");
    let s = "\r\n"@;
    assert(s =~= seq!['\r', '\n']);
    assert(('\r' as u32) == 13u32);
    assert(('\n' as u32) == 10u32);
    assert((13u32 & 0x7F) as u8 == 13u8) by (bit_vector);
    assert((10u32 & 0x7F) as u8 == 10u8) by (bit_vector);
    let t = s.drop_first();
    assert(t =~= seq!['\n']);
    assert(t.drop_first() =~= Seq::<char>::empty());
    assert(encode_utf8(t.drop_first()) =~= Seq::<u8>::empty());
    assert(encode_scalar(10u32) =~= seq![10u8]);
    assert(encode_scalar(13u32) =~= seq![13u8]);
    assert(encode_utf8(t) == encode_scalar(t[0] as u32) + encode_utf8(t.drop_first()));
    assert(encode_utf8(t) =~= seq![10u8]);
    assert(encode_utf8(s) == encode_scalar(s[0] as u32) + encode_utf8(t));
    assert(encode_utf8(s) =~= seq![13u8, 10u8]);
}

proof fn lemma_line_start(y: Seq<u8>)
    requires
        y.len() > 0,
        no_cr_lf_bytes(y),
    ensures
        line_text(y),
{
    assert forall|j: int| !blank_line_at(y, j) by {
        if blank_line_at(y, j) {
            assert(y[j] == 13u8);
        }
    }
    assert(y.last() == y[y.len() - 1]);
}

proof fn lemma_line_extend(b: Seq<u8>, y: Seq<u8>)
    requires
        line_text(b),
        y.len() > 0,
        no_cr_lf_bytes(y),
    ensures
        line_text(b + seq![13u8, 10u8] + y),
{
    let c = b + seq![13u8, 10u8] + y;
    let n = b.len() as int;
    assert(c.len() == n + 2 + y.len());
    assert forall|i: int| 0 <= i < n implies c[i] == b[i] by {}
    assert(c[n] == 13u8 && c[n + 1] == 10u8);
    assert forall|i: int| n + 2 <= i < c.len() implies c[i] == y[i - n - 2] by {}
    assert forall|j: int| !blank_line_at(c, j) by {
        if blank_line_at(c, j) {
            if j + 4 <= n {
                assert(b[j] == c[j] && b[j + 1] == c[j + 1] && b[j + 2] == c[j + 2] && b[j + 3]
                    == c[j + 3]);
                assert(blank_line_at(b, j));
            } else if j <= n - 1 {
                assert(c[n - 1] == b.last());
                assert(j <= n - 1 <= j + 3);
            } else if j == n {
                assert(c[n + 2] == y[0]);
            } else if j == n + 1 {
                assert(c[n + 1] == 10u8);
            } else {
                assert(c[j] == y[j - n - 2]);
            }
        }
    }
    assert(c.last() == y.last());
}

/// A line break and then `x`.
pub open spec fn seg(x: Seq<char>) -> Seq<char> {
    "\r\n"@ + x
}

proof fn lemma_text_extend(p: Seq<char>, x: Seq<char>)
    requires
        line_text(encode_utf8(p)),
        crlf_free(x),
        x.len() > 0,
    ensures
        line_text(encode_utf8(p + seg(x))),
{
    lemma_encode_concat(p, seg(x));
    lemma_encode_concat("\r\n"@, x);
    lemma_encode_crlf();
    lemma_encode_without_crlf(x);
    assert(encode_utf8(p + seg(x)) =~= encode_utf8(p) + seq![13u8, 10u8] + encode_utf8(x));
    lemma_line_extend(encode_utf8(p), encode_utf8(x));
}

/// The text of a header line: name, `: `, value.
pub open spec fn header_text(h: (&'static str, String)) -> Seq<char> {
    h.0@ + ": "@ + h.1@
}

/// The header lines, each after a line break.
pub open spec fn headers_joined(hs: Seq<(&'static str, String)>) -> Seq<char>
    decreases hs.len(),
{
    if hs.len() == 0 {
        Seq::empty()
    } else {
        headers_joined(hs.drop_last()) + seg(header_text(hs.last()))
    }
}

/// A header whose name and value hold no line break.
pub open spec fn header_ok(h: (&'static str, String)) -> bool {
    crlf_free(h.0@) && crlf_free(h.1@)
}

proof fn lemma_colon_space()
    ensures
        crlf_free(": "@),
        ": "@.len() == 2,
{
    reveal_strlit(": ");
}

proof fn lemma_header_text_ok(h: (&'static str, String))
    requires
        header_ok(h),
    ensures
        crlf_free(header_text(h)),
        header_text(h).len() > 0,
{
    lemma_colon_space();
    let t = header_text(h);
    assert forall|i: int| 0 <= i < t.len() implies t[i] != '\r' && t[i] != '\n' by {
        let a = h.0@;
        let b = ": "@;
        if i < a.len() {
            assert(t[i] == a[i]);
        } else if i < a.len() + 2 {
            assert(t[i] == b[i - a.len()]);
        } else {
            assert(t[i] == h.1@[i - a.len() - 2]);
        }
    }
}

proof fn lemma_headers_extend(p: Seq<char>, hs: Seq<(&'static str, String)>)
    requires
        line_text(encode_utf8(p)),
        forall|i: int| 0 <= i < hs.len() ==> header_ok(#[trigger] hs[i]),
    ensures
        line_text(encode_utf8(p + headers_joined(hs))),
    decreases hs.len(),
{
    if hs.len() == 0 {
        assert(p + headers_joined(hs) =~= p);
    } else {
        let init = hs.drop_last();
        assert forall|i: int| 0 <= i < init.len() implies header_ok(#[trigger] init[i]) by {
            assert(init[i] == hs[i]);
        }
        lemma_headers_extend(p, init);
        assert(hs.last() == hs[hs.len() - 1]);
        lemma_header_text_ok(hs.last());
        lemma_text_extend(p + headers_joined(init), header_text(hs.last()));
        assert(p + headers_joined(hs) =~= (p + headers_joined(init)) + seg(header_text(hs.last())));
    }
}

proof fn lemma_header_lines_joined(hs: Seq<(&'static str, String)>)
    ensures
        "\r\n"@ + header_lines(hs) == headers_joined(hs) + "\r\n"@,
    decreases hs.len(),
{
    reveal_strlit(": ");
    reveal_strlit("\r\n");
    if hs.len() == 0 {
        assert("\r\n"@ + header_lines(hs) =~= headers_joined(hs) + "\r\n"@);
    } else {
        lemma_header_lines_joined(hs.drop_last());
        let h = hs.last();
        assert("\r\n"@ + header_lines(hs) =~= ("\r\n"@ + header_lines(hs.drop_last())) + h.0@
            + ": "@ + h.1@ + "\r\n"@);
        assert(headers_joined(hs) + "\r\n"@ =~= (headers_joined(hs.drop_last()) + "\r\n"@) + h.0@
            + ": "@ + h.1@ + "\r\n"@);
    }
}

proof fn lemma_decimal_free(n: nat)
    ensures
        crlf_free(decimal(n)),
        decimal(n).len() > 0,
    decreases n,
{
    if n < 10 {
        let c = digit_char(n);
        assert(c == ((n + 48) as u32) as char);
        assert((c as u32) == n + 48);
        assert(decimal(n) =~= seq![c]);
    } else {
        lemma_decimal_free(n / 10);
        let c = digit_char(n % 10);
        assert((c as u32) == (n % 10) + 48);
        let d = decimal(n);
        assert(d == decimal(n / 10).push(c));
        assert forall|i: int| 0 <= i < d.len() implies d[i] != '\r' && d[i] != '\n' by {
            if i < d.len() - 1 {
                assert(d[i] == decimal(n / 10)[i]);
            }
        }
    }
}

proof fn lemma_status_line_free(status: HttpStatus)
    ensures
        crlf_free(status.line()),
{
    reveal_strlit("200 OK");
    reveal_strlit("400 Bad Request");
    reveal_strlit("409 Conflict");
    reveal_strlit("403 Forbidden");
    reveal_strlit("404 Not Found");
    reveal_strlit("405 Method Not Allowed");
    reveal_strlit("501 Not Implemented");
    reveal_strlit("500 Internal Server Error");
    reveal_strlit("503 Service Unavailable");
}

proof fn lemma_concat_free(a: Seq<char>, b: Seq<char>)
    requires
        crlf_free(a),
        crlf_free(b),
    ensures
        crlf_free(a + b),
{
    assert forall|i: int| 0 <= i < (a + b).len() implies (a + b)[i] != '\r' && (a + b)[i]
        != '\n' by {
        if i < a.len() {
            assert((a + b)[i] == a[i]);
        } else {
            assert((a + b)[i] == b[i - a.len()]);
        }
    }
}

proof fn lemma_fixed_texts_free()
    ensures
        crlf_free("HTTP/1.1 "@),
        crlf_free("Content-Length: "@),
        crlf_free("Content-Type: "@),
        crlf_free("Cross-Origin-Opener-Policy: same-origin"@),
        crlf_free("Cross-Origin-Embedder-Policy: require-corp"@),
        crlf_free("Access-Control-Allow-Origin: *"@),
        crlf_free("Connection: close"@),
        "Cross-Origin-Opener-Policy: same-origin"@.len() > 0,
        "Cross-Origin-Embedder-Policy: require-corp"@.len() > 0,
        "Access-Control-Allow-Origin: *"@.len() > 0,
        "Connection: close"@.len() > 0,
{
    reveal_strlit("HTTP/1.1 ");
    reveal_strlit("Content-Length: ");
    reveal_strlit("Content-Type: ");
    reveal_strlit("Cross-Origin-Opener-Policy: same-origin");
    reveal_strlit("Cross-Origin-Embedder-Policy: require-corp");
    reveal_strlit("Access-Control-Allow-Origin: *");
    reveal_strlit("Connection: close");
}

/// A response whose content type and headers hold no line break.
pub open spec fn well_framed(r: StaticResponse) -> bool {
    &&& crlf_free(r.content_type@)
    &&& forall|i: int| 0 <= i < r.headers@.len() ==> header_ok(#[trigger] r.headers@[i])
}

/// The head up to, not including, its closing blank line.
pub open spec fn head_lines(r: StaticResponse) -> Seq<char> {
    "HTTP/1.1 "@ + r.status.line() + seg("Content-Length: "@ + decimal(r.body@.len()))
        + seg("Content-Type: "@ + r.content_type@) + headers_joined(r.headers@) + seg(
        "Cross-Origin-Opener-Policy: same-origin"@,
    ) + seg("Cross-Origin-Embedder-Policy: require-corp"@) + seg(
        "Access-Control-Allow-Origin: *"@,
    ) + seg("Connection: close"@)
}

proof fn lemma_head_shape(r: StaticResponse)
    ensures
        r.head() == head_lines(r) + "\r\n\r\n"@,
{
    reveal_strlit("\r\n");
    reveal_strlit("\r\n\r\n");
    reveal_strlit("\r\nContent-Length: ");
    reveal_strlit("Content-Length: ");
    reveal_strlit("\r\nContent-Type: ");
    reveal_strlit("Content-Type: ");
    reveal_strlit("Cross-Origin-Opener-Policy: same-origin");
    reveal_strlit("Cross-Origin-Embedder-Policy: require-corp");
    reveal_strlit("Access-Control-Allow-Origin: *");
    reveal_strlit("Connection: close");
    reveal_strlit(
        "Cross-Origin-Opener-Policy: same-origin\r\nCross-Origin-Embedder-Policy: require-corp\r\nAccess-Control-Allow-Origin: *\r\nConnection: close\r\n\r\n",
    );
    lemma_header_lines_joined(r.headers@);
    let hj = headers_joined(r.headers@);
    assert("\r\n"@ + response_tail() =~= seg("Cross-Origin-Opener-Policy: same-origin"@) + seg(
        "Cross-Origin-Embedder-Policy: require-corp"@,
    ) + seg("Access-Control-Allow-Origin: *"@) + seg("Connection: close"@) + "\r\n\r\n"@);
    assert(r.head() =~= "HTTP/1.1 "@ + r.status.line() + seg(
        "Content-Length: "@ + decimal(r.body@.len()),
    ) + seg("Content-Type: "@ + r.content_type@) + ("\r\n"@ + header_lines(r.headers@))
        + response_tail());
    assert(r.head() =~= head_lines(r) + "\r\n\r\n"@);
}

proof fn lemma_head_lines_text(r: StaticResponse)
    requires
        well_framed(r),
    ensures
        line_text(encode_utf8(head_lines(r))),
{
    lemma_fixed_texts_free();
    lemma_status_line_free(r.status);
    lemma_decimal_free(r.body@.len());
    let a0 = "HTTP/1.1 "@ + r.status.line();
    lemma_concat_free("HTTP/1.1 "@, r.status.line());
    reveal_strlit("HTTP/1.1 ");
    lemma_encode_without_crlf(a0);
    lemma_line_start(encode_utf8(a0));
    let a1 = "Content-Length: "@ + decimal(r.body@.len());
    lemma_concat_free("Content-Length: "@, decimal(r.body@.len()));
    lemma_text_extend(a0, a1);
    let a2 = "Content-Type: "@ + r.content_type@;
    lemma_concat_free("Content-Type: "@, r.content_type@);
    reveal_strlit("Content-Type: ");
    let p2 = a0 + seg(a1) + seg(a2);
    lemma_text_extend(a0 + seg(a1), a2);
    lemma_headers_extend(p2, r.headers@);
    let p3 = p2 + headers_joined(r.headers@);
    let t0 = "Cross-Origin-Opener-Policy: same-origin"@;
    let t1 = "Cross-Origin-Embedder-Policy: require-corp"@;
    let t2 = "Access-Control-Allow-Origin: *"@;
    let t3 = "Connection: close"@;
    lemma_text_extend(p3, t0);
    lemma_text_extend(p3 + seg(t0), t1);
    lemma_text_extend(p3 + seg(t0) + seg(t1), t2);
    lemma_text_extend(p3 + seg(t0) + seg(t1) + seg(t2), t3);
    assert(head_lines(r) =~= p3 + seg(t0) + seg(t1) + seg(t2) + seg(t3));
}

proof fn lemma_first_blank_from(b: Seq<u8>, from: int, k: int)
    requires
        0 <= from <= k,
        blank_line_at(b, k),
        forall|j: int| from <= j < k ==> !blank_line_at(b, j),
    ensures
        blank_line_from(b, from) == Some(k),
    decreases k - from,
{
    if from < k {
        lemma_first_blank_from(b, from + 1, k);
    }
}

/// An encoded response frames its body: the first blank line of its bytes
/// is the one that closes its head, so a reader that splits there (as
/// `header_end` does) gets the head and then exactly the body back. This
/// holds of every response whose content type and headers hold no line
/// break; `with_header` drops them from the values it adds.
pub proof fn lemma_encoded_response_frames_body(r: StaticResponse)
    requires
        well_framed(r),
    ensures
        ({
            let head = encode_utf8(r.head());
            let bytes = head + r.body@;
            &&& header_end_of(bytes) == Some(head.len() - 4)
            &&& bytes.take(head.len() as int) == head
            &&& bytes.skip(head.len() as int) == r.body@
        }),
{
    lemma_head_shape(r);
    lemma_head_lines_text(r);
    let p = encode_utf8(head_lines(r));
    reveal_strlit("\r\n\r\n");
    reveal_strlit("\r\n");
    assert("\r\n\r\n"@ =~= "\r\n"@ + "\r\n"@);
    lemma_encode_crlf();
    lemma_encode_concat("\r\n"@, "\r\n"@);
    lemma_encode_concat(head_lines(r), "\r\n\r\n"@);
    let head = encode_utf8(r.head());
    assert(head =~= p + seq![13u8, 10u8, 13u8, 10u8]);
    let bytes = head + r.body@;
    let n = p.len() as int;
    assert(blank_line_at(bytes, n));
    assert forall|j: int| 0 <= j < n implies !blank_line_at(bytes, j) by {
        if blank_line_at(bytes, j) {
            if j + 4 <= n {
                assert(p[j] == bytes[j] && p[j + 1] == bytes[j + 1] && p[j + 2] == bytes[j + 2]
                    && p[j + 3] == bytes[j + 3]);
                assert(blank_line_at(p, j));
            } else {
                assert(bytes[n - 1] == p.last());
            }
        }
    }
    lemma_first_blank_from(bytes, 0, n);
    assert(bytes.take(head.len() as int) =~= head);
    assert(bytes.skip(head.len() as int) =~= r.body@);
}

/// `without_crlf` leaves no line break, so a header added by
/// `with_header` keeps a response well framed.
pub proof fn lemma_header_value_has_no_line_break(s: Seq<char>)
    ensures
        crlf_free(without_crlf(s)),
    decreases s.len(),
{
    if s.len() > 0 {
        lemma_header_value_has_no_line_break(s.drop_last());
        let t = without_crlf(s.drop_last());
        if !(s.last() == '\r' || s.last() == '\n') {
            let u = t.push(s.last());
            assert forall|i: int| 0 <= i < u.len() implies u[i] != '\r' && u[i] != '\n' by {
                if i < t.len() {
                    assert(u[i] == t[i]);
                }
            }
        }
    }
}

} // verus!
