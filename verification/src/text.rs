//! Character classes, UTF-8 conversion and decimal/hex text used across the crate.

use vstd::prelude::*;
use vstd::utf8::*;

verus! {

/// The Unicode `White_Space` property, as `char::is_whitespace` documents it.
pub open spec fn is_ws(c: char) -> bool {
    let u = c as u32;
    (0x9 <= u && u <= 0xd) || u == 0x20 || u == 0x85 || u == 0xa0 || u == 0x1680
        || (0x2000 <= u && u <= 0x200a) || u == 0x2028 || u == 0x2029 || u == 0x202f
        || u == 0x205f || u == 0x3000
}

/// The Unicode general category `Cc`, as `char::is_control` documents it.
pub open spec fn is_ctrl(c: char) -> bool {
    let u = c as u32;
    u <= 0x1f || (0x7f <= u && u <= 0x9f)
}

pub fn char_is_whitespace(c: char) -> (b: bool)
    ensures
        b == is_ws(c),
{
    let u = c as u32;
    (0x9 <= u && u <= 0xd) || u == 0x20 || u == 0x85 || u == 0xa0 || u == 0x1680 || (0x2000 <= u
        && u <= 0x200a) || u == 0x2028 || u == 0x2029 || u == 0x202f || u == 0x205f || u == 0x3000
}

pub fn char_is_control(c: char) -> (b: bool)
    ensures
        b == is_ctrl(c),
{
    let u = c as u32;
    u <= 0x1f || (0x7f <= u && u <= 0x9f)
}

/// The characters of a string slice, in order.
pub fn str_chars(s: &str) -> (res: Vec<char>)
    ensures
        res@ == s@,
{
    broadcast use vstd::string::group_string_axioms;

    let mut res: Vec<char> = Vec::new();
    for c in it: s.chars()
        invariant
            it.seq() == s@,
            res@ == it.seq().take(it.index() as int),
    {
        res.push(c);
    }
    assert(res@ =~= s@);
    res
}

/// Appends one character (`String::push`).
#[verifier::external_body]
pub(crate) fn push_char(s: &mut String, c: char)
    ensures
        final(s)@ == old(s)@.push(c),
{
    s.push(c);
}

/// A string holding exactly the given characters.
pub fn string_from_chars(v: &[char]) -> (s: String)
    ensures
        s@ == v@,
{
    let mut s = String::new();
    let mut i: usize = 0;
    while i < v.len()
        invariant
            i <= v.len(),
            s@ == v@.take(i as int),
        decreases v.len() - i,
    {
        push_char(&mut s, v[i]);
        i = i + 1;
        assert(s@ =~= v@.take(i as int));
    }
    assert(v@.take(i as int) =~= v@);
    s
}

/// `std::str::from_utf8`: the text the bytes encode, when they are valid UTF-8.
#[verifier::external_body]
pub(crate) fn str_from_utf8(bytes: &[u8]) -> (res: Option<&str>)
    ensures
        res is Some <==> valid_utf8(bytes@),
        res matches Some(s) ==> s@ == decode_utf8(bytes@),
{
    std::str::from_utf8(bytes).ok()
}

/// What `String::from_utf8_lossy` yields for a byte sequence: invalid
/// sequences become U+FFFD.
pub uninterp spec fn lossy_utf8(bytes: Seq<u8>) -> Seq<char>;

/// `String::from_utf8_lossy`: the text of the bytes with every invalid
/// sequence replaced by U+FFFD. Valid UTF-8 decodes exactly; how invalid
/// sequences are split into replacement characters is left unstated.
#[verifier::external_body]
pub(crate) fn utf8_lossy(bytes: &[u8]) -> (s: String)
    ensures
        s@ == lossy_utf8(bytes@),
        valid_utf8(bytes@) ==> s@ == decode_utf8(bytes@),
{
    String::from_utf8_lossy(bytes).into_owned()
}

pub open spec fn digit_char(d: nat) -> char {
    if d < 10 {
        ((d + 48) as u32) as char
    } else {
        (((d - 10) + 97) as u32) as char
    }
}

/// Base-10 rendering of a natural number, as `Display` writes it.
pub open spec fn decimal(n: nat) -> Seq<char>
    decreases n,
{
    if n < 10 {
        seq![digit_char(n)]
    } else {
        decimal(n / 10).push(digit_char(n % 10))
    }
}

/// Lowercase base-16 rendering, as `{:x}` writes it.
pub open spec fn hex_lower(n: nat) -> Seq<char>
    decreases n,
{
    if n < 16 {
        seq![digit_char(n)]
    } else {
        hex_lower(n / 16).push(digit_char(n % 16))
    }
}

/// `s` left-padded with `'0'` to at least `width` characters.
pub open spec fn zero_pad(s: Seq<char>, width: nat) -> Seq<char> {
    if s.len() >= width {
        s
    } else {
        Seq::new((width - s.len()) as nat, |i: int| '0') + s
    }
}

fn digit(d: u64) -> (c: char)
    requires
        d < 16,
    ensures
        c == digit_char(d as nat),
{
    if d < 10 {
        ((d + 48) as u8) as char
    } else {
        ((d - 10 + 97) as u8) as char
    }
}

/// Appends the decimal rendering of `n`.
pub fn push_decimal(out: &mut Vec<char>, n: u64)
    ensures
        final(out)@ == old(out)@ + decimal(n as nat),
    decreases n,
{
    if n < 10 {
        out.push(digit(n));
        assert(decimal(n as nat) == seq![digit_char(n as nat)]);
    } else {
        push_decimal(out, n / 10);
        out.push(digit(n % 10));
        assert(decimal(n as nat) == decimal((n / 10) as nat).push(digit_char((n % 10) as nat)));
    }
}

/// Appends the lowercase hexadecimal rendering of `n`.
pub fn push_hex(out: &mut Vec<char>, n: u64)
    ensures
        final(out)@ == old(out)@ + hex_lower(n as nat),
    decreases n,
{
    if n < 16 {
        out.push(digit(n));
        assert(hex_lower(n as nat) == seq![digit_char(n as nat)]);
    } else {
        push_hex(out, n / 16);
        out.push(digit(n % 16));
        assert(hex_lower(n as nat) == hex_lower((n / 16) as nat).push(digit_char((n % 16) as nat)));
    }
}

/// The decimal rendering of `n`.
pub fn decimal_string(n: u64) -> (s: String)
    ensures
        s@ == decimal(n as nat),
{
    let mut v: Vec<char> = Vec::new();
    push_decimal(&mut v, n);
    assert(v@ =~= decimal(n as nat));
    string_from_chars(v.as_slice())
}

pub open spec fn is_digit(c: char) -> bool {
    '0' <= c && c <= '9'
}

pub open spec fn all_digits(s: Seq<char>) -> bool {
    forall|i: int| 0 <= i < s.len() ==> is_digit(#[trigger] s[i])
}

/// The number that a run of decimal digits denotes.
pub open spec fn digits_value(s: Seq<char>) -> nat
    decreases s.len(),
{
    if s.len() == 0 {
        0
    } else {
        digits_value(s.drop_last()) * 10 + ((s.last() as u32) - 48) as nat
    }
}

/// What `str::parse` yields for an unsigned integer type whose largest value
/// is `max`: an optional `+` and at least one ASCII digit, in range.
pub open spec fn parse_unsigned_spec(s: Seq<char>, max: nat) -> Option<nat> {
    let body = if s.len() > 0 && s[0] == '+' {
        s.drop_first()
    } else {
        s
    };
    if body.len() > 0 && all_digits(body) && digits_value(body) <= max {
        Some(digits_value(body))
    } else {
        None
    }
}

proof fn lemma_digits_value_monotone(s: Seq<char>, i: int)
    requires
        all_digits(s),
        0 <= i <= s.len(),
    ensures
        digits_value(s.take(i)) <= digits_value(s),
    decreases s.len() - i,
{
    if i < s.len() {
        lemma_digits_value_monotone(s, i + 1);
        assert(s.take(i + 1).drop_last() =~= s.take(i));
        assert(digits_value(s.take(i + 1)) == digits_value(s.take(i)) * 10 + ((s[i] as u32)
            - 48) as nat);
    } else {
        assert(s.take(i) =~= s);
    }
}

/// Parses an unsigned decimal the way `str::parse` does for an unsigned
/// integer type whose largest value is `max`.
pub fn parse_unsigned(s: &[char], max: u64) -> (res: Option<u64>)
    ensures
        res matches Some(v) ==> parse_unsigned_spec(s@, max as nat) == Some(v as nat),
        res is None ==> parse_unsigned_spec(s@, max as nat) is None,
{
    let start: usize = if s.len() > 0 && s[0] == '+' {
        1
    } else {
        0
    };
    let ghost body = if s@.len() > 0 && s@[0] == '+' {
        s@.drop_first()
    } else {
        s@
    };
    assert(body =~= s@.subrange(start as int, s@.len() as int));
    if start >= s.len() {
        return None;
    }
    let mut value: u64 = 0;
    let mut i = start;
    while i < s.len()
        invariant
            start <= i <= s.len(),
            body =~= s@.subrange(start as int, s@.len() as int),
            body == (if s@.len() > 0 && s@[0] == '+' {
                s@.drop_first()
            } else {
                s@
            }),
            all_digits(body.take(i - start)),
            value as nat == digits_value(body.take(i - start)),
            value <= max,
        decreases s.len() - i,
    {
        let c = s[i];
        if !('0' <= c && c <= '9') {
            assert(body[i - start] == c);
            assert(!is_digit(body[i - start]));
            assert(!all_digits(body));
            return None;
        }
        let d = (c as u32 - 48) as u64;
        assert(body.take(i + 1 - start).drop_last() =~= body.take(i - start));
        assert(body.take(i + 1 - start).last() == c);
        if d > max || value > (max - d) / 10 {
            proof {
                assert(value * 10 + d > max) by (nonlinear_arith)
                    requires
                        d > max || value > (max - d) / 10,
                ;
                if all_digits(body) {
                    lemma_digits_value_monotone(body, i + 1 - start);
                    assert(digits_value(body.take(i + 1 - start)) == value * 10 + d);
                    assert(digits_value(body) > max);
                }
            }
            return None;
        }
        assert(value * 10 + d <= max) by (nonlinear_arith)
            requires
                d <= max,
                value <= (max - d) / 10,
        ;
        value = value * 10 + d;
        i = i + 1;
        assert(all_digits(body.take(i - start)));
    }
    assert(body.take(i - start) =~= body);
    Some(value)
}

/// Appends the characters of `s`.
pub fn push_str(out: &mut Vec<char>, s: &str)
    ensures
        final(out)@ == old(out)@ + s@,
{
    let mut v = str_chars(s);
    out.append(&mut v);
}

/// Appends the characters of `s`.
pub fn push_chars(out: &mut Vec<char>, s: &[char])
    ensures
        final(out)@ == old(out)@ + s@,
{
    let mut v = vstd::slice::slice_to_vec(s);
    out.append(&mut v);
}

/// The UTF-8 encoding of the characters.
pub fn chars_to_utf8(v: &[char]) -> (b: Vec<u8>)
    ensures
        b@ == encode_utf8(v@),
{
    let s = string_from_chars(v);
    vstd::slice::slice_to_vec(s.as_str().as_bytes())
}

/// What `{:?}` writes for a string: the text quoted, with escapes.
pub uninterp spec fn debug_str(s: Seq<char>) -> Seq<char>;

/// `format!("{:?}", s)`, the `Debug` form of a string. Stated only through
/// the name `debug_str`: the escaping rules are std's.
#[verifier::external_body]
pub(crate) fn debug_quoted(s: &str) -> (r: String)
    ensures
        r@ == debug_str(s@),
{
    format!("{:?}", s)
}

/// Decimal text of a signed number, with a leading `-` when negative.
pub open spec fn signed_text(n: int) -> Seq<char> {
    if n < 0 {
        seq!['-'] + decimal((-n) as nat)
    } else {
        decimal(n as nat)
    }
}

/// Appends the decimal text of `n` (`Display` for `i32`).
pub fn push_i32_text(out: &mut Vec<char>, n: i32)
    ensures
        final(out)@ == old(out)@ + signed_text(n as int),
{
    let ghost start = out@;
    if n < 0 {
        out.push('-');
        let m: i64 = -(n as i64);
        push_decimal(out, m as u64);
        assert(out@ =~= start + signed_text(n as int));
    } else {
        push_decimal(out, n as u64);
    }
}

/// What `{:?}` writes for a character: the character quoted, with escapes.
pub uninterp spec fn debug_char(c: char) -> Seq<char>;

/// `format!("{:?}", c)`, the `Debug` form of a character. Stated only
/// through the name `debug_char`: the escaping rules are std's.
#[verifier::external_body]
pub(crate) fn debug_quoted_char(c: char) -> (r: String)
    ensures
        r@ == debug_char(c),
{
    format!("{:?}", c)
}

} // verus!
