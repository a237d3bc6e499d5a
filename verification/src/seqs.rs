//! Text-processing specifications over character sequences, with the
//! executable routines that follow them: line splitting, whitespace
//! tokenizing, trimming, separator splitting and ASCII case folding.

use vstd::prelude::*;
use crate::text::{is_ws, char_is_whitespace};

verus! {

/// Index of the first `c` in `s`, or `s.len()` when there is none.
pub open spec fn index_of(s: Seq<char>, c: char) -> int
    decreases s.len(),
{
    if s.len() == 0 {
        0
    } else if s[0] == c {
        0
    } else {
        1 + index_of(s.drop_first(), c)
    }
}

pub proof fn lemma_index_of(s: Seq<char>, c: char, i: int)
    requires
        0 <= i <= s.len(),
        forall|j: int| 0 <= j < i ==> s[j] != c,
        i == s.len() || s[i] == c,
    ensures
        index_of(s, c) == i,
    decreases s.len(),
{
    if s.len() > 0 && i > 0 {
        assert forall|j: int| 0 <= j < i - 1 implies s.drop_first()[j] != c by {
            assert(s.drop_first()[j] == s[j + 1]);
        }
        lemma_index_of(s.drop_first(), c, i - 1);
    }
}

pub proof fn lemma_index_of_bounds(s: Seq<char>, c: char)
    ensures
        0 <= index_of(s, c) <= s.len(),
        forall|j: int| 0 <= j < index_of(s, c) ==> s[j] != c,
        index_of(s, c) < s.len() ==> s[index_of(s, c)] == c,
    decreases s.len(),
{
    if s.len() > 0 && s[0] != c {
        lemma_index_of_bounds(s.drop_first(), c);
        assert forall|j: int| 0 <= j < index_of(s, c) implies s[j] != c by {
            if j > 0 {
                assert(s[j] == s.drop_first()[j - 1]);
            }
        }
    }
}

/// Position of the first `c` in `s` (`str::find` for one character).
pub fn find_char(s: &[char], c: char) -> (r: usize)
    ensures
        r as int == index_of(s@, c),
        r <= s.len(),
{
    let mut i: usize = 0;
    while i < s.len() && s[i] != c
        invariant
            i <= s.len(),
            forall|j: int| 0 <= j < i ==> s@[j] != c,
        decreases s.len() - i,
    {
        i = i + 1;
    }
    proof {
        lemma_index_of(s@, c, i as int);
    }
    i
}

/// `s` without one trailing carriage return.
pub open spec fn strip_cr(s: Seq<char>) -> Seq<char> {
    if s.len() > 0 && s.last() == '\r' {
        s.drop_last()
    } else {
        s
    }
}

/// `str::lines`: pieces between `\n`, each losing a `\r` that stood right
/// before its `\n`; a final line ending adds no empty line.
pub open spec fn lines(s: Seq<char>) -> Seq<Seq<char>>
    decreases s.len(),
{
    if s.len() == 0 {
        seq![]
    } else {
        let k = index_of(s, '\n');
        proof {
            lemma_index_of_bounds(s, '\n');
        }
        if k >= s.len() {
            seq![s]
        } else {
            seq![strip_cr(s.take(k))] + lines(s.skip(k + 1))
        }
    }
}

/// The first line of `s` (`s.lines().next()`).
pub open spec fn first_line(s: Seq<char>) -> Option<Seq<char>> {
    if lines(s).len() == 0 {
        None
    } else {
        Some(lines(s)[0])
    }
}

fn slice_to_vec_chars(s: &[char], from: usize, to: usize) -> (res: Vec<char>)
    requires
        from <= to <= s.len(),
    ensures
        res@ == s@.subrange(from as int, to as int),
{
    let mut res: Vec<char> = Vec::new();
    let mut i = from;
    while i < to
        invariant
            from <= i <= to <= s.len(),
            res@ == s@.subrange(from as int, i as int),
        decreases to - i,
    {
        res.push(s[i]);
        i = i + 1;
        assert(res@ =~= s@.subrange(from as int, i as int));
    }
    res
}

/// The characters of `s` from `from` to `to`.
pub fn sub_chars(s: &[char], from: usize, to: usize) -> (res: Vec<char>)
    requires
        from <= to <= s.len(),
    ensures
        res@ == s@.subrange(from as int, to as int),
{
    slice_to_vec_chars(s, from, to)
}

/// Every line of `s`, as `str::lines` yields them.
pub fn split_lines(s: &[char]) -> (res: Vec<Vec<char>>)
    ensures
        res.deep_view() == lines(s@),
{
    let mut res: Vec<Vec<char>> = Vec::new();
    let mut start: usize = 0;
    proof {
        assert(s@.skip(0) =~= s@);
    }
    while start < s.len()
        invariant
            start <= s.len(),
            lines(s@) == res.deep_view() + lines(s@.skip(start as int)),
        decreases s.len() - start,
    {
        let rest = sub_chars(s, start, s.len());
        assert(rest@ =~= s@.skip(start as int));
        let k = find_char(rest.as_slice(), '\n');
        let ghost old_res = res.deep_view();
        if k >= rest.len() {
            assert(rest.deep_view() =~= rest@);
            res.push(rest);
            proof {
                assert(lines(rest@) == seq![rest@]);
                assert(res.deep_view() =~= old_res.push(rest@));
                assert(s@.skip(s.len() as int) =~= Seq::<char>::empty());
                assert(lines(s@.skip(s.len() as int)) == Seq::<Seq<char>>::empty());
                assert(lines(s@) =~= res.deep_view() + lines(s@.skip(s.len() as int)));
            }
            start = s.len();
        } else {
            let mut line = sub_chars(rest.as_slice(), 0, k);
            if k > 0 && line[k - 1] == '\r' {
                line.pop();
            }
            proof {
                assert(line@ == strip_cr(rest@.take(k as int)));
                assert(rest@.skip(k + 1) =~= s@.skip(start + k + 1));
                assert(lines(rest@) == seq![line@] + lines(rest@.skip(k + 1)));
            }
            assert(line.deep_view() =~= line@);
            res.push(line);
            proof {
                assert(res.deep_view() =~= old_res.push(line@));
                assert(lines(s@) =~= res.deep_view() + lines(s@.skip(start + k + 1)));
            }
            start = start + k + 1;
        }
    }
    proof {
        assert(s@.skip(start as int) =~= Seq::<char>::empty());
        assert(lines(s@) =~= res.deep_view());
    }
    res
}

/// State of a left-to-right whitespace tokenizer after reading `s`:
/// the finished tokens and the token being read.
pub open spec fn ws_scan(s: Seq<char>) -> (Seq<Seq<char>>, Seq<char>)
    decreases s.len(),
{
    if s.len() == 0 {
        (seq![], seq![])
    } else {
        let prev = ws_scan(s.drop_last());
        let c = s.last();
        if is_ws(c) {
            if prev.1.len() > 0 {
                (prev.0.push(prev.1), seq![])
            } else {
                prev
            }
        } else {
            (prev.0, prev.1.push(c))
        }
    }
}

/// `str::split_whitespace`: the maximal runs of non-whitespace characters.
pub open spec fn ws_tokens(s: Seq<char>) -> Seq<Seq<char>> {
    let st = ws_scan(s);
    if st.1.len() > 0 {
        st.0.push(st.1)
    } else {
        st.0
    }
}

/// The whitespace-separated tokens of `s`, in order.
pub fn split_whitespace(s: &[char]) -> (res: Vec<Vec<char>>)
    ensures
        res.deep_view() == ws_tokens(s@),
{
    let mut res: Vec<Vec<char>> = Vec::new();
    let mut cur: Vec<char> = Vec::new();
    let mut i: usize = 0;
    while i < s.len()
        invariant
            i <= s.len(),
            ws_scan(s@.take(i as int)) == (res.deep_view(), cur@),
        decreases s.len() - i,
    {
        let c = s[i];
        assert(s@.take(i + 1).drop_last() =~= s@.take(i as int));
        assert(s@.take(i + 1).last() == c);
        if char_is_whitespace(c) {
            if cur.len() > 0 {
                let ghost old_res = res.deep_view();
                let token = cur;
                assert(token.deep_view() =~= token@);
                res.push(token);
                assert(res.deep_view() =~= old_res.push(token@));
                cur = Vec::new();
                assert(cur@ =~= Seq::<char>::empty());
            }
        } else {
            cur.push(c);
        }
        i = i + 1;
    }
    assert(s@.take(i as int) =~= s@);
    if cur.len() > 0 {
        let ghost old_res = res.deep_view();
        let token = cur;
        assert(token.deep_view() =~= token@);
        res.push(token);
        assert(res.deep_view() =~= old_res.push(token@));
    }
    res
}

/// `s` without leading whitespace.
pub open spec fn trim_start(s: Seq<char>) -> Seq<char>
    decreases s.len(),
{
    if s.len() > 0 && is_ws(s[0]) {
        trim_start(s.drop_first())
    } else {
        s
    }
}

/// `s` without trailing whitespace.
pub open spec fn trim_end(s: Seq<char>) -> Seq<char>
    decreases s.len(),
{
    if s.len() > 0 && is_ws(s.last()) {
        trim_end(s.drop_last())
    } else {
        s
    }
}

/// `str::trim`.
pub open spec fn trim(s: Seq<char>) -> Seq<char> {
    trim_end(trim_start(s))
}

proof fn lemma_trim_start_skip(s: Seq<char>, i: int)
    requires
        0 <= i <= s.len(),
        forall|j: int| 0 <= j < i ==> is_ws(#[trigger] s[j]),
    ensures
        trim_start(s) == trim_start(s.skip(i)),
    decreases i,
{
    if i > 0 {
        assert forall|j: int| 0 <= j < i - 1 implies is_ws(#[trigger] s.drop_first()[j]) by {
            assert(s.drop_first()[j] == s[j + 1]);
        }
        lemma_trim_start_skip(s.drop_first(), i - 1);
        assert(s.drop_first().skip(i - 1) =~= s.skip(i));
    } else {
        assert(s.skip(0) =~= s);
    }
}

proof fn lemma_trim_end_take(s: Seq<char>, i: int)
    requires
        0 <= i <= s.len(),
        forall|j: int| i <= j < s.len() ==> is_ws(#[trigger] s[j]),
    ensures
        trim_end(s) == trim_end(s.take(i)),
    decreases s.len() - i,
{
    if i < s.len() {
        assert forall|j: int| i <= j < s.len() - 1 implies is_ws(#[trigger] s.drop_last()[j]) by {
            assert(s.drop_last()[j] == s[j]);
        }
        lemma_trim_end_take(s.drop_last(), i);
        assert(s.drop_last().take(i) =~= s.take(i));
    } else {
        assert(s.take(i) =~= s);
    }
}

/// `str::trim`: `s` without leading and trailing whitespace.
pub fn trim_chars(s: &[char]) -> (res: Vec<char>)
    ensures
        res@ == trim(s@),
{
    let mut lo: usize = 0;
    while lo < s.len() && char_is_whitespace(s[lo])
        invariant
            lo <= s.len(),
            forall|j: int| 0 <= j < lo ==> is_ws(#[trigger] s@[j]),
        decreases s.len() - lo,
    {
        lo = lo + 1;
    }
    proof {
        lemma_trim_start_skip(s@, lo as int);
    }
    let mut hi: usize = s.len();
    while hi > lo && char_is_whitespace(s[hi - 1])
        invariant
            lo <= hi <= s.len(),
            forall|j: int| hi <= j < s.len() ==> is_ws(#[trigger] s@[j]),
        decreases hi - lo,
    {
        hi = hi - 1;
    }
    let res = sub_chars(s, lo, hi);
    proof {
        let t = s@.skip(lo as int);
        assert(trim_start(t) == t);
        assert forall|j: int| hi - lo <= j < t.len() implies is_ws(#[trigger] t[j]) by {
            assert(t[j] == s@[j + lo]);
        }
        lemma_trim_end_take(t, hi - lo);
        assert(t.take(hi - lo) =~= s@.subrange(lo as int, hi as int));
        let u = t.take(hi - lo);
        if u.len() > 0 {
            assert(u.last() == s@[hi - 1]);
        }
        assert(trim_end(u) == u);
    }
    res
}

pub open spec fn ascii_lower(c: char) -> char {
    if 'A' <= c && c <= 'Z' {
        ((c as u32) + 32) as char
    } else {
        c
    }
}

/// `str::eq_ignore_ascii_case`.
pub open spec fn eq_ignore_ascii_case(a: Seq<char>, b: Seq<char>) -> bool {
    a.len() == b.len() && forall|i: int| 0 <= i < a.len() ==> ascii_lower(#[trigger] a[i])
        == ascii_lower(b[i])
}

pub fn char_ascii_lower(c: char) -> (r: char)
    ensures
        r == ascii_lower(c),
{
    if 'A' <= c && c <= 'Z' {
        ((c as u32 + 32) as u8) as char
    } else {
        c
    }
}

pub fn chars_eq_ignore_ascii_case(a: &[char], b: &[char]) -> (r: bool)
    ensures
        r == eq_ignore_ascii_case(a@, b@),
{
    if a.len() != b.len() {
        return false;
    }
    let mut i: usize = 0;
    while i < a.len()
        invariant
            i <= a.len() == b.len(),
            forall|j: int| 0 <= j < i ==> ascii_lower(#[trigger] a@[j]) == ascii_lower(b@[j]),
        decreases a.len() - i,
    {
        if char_ascii_lower(a[i]) != char_ascii_lower(b[i]) {
            return false;
        }
        i = i + 1;
    }
    true
}

pub fn chars_eq(a: &[char], b: &[char]) -> (r: bool)
    ensures
        r == (a@ == b@),
{
    if a.len() != b.len() {
        return false;
    }
    let mut i: usize = 0;
    while i < a.len()
        invariant
            i <= a.len() == b.len(),
            forall|j: int| 0 <= j < i ==> a@[j] == b@[j],
        decreases a.len() - i,
    {
        if a[i] != b[i] {
            return false;
        }
        i = i + 1;
    }
    assert(a@ =~= b@);
    true
}

/// `str::starts_with`.
pub open spec fn starts_with(s: Seq<char>, p: Seq<char>) -> bool {
    p.len() <= s.len() && s.take(p.len() as int) == p
}

pub fn chars_starts_with(s: &[char], p: &[char]) -> (r: bool)
    ensures
        r == starts_with(s@, p@),
{
    if p.len() > s.len() {
        return false;
    }
    let mut i: usize = 0;
    while i < p.len()
        invariant
            i <= p.len() <= s.len(),
            forall|j: int| 0 <= j < i ==> s@[j] == p@[j],
        decreases p.len() - i,
    {
        if s[i] != p[i] {
            assert(s@.take(p.len() as int)[i as int] != p@[i as int]);
            return false;
        }
        i = i + 1;
    }
    assert(s@.take(p.len() as int) =~= p@);
    true
}

/// `str::split` on one character: the pieces between occurrences of `c`.
pub open spec fn split_char(s: Seq<char>, c: char) -> Seq<Seq<char>>
    decreases s.len(),
{
    let k = index_of(s, c);
    if k >= s.len() {
        seq![s]
    } else {
        proof {
            lemma_index_of_bounds(s, c);
        }
        seq![s.take(k)] + split_char(s.skip(k + 1), c)
    }
}

/// The pieces of `s` between occurrences of `c`.
pub fn split_on(s: &[char], c: char) -> (res: Vec<Vec<char>>)
    ensures
        res.deep_view() == split_char(s@, c),
{
    let mut res: Vec<Vec<char>> = Vec::new();
    let mut start: usize = 0;
    proof {
        assert(s@.skip(0) =~= s@);
    }
    loop
        invariant
            start <= s.len(),
            split_char(s@, c) == res.deep_view() + split_char(s@.skip(start as int), c),
        decreases s.len() - start,
    {
        let rest = sub_chars(s, start, s.len());
        assert(rest@ =~= s@.skip(start as int));
        let k = find_char(rest.as_slice(), c);
        let ghost old_res = res.deep_view();
        if k >= rest.len() {
            assert(rest.deep_view() =~= rest@);
            res.push(rest);
            assert(res.deep_view() =~= old_res.push(rest@));
            assert(split_char(s@, c) =~= res.deep_view());
            return res;
        }
        let piece = sub_chars(rest.as_slice(), 0, k);
        assert(piece@ =~= rest@.take(k as int));
        assert(rest@.skip(k + 1) =~= s@.skip(start + k + 1));
        assert(piece.deep_view() =~= piece@);
        res.push(piece);
        assert(res.deep_view() =~= old_res.push(piece@));
        assert(split_char(s@, c) =~= res.deep_view() + split_char(s@.skip(start + k + 1), c));
        start = start + k + 1;
    }
}

/// `s` up to its first `c` (`s.split_once(c).map_or(s, |(a, _)| a)`).
pub open spec fn before_char(s: Seq<char>, c: char) -> Seq<char> {
    s.take(index_of(s, c))
}

pub fn chars_before(s: &[char], c: char) -> (res: Vec<char>)
    ensures
        res@ == before_char(s@, c),
{
    let k = find_char(s, c);
    sub_chars(s, 0, k)
}

/// The first `Some` that `f` yields over `s`, in order (`Iterator::find_map`).
pub open spec fn find_first<A, B>(s: Seq<A>, f: spec_fn(A) -> Option<B>) -> Option<B>
    decreases s.len(),
{
    if s.len() == 0 {
        None
    } else {
        match f(s[0]) {
            Some(b) => Some(b),
            None => find_first(s.drop_first(), f),
        }
    }
}

pub proof fn lemma_find_first_step<A, B>(s: Seq<A>, f: spec_fn(A) -> Option<B>, i: int)
    requires
        0 <= i < s.len(),
    ensures
        find_first(s.skip(i), f) == (match f(s[i]) {
            Some(b) => Some(b),
            None => find_first(s.skip(i + 1), f),
        }),
{
    assert(s.skip(i)[0] == s[i]);
    assert(s.skip(i).drop_first() =~= s.skip(i + 1));
}

} // verus!
