//! Which paths under a served root changed between two scans of it.
//!
//! A scan (walking the directory and reading each entry's metadata) is the
//! caller's I/O; it hands the tracker each entry as its wanix path and
//! signature. The tracker keeps the last scan and reports, in text order and
//! once each, every path that appeared, disappeared or whose signature
//! changed.

use vstd::prelude::*;
use crate::seqs::chars_eq;
use crate::text::{str_chars, push_str, string_from_chars};
use crate::volume::{text_le, lemma_text_le_total, lemma_text_le_trans, chars_le, strictly_sorted};
use crate::http::routes::{path_to_url_relative, slash_joined};

verus! {

/// What kind of directory entry a path names.
#[derive(Debug, Clone, Copy, PartialEq, Eq, Structural)]
pub enum EntryKind {
    Directory,
    File,
    Symlink,
    Other,
}

/// What a scan records of an entry: its kind, length and modification time.
#[derive(Debug, Clone, Copy, PartialEq, Eq, Structural)]
pub struct EntrySignature {
    pub kind: EntryKind,
    pub len: u64,
    pub modified_nanos: u128,
}

/// The path a scan reports for an entry: `/` and the entry's components
/// below the root, joined by `/`.
pub fn wanix_path(components: &[String]) -> (r: String)
    ensures
        r@ == seq!['/'] + slash_joined(components.deep_view()),
{
    let rest = path_to_url_relative(components);
    let mut out: Vec<char> = Vec::new();
    out.push('/');
    push_str(&mut out, rest.as_str());
    string_from_chars(out.as_slice())
}

pub open spec fn entry_view(e: (String, EntrySignature)) -> (Seq<char>, EntrySignature) {
    (e.0@, e.1)
}

/// A scan as a map from path to signature; of two entries for one path the
/// later one counts.
pub open spec fn scan_map(s: Seq<(Seq<char>, EntrySignature)>) -> Map<Seq<char>, EntrySignature>
    decreases s.len(),
{
    if s.len() == 0 {
        Map::empty()
    } else {
        scan_map(s.drop_last()).insert(s.last().0, s.last().1)
    }
}

/// A path changed between two scans when it is in one and not the other,
/// or in both with different signatures.
pub open spec fn changed_between(
    before: Map<Seq<char>, EntrySignature>,
    after: Map<Seq<char>, EntrySignature>,
    p: Seq<char>,
) -> bool {
    if after.contains_key(p) {
        !before.contains_key(p) || before[p] != after[p]
    } else {
        before.contains_key(p)
    }
}

/// Remembers the last scan of a root.
#[derive(Debug)]
pub struct RootChangeTracker {
    snapshot: Vec<(String, EntrySignature)>,
}

impl View for RootChangeTracker {
    type V = Map<Seq<char>, EntrySignature>;

    closed spec fn view(&self) -> Map<Seq<char>, EntrySignature> {
        scan_map(self.snapshot@.map_values(|e: (String, EntrySignature)| entry_view(e)))
    }
}

pub proof fn lemma_text_le_antisymmetric(a: Seq<char>, b: Seq<char>)
    requires
        text_le(a, b),
        text_le(b, a),
    ensures
        a == b,
    decreases a.len(),
{
    if a.len() > 0 && b.len() > 0 {
        lemma_text_le_antisymmetric(a.drop_first(), b.drop_first());
        assert(a =~= seq![a[0]] + a.drop_first());
        assert(b =~= seq![b[0]] + b.drop_first());
    }
}

proof fn lemma_scan_map_push(s: Seq<(Seq<char>, EntrySignature)>, i: int)
    requires
        0 <= i < s.len(),
    ensures
        scan_map(s.take(i + 1)) == scan_map(s.take(i)).insert(s[i].0, s[i].1),
{
    assert(s.take(i + 1).drop_last() =~= s.take(i));
}

proof fn lemma_scan_map_dom(s: Seq<(Seq<char>, EntrySignature)>, p: Seq<char>)
    ensures
        scan_map(s).contains_key(p) <==> exists|j: int| 0 <= j < s.len() && #[trigger] s[j].0 == p,
    decreases s.len(),
{
    if s.len() > 0 {
        let t = s.drop_last();
        lemma_scan_map_dom(t, p);
        if scan_map(t).contains_key(p) {
            let j = choose|j: int| 0 <= j < t.len() && #[trigger] t[j].0 == p;
            assert(s[j] == t[j]);
        }
        if exists|j: int| 0 <= j < s.len() && #[trigger] s[j].0 == p {
            let j = choose|j: int| 0 <= j < s.len() && #[trigger] s[j].0 == p;
            if j < s.len() - 1 {
                assert(t[j] == s[j]);
            }
        }
    }
}

/// The signature the scan gives a path, if it holds the path.
fn lookup(entries: &Vec<(String, EntrySignature)>, path: &str) -> (r: Option<EntrySignature>)
    ensures
        ({
            let m = scan_map(entries@.map_values(|e: (String, EntrySignature)| entry_view(e)));
            match r {
                Some(sig) => m.contains_key(path@) && m[path@] == sig,
                None => !m.contains_key(path@),
            }
        }),
{
    let ghost s = entries@.map_values(|e: (String, EntrySignature)| entry_view(e));
    let p = str_chars(path);
    let mut found: Option<EntrySignature> = None;
    let mut i: usize = 0;
    assert(s.take(0) =~= Seq::<(Seq<char>, EntrySignature)>::empty());
    while i < entries.len()
        invariant
            i <= entries.len(),
            p@ == path@,
            s == entries@.map_values(|e: (String, EntrySignature)| entry_view(e)),
            match found {
                Some(sig) => scan_map(s.take(i as int)).contains_key(path@) && scan_map(
                    s.take(i as int),
                )[path@] == sig,
                None => !scan_map(s.take(i as int)).contains_key(path@),
            },
        decreases entries.len() - i,
    {
        proof {
            lemma_scan_map_push(s, i as int);
        }
        let k = str_chars(entries[i].0.as_str());
        if chars_eq(k.as_slice(), p.as_slice()) {
            found = Some(entries[i].1);
        }
        i = i + 1;
    }
    assert(s.take(i as int) =~= s);
    found
}

/// Whether a path occurs among the listed ones.
fn listed(out: &Vec<String>, path: &[char]) -> (r: bool)
    ensures
        r == out.deep_view().contains(path@),
{
    let mut i: usize = 0;
    while i < out.len()
        invariant
            i <= out.len(),
            forall|j: int| 0 <= j < i ==> out.deep_view()[j] != path@,
        decreases out.len() - i,
    {
        if chars_eq(str_chars(out[i].as_str()).as_slice(), path) {
            assert(out.deep_view()[i as int] == path@);
            return true;
        }
        i = i + 1;
    }
    false
}

/// Adds a path to a strictly sorted list, keeping it strictly sorted; a path
/// already there is not added again.
fn insert_path(out: &mut Vec<String>, path: &str)
    requires
        strictly_sorted(old(out).deep_view()),
    ensures
        strictly_sorted(final(out).deep_view()),
        forall|q: Seq<char>|
            final(out).deep_view().contains(q) <==> (old(out).deep_view().contains(q) || q
                == path@),
{
    let x = str_chars(path);
    let ghost ov = out.deep_view();
    let mut p: usize = 0;
    while p < out.len() && chars_le(str_chars(out[p].as_str()).as_slice(), x.as_slice())
        && !chars_eq(str_chars(out[p].as_str()).as_slice(), x.as_slice())
        invariant
            p <= out.len(),
            ov == out.deep_view(),
            x@ == path@,
            forall|k: int| 0 <= k < p ==> text_le(ov[k], x@) && ov[k] != x@,
        decreases out.len() - p,
    {
        p = p + 1;
    }
    if p < out.len() && chars_eq(str_chars(out[p].as_str()).as_slice(), x.as_slice()) {
        assert(ov[p as int] == path@);
        return;
    }
    proof {
        if p < out.len() {
            lemma_text_le_total(ov[p as int], x@);
            assert(text_le(x@, ov[p as int]) && ov[p as int] != x@);
        }
        let s = ov.insert(p as int, x@);
        assert forall|a: int, b: int| 0 <= a < b < s.len() implies text_le(
            #[trigger] s[a],
            #[trigger] s[b],
        ) && s[a] != s[b] by {
            if b < p {
                assert(s[a] == ov[a] && s[b] == ov[b]);
            } else if b == p {
                assert(s[a] == ov[a] && s[b] == x@);
            } else if a == p {
                assert(s[b] == ov[b - 1]);
                if b - 1 > p {
                    lemma_text_le_trans(x@, ov[p as int], ov[b - 1]);
                    if x@ == ov[b - 1] {
                        lemma_text_le_antisymmetric(x@, ov[p as int]);
                    }
                }
            } else if a < p {
                assert(s[a] == ov[a] && s[b] == ov[b - 1]);
                lemma_text_le_trans(ov[a], x@, ov[p as int]);
                if b - 1 > p {
                    lemma_text_le_trans(ov[a], ov[p as int], ov[b - 1]);
                }
                if ov[a] == ov[b - 1] {
                    if b - 1 > p {
                        lemma_text_le_trans(ov[p as int], ov[b - 1], x@);
                    }
                    lemma_text_le_antisymmetric(x@, ov[p as int]);
                }
            } else {
                assert(s[a] == ov[a - 1] && s[b] == ov[b - 1]);
            }
        }
        assert forall|q: Seq<char>| s.contains(q) <==> (ov.contains(q) || q == path@) by {
            if s.contains(q) {
                let k = choose|k: int| 0 <= k < s.len() && s[k] == q;
                if k < p {
                    assert(ov[k] == q);
                } else if k > p {
                    assert(ov[k - 1] == q);
                }
            }
            if ov.contains(q) {
                let k = choose|k: int| 0 <= k < ov.len() && ov[k] == q;
                if k < p {
                    assert(s[k] == q);
                } else {
                    assert(s[k + 1] == q);
                }
            }
            if q == path@ {
                assert(s[p as int] == q);
            }
        }
    }
    let ghost before = out.deep_view();
    out.insert(p, path.to_owned());
    assert(out.deep_view() =~= before.insert(p as int, x@));
}

impl RootChangeTracker {
    /// A tracker whose last scan is `snapshot`.
    pub fn new(snapshot: Vec<(String, EntrySignature)>) -> (r: Self)
        ensures
            r@ == scan_map(snapshot@.map_values(|e: (String, EntrySignature)| entry_view(e))),
    {
        RootChangeTracker { snapshot }
    }

    /// Takes a new scan and reports the paths that changed since the last
    /// one, in text order and once each; the new scan is kept.
    pub fn take_changed_paths(&mut self, next: Vec<(String, EntrySignature)>) -> (r: Vec<String>)
        ensures
            final(self)@ == scan_map(next@.map_values(|e: (String, EntrySignature)| entry_view(e))),
            strictly_sorted(r.deep_view()),
            forall|p: Seq<char>|
                r.deep_view().contains(p) <==> changed_between(old(self)@, final(self)@, p),
    {
        let ghost before = self@;
        let ghost ns = next@.map_values(|e: (String, EntrySignature)| entry_view(e));
        let ghost os = self.snapshot@.map_values(|e: (String, EntrySignature)| entry_view(e));
        let ghost after = scan_map(ns);
        let mut out: Vec<String> = Vec::new();
        let mut i: usize = 0;
        while i < next.len()
            invariant
                i <= next.len(),
                ns == next@.map_values(|e: (String, EntrySignature)| entry_view(e)),
                after == scan_map(ns),
                before == scan_map(os),
                os == self.snapshot@.map_values(|e: (String, EntrySignature)| entry_view(e)),
                strictly_sorted(out.deep_view()),
                forall|p: Seq<char>|
                    out.deep_view().contains(p) <==> (changed_between(before, after, p) && exists|
                        j: int,
                    | 0 <= j < i && #[trigger] ns[j].0 == p),
            decreases next.len() - i,
        {
            let path = next[i].0.as_str();
            let now = lookup(&next, path);
            let was = lookup(&self.snapshot, path);
            let differs = match (was, now) {
                (Some(a), Some(b)) => a != b,
                (None, Some(_)) => true,
                _ => false,
            };
            let ghost ov = out.deep_view();
            proof {
                assert(ns[i as int].0 == path@);
                lemma_scan_map_dom(ns, path@);
            }
            if differs {
                insert_path(&mut out, path);
            }
            proof {
                assert forall|p: Seq<char>|
                    out.deep_view().contains(p) <==> (changed_between(before, after, p) && exists|
                        j: int,
                    | 0 <= j < i + 1 && #[trigger] ns[j].0 == p) by {
                    if exists|j: int| 0 <= j < i + 1 && #[trigger] ns[j].0 == p {
                        let j = choose|j: int| 0 <= j < i + 1 && #[trigger] ns[j].0 == p;
                        if j < i {
                            assert(exists|j2: int| 0 <= j2 < i && #[trigger] ns[j2].0 == p);
                        }
                    }
                    if exists|j: int| 0 <= j < i && #[trigger] ns[j].0 == p {
                        let j = choose|j: int| 0 <= j < i && #[trigger] ns[j].0 == p;
                        assert(0 <= j < i + 1 && ns[j].0 == p);
                    }
                }
            }
            i = i + 1;
        }
        let mut k: usize = 0;
        while k < self.snapshot.len()
            invariant
                k <= self.snapshot.len(),
                i == next.len(),
                ns == next@.map_values(|e: (String, EntrySignature)| entry_view(e)),
                after == scan_map(ns),
                before == scan_map(os),
                os == self.snapshot@.map_values(|e: (String, EntrySignature)| entry_view(e)),
                strictly_sorted(out.deep_view()),
                forall|p: Seq<char>|
                    out.deep_view().contains(p) <==> (changed_between(before, after, p) && ((exists|
                        j: int,
                    | 0 <= j < next.len() && #[trigger] ns[j].0 == p) || (exists|j: int|
                        0 <= j < k && #[trigger] os[j].0 == p))),
            decreases self.snapshot.len() - k,
        {
            let path = self.snapshot[k].0.as_str();
            let now = lookup(&next, path);
            proof {
                assert(os[k as int].0 == path@);
                lemma_scan_map_dom(os, path@);
                lemma_scan_map_dom(ns, path@);
            }
            if now.is_none() {
                insert_path(&mut out, path);
            }
            proof {
                assert forall|p: Seq<char>|
                    out.deep_view().contains(p) <==> (changed_between(before, after, p) && ((exists|
                        j: int,
                    | 0 <= j < next.len() && #[trigger] ns[j].0 == p) || (exists|j: int|
                        0 <= j < k + 1 && #[trigger] os[j].0 == p))) by {
                    if exists|j: int| 0 <= j < k + 1 && #[trigger] os[j].0 == p {
                        let j = choose|j: int| 0 <= j < k + 1 && #[trigger] os[j].0 == p;
                        if j < k {
                            assert(exists|j2: int| 0 <= j2 < k && #[trigger] os[j2].0 == p);
                        } else {
                            lemma_scan_map_dom(ns, p);
                        }
                    }
                    if exists|j: int| 0 <= j < k && #[trigger] os[j].0 == p {
                        let j = choose|j: int| 0 <= j < k && #[trigger] os[j].0 == p;
                        assert(0 <= j < k + 1 && os[j].0 == p);
                    }
                }
            }
            k = k + 1;
        }
        proof {
            assert forall|p: Seq<char>|
                out.deep_view().contains(p) <==> changed_between(before, after, p) by {
                lemma_scan_map_dom(ns, p);
                lemma_scan_map_dom(os, p);
            }
        }
        self.snapshot = next;
        out
    }
}

/// Nothing is reported when a scan finds the root as the last scan left it:
/// a path changes only against a different scan.
pub proof fn lemma_same_scan_reports_nothing(m: Map<Seq<char>, EntrySignature>, p: Seq<char>)
    ensures
        !changed_between(m, m, p),
{
}

} // verus!
