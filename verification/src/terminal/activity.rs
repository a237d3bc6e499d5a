//! What a line typed into the shell is expected to change.
//!
//! The tracker follows the characters the browser sends, keeps the line being
//! edited and the shell's working directory, and turns each finished line into
//! the file operation it announces (`write`, `mkdir`, `cp`, a redirection...).
//! Paths are resolved the way the shell resolves them: against the working
//! directory, with `.` and `..` folded away, always rooted at `/`.

use vstd::prelude::*;
use crate::seqs::{split_char, split_on, trim, trim_start, trim_end, trim_chars};
use crate::text::{is_ws, is_ctrl, char_is_whitespace, char_is_control, str_chars, string_from_chars, push_chars, lossy_utf8, utf8_lossy};

verus! {

// ---------------------------------------------------------------------------
// Words of a command line
// ---------------------------------------------------------------------------

/// Scanner state while splitting a line into words: the finished words, the
/// word being built, the open quote and whether a backslash is pending.
pub type WordScan = (Seq<Seq<char>>, Seq<char>, Option<char>, bool);

/// One character of the shell's word splitting: backslash escapes the next
/// character (not inside single quotes), quotes group, unquoted whitespace
/// ends a word.
pub open spec fn word_step(st: WordScan, ch: char) -> WordScan {
    let (words, cur, quote, escaping) = st;
    if escaping {
        (words, cur.push(ch), quote, false)
    } else if ch == '\\' && quote != Some('\'') {
        (words, cur, quote, true)
    } else if quote is Some {
        if ch == quote->0 {
            (words, cur, None, false)
        } else {
            (words, cur.push(ch), quote, false)
        }
    } else if ch == '\'' || ch == '"' {
        (words, cur, Some(ch), false)
    } else if is_ws(ch) {
        if cur.len() > 0 {
            (words.push(cur), Seq::empty(), None, false)
        } else {
            (words, cur, None, false)
        }
    } else {
        (words, cur.push(ch), None, false)
    }
}

pub open spec fn word_scan(s: Seq<char>) -> WordScan
    decreases s.len(),
{
    if s.len() == 0 {
        (Seq::empty(), Seq::empty(), None, false)
    } else {
        word_step(word_scan(s.drop_last()), s.last())
    }
}

/// The words of a line; a word still open at the end is kept.
pub open spec fn shell_words_of(s: Seq<char>) -> Seq<Seq<char>> {
    let st = word_scan(s);
    if st.1.len() > 0 {
        st.0.push(st.1)
    } else {
        st.0
    }
}

/// Splits a command line into words, honouring quotes and backslashes.
pub fn shell_words(line: &str) -> (words: Vec<String>)
    ensures
        words.deep_view() == shell_words_of(line@),
{
    let chars = str_chars(line);
    let mut words: Vec<String> = Vec::new();
    let mut current: Vec<char> = Vec::new();
    let mut quote: Option<char> = None;
    let mut escaping = false;
    let mut i: usize = 0;
    assert(chars@.take(0) =~= Seq::<char>::empty());
    assert(words.deep_view() =~= Seq::<Seq<char>>::empty());
    while i < chars.len()
        invariant
            i <= chars.len(),
            chars@ == line@,
            word_scan(chars@.take(i as int)) == (words.deep_view(), current@, quote, escaping),
        decreases chars.len() - i,
    {
        let ch = chars[i];
        assert(chars@.take(i + 1).drop_last() =~= chars@.take(i as int));
        let not_single = match quote {
            Some(q) => q != '\'',
            None => true,
        };
        if escaping {
            current.push(ch);
            escaping = false;
        } else if ch == '\\' && not_single {
            escaping = true;
        } else if let Some(q) = quote {
            if ch == q {
                quote = None;
            } else {
                current.push(ch);
            }
        } else if ch == '\'' || ch == '"' {
            quote = Some(ch);
        } else if char_is_whitespace(ch) {
            if current.len() > 0 {
                let ghost before = words.deep_view();
                let word = string_from_chars(current.as_slice());
                words.push(word);
                assert(words.deep_view() =~= before.push(current@));
                current = Vec::new();
            }
        } else {
            current.push(ch);
        }
        i = i + 1;
    }
    assert(chars@.take(i as int) =~= line@);
    if current.len() > 0 {
        let ghost before = words.deep_view();
        let word = string_from_chars(current.as_slice());
        words.push(word);
        assert(words.deep_view() =~= before.push(current@));
    }
    words
}

// ---------------------------------------------------------------------------
// Resolving paths against the shell's working directory
// ---------------------------------------------------------------------------

pub open spec fn dot() -> Seq<char> {
    seq!['.']
}

pub open spec fn dot_dot() -> Seq<char> {
    seq!['.', '.']
}

/// The segments that remain once empty and `.` segments are dropped and each
/// `..` removes the segment before it (at the root it removes nothing).
pub open spec fn normalize_parts(segs: Seq<Seq<char>>) -> Seq<Seq<char>>
    decreases segs.len(),
{
    if segs.len() == 0 {
        Seq::empty()
    } else {
        let acc = normalize_parts(segs.drop_last());
        let p = segs.last();
        if p.len() == 0 || p == dot() {
            acc
        } else if p == dot_dot() {
            if acc.len() > 0 {
                acc.drop_last()
            } else {
                acc
            }
        } else {
            acc.push(p)
        }
    }
}

/// The parts joined by `/`.
pub open spec fn join_slash(parts: Seq<Seq<char>>) -> Seq<char>
    decreases parts.len(),
{
    if parts.len() == 0 {
        Seq::empty()
    } else if parts.len() == 1 {
        parts[0]
    } else {
        join_slash(parts.drop_last()) + seq!['/'] + parts.last()
    }
}

/// `/` followed by the parts joined by `/`.
pub open spec fn rooted_path(parts: Seq<Seq<char>>) -> Seq<char> {
    if parts.len() == 0 {
        seq!['/']
    } else {
        seq!['/'] + join_slash(parts)
    }
}

pub open spec fn starts_with_char(s: Seq<char>, c: char) -> bool {
    s.len() > 0 && s[0] == c
}

/// The path before normalisation: a rooted path, or any path when the working
/// directory is `.` or empty, stands alone; else it follows the directory.
pub open spec fn joined_raw(cwd: Seq<char>, path: Seq<char>) -> Seq<char> {
    if starts_with_char(path, '/') || cwd == dot() || cwd.len() == 0 {
        path
    } else {
        cwd + seq!['/'] + path
    }
}

/// Where `path` leads from `cwd`: a `#` path is a device name and is kept as
/// it is; any other path becomes a normalised path rooted at `/`.
pub open spec fn resolve_path(cwd: Seq<char>, path: Seq<char>) -> Seq<char> {
    if starts_with_char(path, '#') {
        path
    } else {
        rooted_path(normalize_parts(split_char(joined_raw(cwd, path), '/')))
    }
}

fn is_dot(s: &[char]) -> (r: bool)
    ensures
        r == (s@ == dot()),
{
    if s.len() == 1 && s[0] == '.' {
        assert(s@ =~= dot());
        true
    } else {
        false
    }
}

fn is_dot_dot(s: &[char]) -> (r: bool)
    ensures
        r == (s@ == dot_dot()),
{
    if s.len() == 2 && s[0] == '.' && s[1] == '.' {
        assert(s@ =~= dot_dot());
        true
    } else {
        assert(s@ != dot_dot()) by {
            if s@ == dot_dot() {
                assert(s@.len() == 2 && s@[0] == '.' && s@[1] == '.');
            }
        }
        false
    }
}

/// Resolves `path` against the shell working directory `cwd`.
pub fn resolve_wanix_path(cwd: &str, path: &str) -> (r: String)
    ensures
        r@ == resolve_path(cwd@, path@),
{
    let p = str_chars(path);
    if p.len() > 0 && p[0] == '#' {
        return path.to_owned();
    }
    let c = str_chars(cwd);
    let rooted = p.len() > 0 && p[0] == '/';
    let cwd_is_dot = is_dot(c.as_slice());
    let mut raw: Vec<char> = Vec::new();
    if !(rooted || cwd_is_dot || c.len() == 0) {
        push_chars(&mut raw, c.as_slice());
        raw.push('/');
    }
    push_chars(&mut raw, p.as_slice());
    assert(raw@ =~= joined_raw(cwd@, path@));
    let segs = split_on(raw.as_slice(), '/');
    let ghost sv = segs.deep_view();
    let mut parts: Vec<Vec<char>> = Vec::new();
    let mut i: usize = 0;
    assert(sv.take(0) =~= Seq::<Seq<char>>::empty());
    assert(parts.deep_view() =~= Seq::<Seq<char>>::empty());
    while i < segs.len()
        invariant
            i <= segs.len(),
            sv == segs.deep_view(),
            parts.deep_view() == normalize_parts(sv.take(i as int)),
        decreases segs.len() - i,
    {
        let seg = segs[i].as_slice();
        assert(sv.take(i + 1).drop_last() =~= sv.take(i as int));
        assert(sv.take(i + 1).last() == seg@);
        let ghost before = parts.deep_view();
        if seg.len() == 0 || is_dot(seg) {
        } else if is_dot_dot(seg) {
            if parts.len() > 0 {
                let _ = parts.pop();
                assert(parts.deep_view() =~= before.drop_last());
            }
        } else {
            let part = vstd::slice::slice_to_vec(seg);
            parts.push(part);
            assert(parts.deep_view() =~= before.push(seg@));
        }
        i = i + 1;
    }
    assert(sv.take(i as int) =~= sv);
    let ghost pv = parts.deep_view();
    let mut out: Vec<char> = Vec::new();
    out.push('/');
    let mut k: usize = 0;
    while k < parts.len()
        invariant
            k <= parts.len(),
            pv == parts.deep_view(),
            k == 0 ==> out@ == seq!['/'],
            k > 0 ==> out@ == seq!['/'] + join_slash(pv.take(k as int)),
        decreases parts.len() - k,
    {
        assert(pv.take(k + 1).drop_last() =~= pv.take(k as int));
        assert(pv.take(k + 1).last() == parts[k as int]@);
        if k > 0 {
            out.push('/');
        }
        push_chars(&mut out, parts[k].as_slice());
        proof {
            if k == 0 {
                assert(pv.take(1)[0] == parts[0]@);
                assert(out@ =~= seq!['/'] + join_slash(pv.take(1)));
            } else {
                assert(out@ =~= seq!['/'] + join_slash(pv.take(k + 1)));
            }
        }
        k = k + 1;
    }
    assert(pv.take(k as int) =~= pv);
    string_from_chars(out.as_slice())
}

// ---------------------------------------------------------------------------
// Redirections and path lists
// ---------------------------------------------------------------------------

/// `>`, `1>`, `2>`, `>>`, `1>>` or `2>>`: the path is the next word.
pub open spec fn is_redirect_op(w: Seq<char>) -> bool {
    ||| w == seq!['>']
    ||| w == seq!['1', '>']
    ||| w == seq!['2', '>']
    ||| w == seq!['>', '>']
    ||| w == seq!['1', '>', '>']
    ||| w == seq!['2', '>', '>']
}

/// A redirection glued to its path (`2>err.txt`, `>out.txt`): the path.
pub open spec fn glued_redirect(w: Seq<char>) -> Option<Seq<char>> {
    if w.len() > 2 && w[0] == '2' && w[1] == '>' {
        Some(w.skip(2))
    } else if w.len() > 1 && w[0] == '>' {
        Some(w.skip(1))
    } else {
        None
    }
}

/// Every path the words redirect output to, resolved, in order.
pub open spec fn redirect_paths(words: Seq<Seq<char>>, cwd: Seq<char>) -> Seq<Seq<char>>
    decreases words.len(),
{
    if words.len() == 0 {
        Seq::empty()
    } else if is_redirect_op(words[0]) {
        if words.len() >= 2 {
            seq![resolve_path(cwd, words[1])] + redirect_paths(words.skip(2), cwd)
        } else {
            Seq::empty()
        }
    } else {
        match glued_redirect(words[0]) {
            Some(p) => seq![resolve_path(cwd, p)] + redirect_paths(words.skip(1), cwd),
            None => redirect_paths(words.skip(1), cwd),
        }
    }
}

fn redirect_op(w: &[char]) -> (r: bool)
    ensures
        r == is_redirect_op(w@),
{
    let n = w.len();
    let r = if n == 1 {
        w[0] == '>'
    } else if n == 2 {
        (w[0] == '1' || w[0] == '2' || w[0] == '>') && w[1] == '>'
    } else if n == 3 {
        (w[0] == '1' || w[0] == '2') && w[1] == '>' && w[2] == '>'
    } else {
        false
    };
    proof {
        if r {
            if n == 1 {
                assert(w@ =~= seq!['>']);
            } else if n == 2 {
                if w[0] == '1' {
                    assert(w@ =~= seq!['1', '>']);
                } else if w[0] == '2' {
                    assert(w@ =~= seq!['2', '>']);
                } else {
                    assert(w@ =~= seq!['>', '>']);
                }
            } else {
                if w[0] == '1' {
                    assert(w@ =~= seq!['1', '>', '>']);
                } else {
                    assert(w@ =~= seq!['2', '>', '>']);
                }
            }
        } else {
            assert(w@ != seq!['>']);
            assert(w@ != seq!['1', '>']) by {
                if w@ == seq!['1', '>'] {
                    assert(w@[0] == '1' && w@[1] == '>');
                }
            }
            assert(w@ != seq!['2', '>']) by {
                if w@ == seq!['2', '>'] {
                    assert(w@[0] == '2' && w@[1] == '>');
                }
            }
            assert(w@ != seq!['>', '>']) by {
                if w@ == seq!['>', '>'] {
                    assert(w@[0] == '>' && w@[1] == '>');
                }
            }
            assert(w@ != seq!['1', '>', '>']) by {
                if w@ == seq!['1', '>', '>'] {
                    assert(w@[0] == '1' && w@[1] == '>' && w@[2] == '>');
                }
            }
            assert(w@ != seq!['2', '>', '>']) by {
                if w@ == seq!['2', '>', '>'] {
                    assert(w@[0] == '2' && w@[1] == '>' && w@[2] == '>');
                }
            }
        }
    }
    r
}

/// The resolved paths a command line redirects its output to.
pub fn shell_redirection_paths(words: &[String], cwd: &str) -> (paths: Vec<String>)
    ensures
        paths.deep_view() == redirect_paths(words.deep_view(), cwd@),
{
    let ghost wv = words.deep_view();
    let mut paths: Vec<String> = Vec::new();
    let mut index: usize = 0;
    assert(wv.skip(0) =~= wv);
    assert(paths.deep_view() + redirect_paths(wv, cwd@) =~= redirect_paths(wv, cwd@));
    while index < words.len()
        invariant
            index <= words.len(),
            wv == words.deep_view(),
            redirect_paths(wv, cwd@) == paths.deep_view() + redirect_paths(wv.skip(index as int), cwd@),
        decreases words.len() - index,
    {
        let ghost before = paths.deep_view();
        let ghost rest = wv.skip(index as int);
        assert(rest[0] == words[index as int]@);
        let w = str_chars(words[index].as_str());
        if redirect_op(w.as_slice()) {
            if index + 1 < words.len() {
                assert(rest[1] == words[index + 1]@);
                assert(rest.skip(2) =~= wv.skip(index + 2));
                let p = resolve_wanix_path(cwd, words[index + 1].as_str());
                paths.push(p);
                assert(paths.deep_view() =~= before.push(p@));
                assert(before + (seq![p@] + redirect_paths(wv.skip(index + 2), cwd@))
                    =~= paths.deep_view() + redirect_paths(wv.skip(index + 2), cwd@));
                index = index + 2;
            } else {
                assert(rest.len() < 2);
                assert(paths.deep_view() + Seq::<Seq<char>>::empty() =~= paths.deep_view());
                return paths;
            }
        } else {
            assert(rest.skip(1) =~= wv.skip(index + 1));
            let n = w.len();
            let glued: Option<usize> = if n > 2 && w[0] == '2' && w[1] == '>' {
                Some(2)
            } else if n > 1 && w[0] == '>' {
                Some(1)
            } else {
                None
            };
            if let Some(skip) = glued {
                let target = crate::seqs::sub_chars(w.as_slice(), skip, n);
                assert(target@ =~= w@.skip(skip as int));
                let target_text = string_from_chars(target.as_slice());
                let p = resolve_wanix_path(cwd, target_text.as_str());
                paths.push(p);
                assert(paths.deep_view() =~= before.push(p@));
                assert(before + (seq![p@] + redirect_paths(wv.skip(index + 1), cwd@))
                    =~= paths.deep_view() + redirect_paths(wv.skip(index + 1), cwd@));
            }
            index = index + 1;
        }
    }
    assert(wv.skip(index as int) =~= Seq::<Seq<char>>::empty());
    assert(paths.deep_view() + Seq::<Seq<char>>::empty() =~= paths.deep_view());
    paths
}

/// `paths` in order, without `#` device paths and without repeats.
pub open spec fn unique_of(paths: Seq<Seq<char>>) -> Seq<Seq<char>>
    decreases paths.len(),
{
    if paths.len() == 0 {
        Seq::empty()
    } else {
        let acc = unique_of(paths.drop_last());
        let p = paths.last();
        if starts_with_char(p, '#') || acc.contains(p) {
            acc
        } else {
            acc.push(p)
        }
    }
}

fn contains_string(v: &Vec<String>, s: &String) -> (r: bool)
    ensures
        r == v.deep_view().contains(s@),
{
    let mut i: usize = 0;
    while i < v.len()
        invariant
            i <= v.len(),
            forall|j: int| 0 <= j < i ==> v.deep_view()[j] != s@,
        decreases v.len() - i,
    {
        if v[i] == *s {
            assert(v.deep_view()[i as int] == s@);
            return true;
        }
        i = i + 1;
    }
    false
}

/// Keeps each path once, in first-seen order, and leaves out `#` paths.
pub fn unique_paths(paths: Vec<String>) -> (unique: Vec<String>)
    ensures
        unique.deep_view() == unique_of(paths.deep_view()),
{
    let ghost pv = paths.deep_view();
    let mut unique: Vec<String> = Vec::new();
    let mut i: usize = 0;
    assert(pv.take(0) =~= Seq::<Seq<char>>::empty());
    assert(unique.deep_view() =~= Seq::<Seq<char>>::empty());
    while i < paths.len()
        invariant
            i <= paths.len(),
            pv == paths.deep_view(),
            unique.deep_view() == unique_of(pv.take(i as int)),
        decreases paths.len() - i,
    {
        assert(pv.take(i + 1).drop_last() =~= pv.take(i as int));
        assert(pv.take(i + 1).last() == paths[i as int]@);
        let path = &paths[i];
        let c = str_chars(path.as_str());
        let hashed = c.len() > 0 && c[0] == '#';
        if !hashed && !contains_string(&unique, path) {
            let ghost before = unique.deep_view();
            unique.push(path.clone());
            assert(unique.deep_view() =~= before.push(path@));
        }
        i = i + 1;
    }
    assert(pv.take(i as int) =~= pv);
    unique
}

// ---------------------------------------------------------------------------
// Operations
// ---------------------------------------------------------------------------

/// What an operation says, as plain values.
pub struct OperationModel {
    pub kind: Seq<char>,
    pub command: Seq<char>,
    pub status: Seq<char>,
    pub evidence: Option<Seq<char>>,
    pub diagnostic: Option<Seq<char>>,
    pub exit_code: Option<i32>,
    pub terminal_output: Option<Seq<char>>,
    pub source: Option<Seq<char>>,
    pub target: Option<Seq<char>>,
    pub paths: Seq<Seq<char>>,
}

/// A file operation announced by a command line, with what was observed of it.
#[derive(Debug)]
pub struct ShellMutationOperation {
    pub kind: String,
    pub command: String,
    pub status: String,
    pub evidence: Option<String>,
    pub diagnostic: Option<String>,
    pub exit_code: Option<i32>,
    pub terminal_output: Option<String>,
    pub source: Option<String>,
    pub target: Option<String>,
    pub paths: Vec<String>,
}

impl View for ShellMutationOperation {
    type V = OperationModel;

    open spec fn view(&self) -> OperationModel {
        OperationModel {
            kind: self.kind@,
            command: self.command@,
            status: self.status@,
            evidence: self.evidence.deep_view(),
            diagnostic: self.diagnostic.deep_view(),
            exit_code: self.exit_code,
            terminal_output: self.terminal_output.deep_view(),
            source: self.source.deep_view(),
            target: self.target.deep_view(),
            paths: self.paths.deep_view(),
        }
    }
}

pub open spec fn models(ops: Seq<ShellMutationOperation>) -> Seq<OperationModel> {
    ops.map_values(|o: ShellMutationOperation| o@)
}

pub open spec fn model_of(op: Option<ShellMutationOperation>) -> Option<OperationModel> {
    match op {
        Some(o) => Some(o@),
        None => None,
    }
}

pub open spec fn listed(p: Option<Seq<char>>) -> Seq<Seq<char>> {
    match p {
        Some(x) => seq![x],
        None => Seq::empty(),
    }
}

/// A changed operation of `kind`, its paths the source and target (each once).
pub open spec fn operation_model(
    kind: Seq<char>,
    command: Seq<char>,
    source: Option<Seq<char>>,
    target: Option<Seq<char>>,
) -> OperationModel {
    OperationModel {
        kind,
        command,
        status: "changed"@,
        evidence: None,
        diagnostic: None,
        exit_code: None,
        terminal_output: None,
        source,
        target,
        paths: unique_of(listed(source) + listed(target)),
    }
}

fn clone_opt(s: &Option<String>) -> (r: Option<String>)
    ensures
        r.deep_view() == s.deep_view(),
{
    match s {
        Some(x) => Some(x.clone()),
        None => None,
    }
}

fn clone_strings(v: &Vec<String>) -> (r: Vec<String>)
    ensures
        r.deep_view() == v.deep_view(),
{
    let mut r: Vec<String> = Vec::new();
    let mut i: usize = 0;
    while i < v.len()
        invariant
            i <= v.len(),
            r.deep_view() == v.deep_view().take(i as int),
        decreases v.len() - i,
    {
        let ghost before = r.deep_view();
        r.push(v[i].clone());
        assert(r.deep_view() =~= before.push(v[i as int]@));
        assert(v.deep_view().take(i + 1) =~= v.deep_view().take(i as int).push(v[i as int]@));
        i = i + 1;
    }
    assert(v.deep_view().take(i as int) =~= v.deep_view());
    r
}

impl ShellMutationOperation {
    /// A copy with the same contents.
    pub fn duplicate(&self) -> (r: Self)
        ensures
            r@ == self@,
    {
        ShellMutationOperation {
            kind: self.kind.clone(),
            command: self.command.clone(),
            status: self.status.clone(),
            evidence: clone_opt(&self.evidence),
            diagnostic: clone_opt(&self.diagnostic),
            exit_code: self.exit_code,
            terminal_output: clone_opt(&self.terminal_output),
            source: clone_opt(&self.source),
            target: clone_opt(&self.target),
            paths: clone_strings(&self.paths),
        }
    }
}

/// A changed operation of `kind` on `source` and `target`.
pub fn operation(kind: &str, command: &str, source: Option<String>, target: Option<String>) -> (r:
    ShellMutationOperation)
    ensures
        r@ == operation_model(kind@, command@, source.deep_view(), target.deep_view()),
{
    let mut paths: Vec<String> = Vec::new();
    if let Some(s) = &source {
        paths.push(s.clone());
    }
    if let Some(t) = &target {
        let ghost before = paths.deep_view();
        paths.push(t.clone());
        assert(paths.deep_view() =~= before.push(t@));
    }
    assert(paths.deep_view() =~= listed(source.deep_view()) + listed(target.deep_view()));
    ShellMutationOperation {
        kind: kind.to_owned(),
        command: command.to_owned(),
        status: "changed".to_owned(),
        evidence: None,
        diagnostic: None,
        exit_code: None,
        terminal_output: None,
        source,
        target,
        paths: unique_paths(paths),
    }
}

// ---------------------------------------------------------------------------
// The effect of a finished line
// ---------------------------------------------------------------------------

/// Word `k`, resolved, when there is one.
pub open spec fn resolved_word(cwd: Seq<char>, words: Seq<Seq<char>>, k: int) -> Option<Seq<char>> {
    if k < words.len() {
        Some(resolve_path(cwd, words[k]))
    } else {
        None
    }
}

pub open spec fn last_of(paths: Seq<Seq<char>>) -> Option<Seq<char>> {
    if paths.len() > 0 {
        Some(paths.last())
    } else {
        None
    }
}

pub open spec fn either(a: Option<Seq<char>>, b: Option<Seq<char>>) -> Option<Seq<char>> {
    if a is Some {
        a
    } else {
        b
    }
}

pub open spec fn with_target(
    kind: Seq<char>,
    text: Seq<char>,
    source: Option<Seq<char>>,
    target: Option<Seq<char>>,
) -> Option<OperationModel> {
    match target {
        Some(t) => Some(operation_model(kind, text, source, Some(t))),
        None => None,
    }
}

/// The operation a (non-`cd`) line announces, from its trimmed text and words.
pub open spec fn line_operation(cwd: Seq<char>, text: Seq<char>, words: Seq<Seq<char>>) -> Option<
    OperationModel,
> {
    let command = words[0];
    let redirected = redirect_paths(words, cwd);
    let last = last_of(redirected);
    if command == "write"@ {
        with_target(
            "write"@,
            text,
            None,
            if words.len() >= 3 {
                resolved_word(cwd, words, 1)
            } else {
                last
            },
        )
    } else if command == "mkdir"@ || command == "rm"@ || command == "rmdir"@ {
        with_target(command, text, None, either(resolved_word(cwd, words, 1), last))
    } else if command == "cp"@ {
        with_target(
            "cp"@,
            text,
            resolved_word(cwd, words, 1),
            either(resolved_word(cwd, words, 2), last),
        )
    } else if command == "mv"@ {
        if words.len() >= 3 {
            Some(
                operation_model(
                    "mv"@,
                    text,
                    resolved_word(cwd, words, 1),
                    resolved_word(cwd, words, 2),
                ),
            )
        } else {
            None
        }
    } else if command == "ln"@ && words.len() > 1 && words[1] == "-s"@ {
        with_target(
            "ln-s"@,
            text,
            resolved_word(cwd, words, 2),
            either(resolved_word(cwd, words, 3), last),
        )
    } else if redirected.len() > 0 {
        Some(
            OperationModel {
                kind: "redirect"@,
                command: text,
                status: "changed"@,
                evidence: None,
                diagnostic: None,
                exit_code: None,
                terminal_output: None,
                source: None,
                target: last,
                paths: unique_of(redirected),
            },
        )
    } else {
        None
    }
}

/// What finishing `line` does: the new working directory (only `cd` moves it)
/// and the operation the line announces, if any.
pub open spec fn line_effect(cwd: Seq<char>, line: Seq<char>) -> (Seq<char>, Option<OperationModel>) {
    let text = trim(line);
    let words = shell_words_of(text);
    if words.len() == 0 {
        (cwd, None)
    } else if words[0] == "cd"@ {
        (
            resolve_path(
                cwd,
                if words.len() > 1 {
                    words[1]
                } else {
                    dot()
                },
            ),
            None,
        )
    } else {
        (cwd, line_operation(cwd, text, words))
    }
}

/// One character of input: a line end finishes the line, backspace and
/// delete drop its last character, ctrl-C discards it, other control
/// characters are ignored and the rest are typed.
pub open spec fn input_step(st: (Seq<char>, Seq<char>, Seq<OperationModel>), c: char) -> (
    Seq<char>,
    Seq<char>,
    Seq<OperationModel>,
) {
    let (cwd, line, ops) = st;
    if c == '\r' || c == '\n' {
        let (next_cwd, op) = line_effect(cwd, line);
        (
            next_cwd,
            Seq::empty(),
            match op {
                Some(o) => ops.push(o),
                None => ops,
            },
        )
    } else if c == '\u{7f}' || c == '\u{8}' {
        (
            cwd,
            if line.len() > 0 {
                line.drop_last()
            } else {
                line
            },
            ops,
        )
    } else if c == '\u{3}' {
        (cwd, Seq::empty(), ops)
    } else if !is_ctrl(c) {
        (cwd, line.push(c), ops)
    } else {
        st
    }
}

pub open spec fn input_scan(cwd: Seq<char>, line: Seq<char>, s: Seq<char>) -> (
    Seq<char>,
    Seq<char>,
    Seq<OperationModel>,
)
    decreases s.len(),
{
    if s.len() == 0 {
        (cwd, line, Seq::empty())
    } else {
        input_step(input_scan(cwd, line, s.drop_last()), s.last())
    }
}

/// Follows the characters typed into one shell: the line being edited and the
/// shell's working directory.
#[derive(Debug)]
pub struct ShellInputActivityTracker {
    cwd: String,
    line: Vec<char>,
}

impl View for ShellInputActivityTracker {
    /// The working directory and the line being edited.
    type V = (Seq<char>, Seq<char>);

    closed spec fn view(&self) -> (Seq<char>, Seq<char>) {
        (self.cwd@, self.line@)
    }
}

fn word_is(w: &String, lit: &str) -> (r: bool)
    ensures
        r == (w@ == lit@),
{
    let t = lit.to_owned();
    *w == t
}

fn resolved_arg(cwd: &str, words: &Vec<String>, k: usize) -> (r: Option<String>)
    ensures
        r.deep_view() == resolved_word(cwd@, words.deep_view(), k as int),
{
    if k < words.len() {
        Some(resolve_wanix_path(cwd, words[k].as_str()))
    } else {
        None
    }
}

fn last_path(paths: &Vec<String>) -> (r: Option<String>)
    ensures
        r.deep_view() == last_of(paths.deep_view()),
{
    if paths.len() > 0 {
        Some(paths[paths.len() - 1].clone())
    } else {
        None
    }
}

fn either_path(a: Option<String>, b: Option<String>) -> (r: Option<String>)
    ensures
        r.deep_view() == either(a.deep_view(), b.deep_view()),
{
    if a.is_some() {
        a
    } else {
        b
    }
}

fn op_with_target(kind: &str, text: &str, source: Option<String>, target: Option<String>) -> (r:
    Option<ShellMutationOperation>)
    ensures
        model_of(r) == with_target(kind@, text@, source.deep_view(), target.deep_view()),
{
    match target {
        Some(t) => Some(operation(kind, text, source, Some(t))),
        None => None,
    }
}

impl ShellInputActivityTracker {
    /// A tracker for a shell working in `cwd`, with nothing typed yet.
    pub fn new(cwd: &str) -> (r: Self)
        ensures
            r@ == (cwd@, Seq::<char>::empty()),
    {
        ShellInputActivityTracker { cwd: cwd.to_owned(), line: Vec::new() }
    }

    /// Takes the shell's own working directory as the current one.
    pub fn sync_cwd(&mut self, cwd: &str)
        ensures
            final(self)@ == (cwd@, old(self)@.1),
    {
        self.cwd = cwd.to_owned();
    }

    /// Finishes the line typed so far: `cd` moves the working directory, any
    /// other line yields the operation it announces. The line is kept.
    pub fn finish_line(&mut self) -> (r: Option<ShellMutationOperation>)
        ensures
            (final(self)@.0, model_of(r)) == line_effect(old(self)@.0, old(self)@.1),
            final(self)@.1 == old(self)@.1,
    {
        let text_chars = trim_chars(self.line.as_slice());
        let text = string_from_chars(text_chars.as_slice());
        let words = shell_words(text.as_str());
        if words.len() == 0 {
            return None;
        }
        if word_is(&words[0], "cd") {
            let next = if words.len() > 1 {
                resolve_wanix_path(self.cwd.as_str(), words[1].as_str())
            } else {
                proof {
                    reveal_strlit(".");
                }
                assert("."@ =~= dot());
                resolve_wanix_path(self.cwd.as_str(), ".")
            };
            self.cwd = next;
            return None;
        }
        let cwd = self.cwd.as_str();
        let ghost wv = words.deep_view();
        let redirected = shell_redirection_paths(words.as_slice(), cwd);
        let command = &words[0];
        if word_is(command, "write") {
            let target = if words.len() >= 3 {
                resolved_arg(cwd, &words, 1)
            } else {
                last_path(&redirected)
            };
            return op_with_target("write", text.as_str(), None, target);
        }
        if word_is(command, "mkdir") || word_is(command, "rm") || word_is(command, "rmdir") {
            let target = either_path(resolved_arg(cwd, &words, 1), last_path(&redirected));
            return op_with_target(command.as_str(), text.as_str(), None, target);
        }
        if word_is(command, "cp") {
            let target = either_path(resolved_arg(cwd, &words, 2), last_path(&redirected));
            return op_with_target("cp", text.as_str(), resolved_arg(cwd, &words, 1), target);
        }
        if word_is(command, "mv") {
            if words.len() >= 3 {
                return Some(
                    operation(
                        "mv",
                        text.as_str(),
                        resolved_arg(cwd, &words, 1),
                        resolved_arg(cwd, &words, 2),
                    ),
                );
            }
            return None;
        }
        if word_is(command, "ln") && words.len() > 1 && word_is(&words[1], "-s") {
            let target = either_path(resolved_arg(cwd, &words, 3), last_path(&redirected));
            return op_with_target("ln-s", text.as_str(), resolved_arg(cwd, &words, 2), target);
        }
        if redirected.len() > 0 {
            let target = last_path(&redirected);
            return Some(
                ShellMutationOperation {
                    kind: "redirect".to_owned(),
                    command: text.clone(),
                    status: "changed".to_owned(),
                    evidence: None,
                    diagnostic: None,
                    exit_code: None,
                    terminal_output: None,
                    source: None,
                    target,
                    paths: unique_paths(redirected),
                },
            );
        }
        None
    }

    /// Feeds the bytes the browser sent (decoded as UTF-8, invalid sequences
    /// replaced) and returns the operations of the lines they finished.
    pub fn observe_input(&mut self, input: &[u8]) -> (ops: Vec<ShellMutationOperation>)
        ensures
            ({
                let (cwd, line, expected) = input_scan(old(self)@.0, old(self)@.1, lossy_utf8(input@));
                final(self)@ == (cwd, line) && models(ops@) == expected
            }),
    {
        let text = utf8_lossy(input);
        let chars = str_chars(text.as_str());
        let ghost start = self@;
        let mut ops: Vec<ShellMutationOperation> = Vec::new();
        let mut i: usize = 0;
        assert(chars@.take(0) =~= Seq::<char>::empty());
        assert(models(ops@) =~= Seq::<OperationModel>::empty());
        while i < chars.len()
            invariant
                i <= chars.len(),
                chars@ == lossy_utf8(input@),
                input_scan(start.0, start.1, chars@.take(i as int)) == (self@.0, self@.1, models(ops@)),
            decreases chars.len() - i,
        {
            let c = chars[i];
            assert(chars@.take(i + 1).drop_last() =~= chars@.take(i as int));
            let ghost before = models(ops@);
            if c == '\r' || c == '\n' {
                let op = self.finish_line();
                if let Some(o) = op {
                    ops.push(o);
                    assert(models(ops@) =~= before.push(o@));
                }
                self.line.clear();
            } else if c == '\u{7f}' || c == '\u{8}' {
                if self.line.len() > 0 {
                    let _ = self.line.pop();
                }
            } else if c == '\u{3}' {
                self.line.clear();
            } else if !char_is_control(c) {
                self.line.push(c);
            }
            i = i + 1;
        }
        assert(chars@.take(i as int) =~= chars@);
        ops
    }
}

// ---------------------------------------------------------------------------
// Matching operations with what changed on disk
// ---------------------------------------------------------------------------

/// Some path of the operation is among the changed paths.
pub open spec fn intersects(op: OperationModel, changed: Seq<Seq<char>>) -> bool {
    exists|i: int, j: int|
        0 <= i < op.paths.len() && 0 <= j < changed.len() && #[trigger] op.paths[i]
            == #[trigger] changed[j]
}

/// The operations that touched a changed path, in order.
pub open spec fn keep_changed(ops: Seq<OperationModel>, changed: Seq<Seq<char>>) -> Seq<OperationModel>
    decreases ops.len(),
{
    if ops.len() == 0 {
        Seq::empty()
    } else {
        let acc = keep_changed(ops.drop_last(), changed);
        if intersects(ops.last(), changed) {
            acc.push(ops.last())
        } else {
            acc
        }
    }
}

/// Whether any path of `operation` is one of `changed_paths`.
pub fn operation_intersects_changed_paths(
    operation: &ShellMutationOperation,
    changed_paths: &[String],
) -> (r: bool)
    ensures
        r == intersects(operation@, changed_paths.deep_view()),
{
    let ghost cv = changed_paths.deep_view();
    let mut i: usize = 0;
    while i < operation.paths.len()
        invariant
            i <= operation.paths.len(),
            cv == changed_paths.deep_view(),
            forall|a: int, b: int|
                0 <= a < i && 0 <= b < cv.len() ==> operation@.paths[a] != cv[b],
        decreases operation.paths.len() - i,
    {
        let mut j: usize = 0;
        while j < changed_paths.len()
            invariant
                i < operation.paths.len(),
                j <= changed_paths.len(),
                cv == changed_paths.deep_view(),
                forall|a: int, b: int|
                    0 <= a < i && 0 <= b < cv.len() ==> operation@.paths[a] != cv[b],
                forall|b: int| 0 <= b < j ==> operation@.paths[i as int] != cv[b],
            decreases changed_paths.len() - j,
        {
            if changed_paths[j] == operation.paths[i] {
                assert(operation@.paths[i as int] == cv[j as int]);
                return true;
            }
            j = j + 1;
        }
        i = i + 1;
    }
    false
}

/// The operations that touched one of the changed paths, in order.
pub fn operations_for_changed_paths(
    operations: &[ShellMutationOperation],
    changed_paths: &[String],
) -> (r: Vec<ShellMutationOperation>)
    ensures
        models(r@) == keep_changed(models(operations@), changed_paths.deep_view()),
{
    let ghost ov = models(operations@);
    let mut r: Vec<ShellMutationOperation> = Vec::new();
    let mut i: usize = 0;
    assert(ov.take(0) =~= Seq::<OperationModel>::empty());
    assert(models(r@) =~= Seq::<OperationModel>::empty());
    while i < operations.len()
        invariant
            i <= operations.len(),
            ov == models(operations@),
            models(r@) == keep_changed(ov.take(i as int), changed_paths.deep_view()),
        decreases operations.len() - i,
    {
        assert(ov.take(i + 1).drop_last() =~= ov.take(i as int));
        assert(ov.take(i + 1).last() == operations@[i as int]@);
        if operation_intersects_changed_paths(&operations[i], changed_paths) {
            let ghost before = models(r@);
            let copy = operations[i].duplicate();
            r.push(copy);
            assert(models(r@) =~= before.push(copy@));
        }
        i = i + 1;
    }
    assert(ov.take(i as int) =~= ov);
    r
}

/// The operation marked `unchanged`, with the diagnostic and no paths.
pub open spec fn unchanged(op: OperationModel, diagnostic: Option<Seq<char>>) -> OperationModel {
    OperationModel { status: "unchanged"@, diagnostic, paths: Seq::empty(), ..op }
}

/// Every operation marked `unchanged`, carrying `diagnostic` and no paths.
pub fn operations_without_changed_paths(
    operations: &[ShellMutationOperation],
    diagnostic: Option<&str>,
) -> (r: Vec<ShellMutationOperation>)
    ensures
        r.len() == operations.len(),
        forall|i: int|
            0 <= i < r.len() ==> r@[i]@ == unchanged(
                operations@[i]@,
                match diagnostic {
                    Some(d) => Some(d@),
                    None => None,
                },
            ),
{
    let ghost diag = match diagnostic {
        Some(d) => Some(d@),
        None => None::<Seq<char>>,
    };
    let mut r: Vec<ShellMutationOperation> = Vec::new();
    let mut i: usize = 0;
    while i < operations.len()
        invariant
            i <= operations.len(),
            r.len() == i,
            diag == match diagnostic {
                Some(d) => Some(d@),
                None => None::<Seq<char>>,
            },
            forall|k: int| 0 <= k < i ==> r@[k]@ == unchanged(operations@[k]@, diag),
        decreases operations.len() - i,
    {
        let op = &operations[i];
        let d = match diagnostic {
            Some(text) => Some(text.to_owned()),
            None => None,
        };
        let copy = ShellMutationOperation {
            kind: op.kind.clone(),
            command: op.command.clone(),
            status: "unchanged".to_owned(),
            evidence: clone_opt(&op.evidence),
            diagnostic: d,
            exit_code: op.exit_code,
            terminal_output: clone_opt(&op.terminal_output),
            source: clone_opt(&op.source),
            target: clone_opt(&op.target),
            paths: Vec::new(),
        };
        assert(copy.paths.deep_view() =~= Seq::<Seq<char>>::empty());
        r.push(copy);
        i = i + 1;
    }
    r
}

// ---------------------------------------------------------------------------
// Laws
// ---------------------------------------------------------------------------

/// A segment that survives normalisation: not empty, not `.` or `..`, and
/// without `/`.
pub open spec fn clean_part(p: Seq<char>) -> bool {
    p.len() > 0 && p != dot() && p != dot_dot() && !p.contains('/')
}

/// The kept paths hold no repeats and no `#` paths, and a path is kept exactly
/// when it was given and is not a `#` path.
pub proof fn lemma_unique_paths(paths: Seq<Seq<char>>)
    ensures
        forall|i: int, j: int|
            0 <= i < j < unique_of(paths).len() ==> unique_of(paths)[i] != unique_of(paths)[j],
        forall|q: Seq<char>|
            #[trigger] unique_of(paths).contains(q) <==> (paths.contains(q) && !starts_with_char(
                q,
                '#',
            )),
    decreases paths.len(),
{
    if paths.len() > 0 {
        let init = paths.drop_last();
        let p = paths.last();
        lemma_unique_paths(init);
        let acc = unique_of(init);
        assert forall|q: Seq<char>| paths.contains(q) <==> (init.contains(q) || q == p) by {
            if paths.contains(q) {
                let i = choose|i: int| 0 <= i < paths.len() && paths[i] == q;
                if i < paths.len() - 1 {
                    assert(init[i] == q);
                }
            }
            if init.contains(q) {
                let i = choose|i: int| 0 <= i < init.len() && init[i] == q;
                assert(paths[i] == q);
            }
            if q == p {
                assert(paths[paths.len() - 1] == q);
            }
        }
        if !(starts_with_char(p, '#') || acc.contains(p)) {
            let r = acc.push(p);
            assert forall|q: Seq<char>| r.contains(q) <==> (acc.contains(q) || q == p) by {
                if r.contains(q) {
                    let i = choose|i: int| 0 <= i < r.len() && r[i] == q;
                    if i < acc.len() {
                        assert(acc[i] == q);
                    }
                }
                if acc.contains(q) {
                    let i = choose|i: int| 0 <= i < acc.len() && acc[i] == q;
                    assert(r[i] == q);
                }
                if q == p {
                    assert(r[acc.len() as int] == q);
                }
            }
            assert forall|i: int, j: int| 0 <= i < j < r.len() implies r[i] != r[j] by {
                if j == acc.len() {
                    assert(acc[i] == r[i]);
                    if r[i] == r[j] {
                        assert(acc.contains(p));
                    }
                }
            }
        }
    }
}

/// `str::split` on a separator that stands between two texts splits each.
pub proof fn lemma_split_around(a: Seq<char>, b: Seq<char>, c: char)
    ensures
        split_char(a + seq![c] + b, c) == split_char(a, c) + split_char(b, c),
    decreases a.len(),
{
    let s = a + seq![c] + b;
    crate::seqs::lemma_index_of_bounds(a, c);
    let k = crate::seqs::index_of(a, c);
    if k < a.len() {
        crate::seqs::lemma_index_of(s, c, k);
        lemma_split_around(a.skip(k + 1), b, c);
        assert(s.skip(k + 1) =~= a.skip(k + 1) + seq![c] + b);
        assert(s.take(k) =~= a.take(k));
        assert(split_char(s, c) =~= seq![a.take(k)] + split_char(s.skip(k + 1), c));
    } else {
        crate::seqs::lemma_index_of(s, c, a.len() as int);
        assert(s.take(a.len() as int) =~= a);
        assert(s.skip(a.len() as int + 1) =~= b);
    }
}

proof fn lemma_split_no_sep(a: Seq<char>, c: char)
    requires
        !a.contains(c),
    ensures
        split_char(a, c) == seq![a],
{
    crate::seqs::lemma_index_of_bounds(a, c);
    if crate::seqs::index_of(a, c) < a.len() {
        assert(a[crate::seqs::index_of(a, c)] == c);
    }
}

proof fn lemma_split_join(parts: Seq<Seq<char>>)
    requires
        parts.len() > 0,
        forall|i: int| 0 <= i < parts.len() ==> !(#[trigger] parts[i]).contains('/'),
    ensures
        split_char(join_slash(parts), '/') == parts,
    decreases parts.len(),
{
    if parts.len() == 1 {
        lemma_split_no_sep(parts[0], '/');
        assert(seq![parts[0]] =~= parts);
    } else {
        let init = parts.drop_last();
        assert forall|i: int| 0 <= i < init.len() implies !(#[trigger] init[i]).contains('/') by {
            assert(init[i] == parts[i]);
        }
        lemma_split_join(init);
        lemma_split_around(join_slash(init), parts.last(), '/');
        lemma_split_no_sep(parts.last(), '/');
        assert(init + seq![parts.last()] =~= parts);
    }
}

proof fn lemma_normalize_clean_suffix(prefix: Seq<Seq<char>>, parts: Seq<Seq<char>>)
    requires
        forall|i: int| 0 <= i < parts.len() ==> clean_part(#[trigger] parts[i]),
    ensures
        normalize_parts(prefix + parts) == normalize_parts(prefix) + parts,
    decreases parts.len(),
{
    if parts.len() == 0 {
        assert(prefix + parts =~= prefix);
        assert(normalize_parts(prefix) + parts =~= normalize_parts(prefix));
    } else {
        let init = parts.drop_last();
        assert forall|i: int| 0 <= i < init.len() implies clean_part(#[trigger] init[i]) by {
            assert(init[i] == parts[i]);
        }
        lemma_normalize_clean_suffix(prefix, init);
        assert((prefix + parts).drop_last() =~= prefix + init);
        assert((prefix + parts).last() == parts.last());
        assert(clean_part(parts[parts.len() - 1]));
        assert(normalize_parts(prefix) + init + seq![parts.last()] =~= normalize_parts(prefix) + parts);
    }
}

proof fn lemma_normalize_clean(segs: Seq<Seq<char>>)
    requires
        forall|i: int| 0 <= i < segs.len() ==> !(#[trigger] segs[i]).contains('/'),
    ensures
        forall|i: int|
            0 <= i < normalize_parts(segs).len() ==> clean_part(#[trigger] normalize_parts(segs)[i]),
    decreases segs.len(),
{
    if segs.len() > 0 {
        let init = segs.drop_last();
        assert forall|i: int| 0 <= i < init.len() implies !(#[trigger] init[i]).contains('/') by {
            assert(init[i] == segs[i]);
        }
        lemma_normalize_clean(init);
        let acc = normalize_parts(init);
        let p = segs.last();
        assert(!segs[segs.len() - 1].contains('/'));
        if !(p.len() == 0 || p == dot()) && !(p == dot_dot()) {
            assert forall|i: int| 0 <= i < acc.push(p).len() implies clean_part(
                #[trigger] acc.push(p)[i],
            ) by {
                if i < acc.len() {
                    assert(acc.push(p)[i] == acc[i]);
                }
            }
        } else if p == dot_dot() && acc.len() > 0 {
            assert forall|i: int| 0 <= i < acc.drop_last().len() implies clean_part(
                #[trigger] acc.drop_last()[i],
            ) by {
                assert(acc.drop_last()[i] == acc[i]);
            }
        }
    }
}

proof fn lemma_split_pieces(s: Seq<char>, c: char)
    ensures
        forall|i: int| 0 <= i < split_char(s, c).len() ==> !(#[trigger] split_char(s, c)[i]).contains(c),
    decreases s.len(),
{
    crate::seqs::lemma_index_of_bounds(s, c);
    let k = crate::seqs::index_of(s, c);
    if k < s.len() {
        lemma_split_pieces(s.skip(k + 1), c);
        let rest = split_char(s.skip(k + 1), c);
        assert forall|i: int| 0 <= i < split_char(s, c).len() implies !(#[trigger] split_char(
            s,
            c,
        )[i]).contains(c) by {
            if i == 0 {
                if s.take(k).contains(c) {
                    let j = choose|j: int| 0 <= j < s.take(k).len() && s.take(k)[j] == c;
                    assert(s[j] == c);
                }
            } else {
                assert(split_char(s, c)[i] == rest[i - 1]);
            }
        }
    } else {
        if s.contains(c) {
            let j = choose|j: int| 0 <= j < s.len() && s[j] == c;
            assert(s[j] == c);
        }
    }
}

/// A resolved path (other than a `#` path) is rooted at `/` and made of clean
/// segments: no empty, `.` or `..` segment is left.
pub proof fn lemma_resolved_is_clean(cwd: Seq<char>, path: Seq<char>)
    requires
        !starts_with_char(path, '#'),
    ensures
        exists|parts: Seq<Seq<char>>|
            #![trigger rooted_path(parts)]
            resolve_path(cwd, path) == rooted_path(parts) && forall|i: int|
                0 <= i < parts.len() ==> clean_part(#[trigger] parts[i]),
{
    let segs = split_char(joined_raw(cwd, path), '/');
    lemma_split_pieces(joined_raw(cwd, path), '/');
    lemma_normalize_clean(segs);
    let parts = normalize_parts(segs);
    assert(resolve_path(cwd, path) == rooted_path(parts));
}

/// A rooted path resolves the same from every working directory.
pub proof fn lemma_rooted_ignores_cwd(cwd_a: Seq<char>, cwd_b: Seq<char>, path: Seq<char>)
    requires
        starts_with_char(path, '/'),
    ensures
        resolve_path(cwd_a, path) == resolve_path(cwd_b, path),
{
}

/// Resolving a path that is already resolved gives it back, from any working
/// directory.
pub proof fn lemma_resolve_idempotent(cwd: Seq<char>, other_cwd: Seq<char>, path: Seq<char>)
    ensures
        resolve_path(other_cwd, resolve_path(cwd, path)) == resolve_path(cwd, path),
{
    if !starts_with_char(path, '#') {
        let segs = split_char(joined_raw(cwd, path), '/');
        lemma_split_pieces(joined_raw(cwd, path), '/');
        lemma_normalize_clean(segs);
        let parts = normalize_parts(segs);
        let r = rooted_path(parts);
        assert(r[0] == '/');
        assert(joined_raw(other_cwd, r) == r);
        let empty = Seq::<char>::empty();
        if parts.len() == 0 {
            assert(r =~= empty + seq!['/'] + empty);
            lemma_split_around(empty, empty, '/');
            lemma_split_no_sep(empty, '/');
            let two = seq![empty, empty];
            assert(split_char(r, '/') =~= two);
            let none = Seq::<Seq<char>>::empty();
            assert(normalize_parts(none) == none);
            assert(seq![empty].drop_last() =~= none);
            assert(seq![empty].last() == empty);
            assert(normalize_parts(seq![empty]) == none);
            assert(two.drop_last() =~= seq![empty]);
            assert(two.last() == empty);
            assert(normalize_parts(two) == none);
        } else {
            assert forall|i: int| 0 <= i < parts.len() implies !(#[trigger] parts[i]).contains('/') by {
                assert(clean_part(parts[i]));
            }
            assert(r =~= empty + seq!['/'] + join_slash(parts));
            lemma_split_around(empty, join_slash(parts), '/');
            lemma_split_no_sep(empty, '/');
            lemma_split_join(parts);
            assert(split_char(r, '/') =~= seq![empty] + parts);
            lemma_normalize_clean_suffix(seq![empty], parts);
            let none = Seq::<Seq<char>>::empty();
            assert(normalize_parts(none) == none);
            assert(seq![empty].drop_last() =~= none);
            assert(seq![empty].last() == empty);
            assert(normalize_parts(seq![empty]) == none);
            assert(Seq::<Seq<char>>::empty() + parts =~= parts);
        }
    }
}

/// An operation kept for the changed paths touched one of them, and every
/// operation that touched one is kept: filtering keeps order and drops no
/// match.
pub proof fn lemma_keep_changed(ops: Seq<OperationModel>, changed: Seq<Seq<char>>)
    ensures
        keep_changed(ops, changed).len() <= ops.len(),
        forall|i: int|
            0 <= i < keep_changed(ops, changed).len() ==> intersects(
                #[trigger] keep_changed(ops, changed)[i],
                changed,
            ),
        (forall|i: int| 0 <= i < ops.len() ==> intersects(#[trigger] ops[i], changed)) ==> keep_changed(
            ops,
            changed,
        ) == ops,
    decreases ops.len(),
{
    if ops.len() > 0 {
        let init = ops.drop_last();
        lemma_keep_changed(init, changed);
        let acc = keep_changed(init, changed);
        if intersects(ops.last(), changed) {
            assert forall|i: int| 0 <= i < acc.push(ops.last()).len() implies intersects(
                #[trigger] acc.push(ops.last())[i],
                changed,
            ) by {
                if i < acc.len() {
                    assert(acc.push(ops.last())[i] == acc[i]);
                }
            }
        }
        if forall|i: int| 0 <= i < ops.len() ==> intersects(#[trigger] ops[i], changed) {
            assert forall|i: int| 0 <= i < init.len() implies intersects(#[trigger] init[i], changed) by {
                assert(init[i] == ops[i]);
            }
            assert(intersects(ops[ops.len() - 1], changed));
            assert(init.push(ops.last()) =~= ops);
        }
    }
}

/// Typing input in two pieces leaves the tracker where typing it at once
/// does, and yields the operations of both pieces in order.
pub proof fn lemma_input_scan_split(cwd: Seq<char>, line: Seq<char>, a: Seq<char>, b: Seq<char>)
    ensures
        ({
            let (c1, l1, o1) = input_scan(cwd, line, a);
            let (c2, l2, o2) = input_scan(c1, l1, b);
            input_scan(cwd, line, a + b) == (c2, l2, o1 + o2)
        }),
    decreases b.len(),
{
    let (c1, l1, o1) = input_scan(cwd, line, a);
    if b.len() == 0 {
        assert(a + b =~= a);
        assert(o1 + Seq::<OperationModel>::empty() =~= o1);
    } else {
        lemma_input_scan_split(cwd, line, a, b.drop_last());
        assert((a + b).drop_last() =~= a + b.drop_last());
        assert((a + b).last() == b.last());
        let (c2, l2, o2) = input_scan(c1, l1, b.drop_last());
        let ch = b.last();
        if ch == '\r' || ch == '\n' {
            let (nc, op) = line_effect(c2, l2);
            if let Some(o) = op {
                assert((o1 + o2).push(o) =~= o1 + o2.push(o));
            }
        }
    }
}


/// `op` is a changed operation of `kind`, written as `command`, from
/// `source` (if any) to `target`, whose paths are those two, each once,
/// leaving out device (`#`) paths.
pub open spec fn announces(
    op: Option<OperationModel>,
    kind: Seq<char>,
    command: Seq<char>,
    source: Option<Seq<char>>,
    target: Seq<char>,
) -> bool {
    &&& op is Some
    &&& op->0.kind == kind
    &&& op->0.command == command
    &&& op->0.status == "changed"@
    &&& op->0.source == source
    &&& op->0.target == Some(target)
    &&& forall|q: Seq<char>|
        #[trigger] op->0.paths.contains(q) <==> ((source == Some(q) || q == target)
            && !starts_with_char(q, '#'))
}

proof fn lemma_model_announces(
    kind: Seq<char>,
    command: Seq<char>,
    source: Option<Seq<char>>,
    target: Seq<char>,
)
    ensures
        announces(Some(operation_model(kind, command, source, Some(target))), kind, command, source, target),
{
    let given = listed(source) + listed(Some(target));
    lemma_unique_paths(given);
    assert forall|q: Seq<char>| given.contains(q) <==> (source == Some(q) || q == target) by {
        if source is Some {
            assert(given =~= seq![source->0, target]);
            if q == target {
                assert(given[1] == q);
            }
            if source == Some(q) {
                assert(given[0] == q);
            }
        } else {
            assert(given =~= seq![target]);
            if q == target {
                assert(given[0] == q);
            }
        }
    }
}

/// What a finished line announces follows from its words: `cp SRC DST`
/// copies the resolved SRC to the resolved DST, `mv SRC DST` moves it,
/// `ln -s SRC DST` links DST to SRC, `mkdir`/`rm`/`rmdir PATH` and
/// `write PATH TEXT` change the resolved PATH, and `cd DIR` moves the
/// working directory to the resolved DIR and announces nothing. Paths are
/// resolved against the working directory the line was typed in.
pub proof fn lemma_line_effect_follows_words(cwd: Seq<char>, line: Seq<char>)
    ensures
        ({
            let text = trim(line);
            let w = shell_words_of(text);
            let (next, op) = line_effect(cwd, line);
            &&& (w.len() >= 3 && w[0] == "cp"@) ==> next == cwd && announces(
                op,
                "cp"@,
                text,
                Some(resolve_path(cwd, w[1])),
                resolve_path(cwd, w[2]),
            )
            &&& (w.len() >= 3 && w[0] == "mv"@) ==> next == cwd && announces(
                op,
                "mv"@,
                text,
                Some(resolve_path(cwd, w[1])),
                resolve_path(cwd, w[2]),
            )
            &&& (w.len() >= 4 && w[0] == "ln"@ && w[1] == "-s"@) ==> next == cwd && announces(
                op,
                "ln-s"@,
                text,
                Some(resolve_path(cwd, w[2])),
                resolve_path(cwd, w[3]),
            )
            &&& (w.len() >= 2 && (w[0] == "mkdir"@ || w[0] == "rm"@ || w[0] == "rmdir"@)) ==> next
                == cwd && announces(op, w[0], text, None, resolve_path(cwd, w[1]))
            &&& (w.len() >= 3 && w[0] == "write"@) ==> next == cwd && announces(
                op,
                "write"@,
                text,
                None,
                resolve_path(cwd, w[1]),
            )
            &&& (w.len() >= 2 && w[0] == "cd"@) ==> next == resolve_path(cwd, w[1]) && op is None
        }),
{
    reveal_strlit("cp");
    reveal_strlit("mv");
    reveal_strlit("ln");
    reveal_strlit("-s");
    reveal_strlit("mkdir");
    reveal_strlit("rm");
    reveal_strlit("rmdir");
    reveal_strlit("write");
    reveal_strlit("cd");
    assert("cp"@ != "cd"@) by {
        assert("cp"@[1] != "cd"@[1]);
    }
    assert("mv"@ != "cd"@ && "mv"@ != "cp"@ && "rm"@ != "cd"@ && "rm"@ != "cp"@ && "rm"@ != "mv"@)
        by {
        assert("mv"@[0] != "cd"@[0] && "mv"@[0] != "cp"@[0] && "rm"@[0] != "cd"@[0]);
        assert("rm"@[0] != "cp"@[0] && "rm"@[0] != "mv"@[0]);
    }
    assert("ln"@ != "cd"@ && "ln"@ != "cp"@ && "ln"@ != "mv"@ && "ln"@ != "rm"@) by {
        assert("ln"@[0] != "cd"@[0] && "ln"@[0] != "cp"@[0] && "ln"@[0] != "mv"@[0] && "ln"@[0]
            != "rm"@[0]);
    }
    assert("mkdir"@ != "write"@) by {
        assert("mkdir"@[0] != "write"@[0]);
    }
    let text = trim(line);
    let w = shell_words_of(text);
    if w.len() >= 3 && w[0] == "cp"@ {
        lemma_model_announces("cp"@, text, Some(resolve_path(cwd, w[1])), resolve_path(cwd, w[2]));
        assert(line_effect(cwd, line).1 == line_operation(cwd, text, w));
    }
    if w.len() >= 3 && w[0] == "mv"@ {
        lemma_model_announces("mv"@, text, Some(resolve_path(cwd, w[1])), resolve_path(cwd, w[2]));
        assert(line_effect(cwd, line).1 == line_operation(cwd, text, w));
    }
    if w.len() >= 4 && w[0] == "ln"@ && w[1] == "-s"@ {
        lemma_model_announces("ln-s"@, text, Some(resolve_path(cwd, w[2])), resolve_path(cwd, w[3]));
        assert(line_effect(cwd, line).1 == line_operation(cwd, text, w));
    }
    if w.len() >= 2 && (w[0] == "mkdir"@ || w[0] == "rm"@ || w[0] == "rmdir"@) {
        lemma_model_announces(w[0], text, None, resolve_path(cwd, w[1]));
        assert(line_effect(cwd, line).1 == line_operation(cwd, text, w));
    }
    if w.len() >= 3 && w[0] == "write"@ {
        lemma_model_announces("write"@, text, None, resolve_path(cwd, w[1]));
        assert(line_effect(cwd, line).1 == line_operation(cwd, text, w));
    }
}

/// A word the shell reads as it is: not empty, and no whitespace, quote or
/// backslash in it.
pub open spec fn plain_word(w: Seq<char>) -> bool {
    &&& w.len() > 0
    &&& forall|i: int|
        0 <= i < w.len() ==> !is_ws(#[trigger] w[i]) && w[i] != '\'' && w[i] != '"' && w[i]
            != '\\'
}

/// Words written one after another with single spaces between them.
pub open spec fn spaced_words(ws: Seq<Seq<char>>) -> Seq<char>
    decreases ws.len(),
{
    if ws.len() == 0 {
        Seq::empty()
    } else if ws.len() == 1 {
        ws[0]
    } else {
        spaced_words(ws.drop_last()) + seq![' '] + ws.last()
    }
}

proof fn lemma_scan_plain_run(s: Seq<char>, w: Seq<char>)
    requires
        word_scan(s).2 is None,
        !word_scan(s).3,
        forall|i: int|
            0 <= i < w.len() ==> !is_ws(#[trigger] w[i]) && w[i] != '\'' && w[i] != '"' && w[i]
                != '\\',
    ensures
        word_scan(s + w) == (word_scan(s).0, word_scan(s).1 + w, None::<char>, false),
    decreases w.len(),
{
    if w.len() == 0 {
        assert(s + w =~= s);
        assert(word_scan(s).1 + w =~= word_scan(s).1);
    } else {
        let v = w.drop_last();
        lemma_scan_plain_run(s, v);
        assert((s + w).drop_last() =~= s + v);
        assert((s + w).last() == w[w.len() - 1]);
        assert(word_scan(s).1 + v.push(w.last()) =~= word_scan(s).1 + w);
        assert(v.push(w.last()) =~= w);
    }
}

proof fn lemma_scan_spaced(ws: Seq<Seq<char>>)
    requires
        ws.len() > 0,
        forall|i: int| 0 <= i < ws.len() ==> plain_word(#[trigger] ws[i]),
    ensures
        word_scan(spaced_words(ws)) == (ws.drop_last(), ws.last(), None::<char>, false),
        spaced_words(ws).len() > 0,
        spaced_words(ws)[0] == ws[0][0],
        spaced_words(ws).last() == ws.last().last(),
    decreases ws.len(),
{
    assert(plain_word(ws.last()));
    if ws.len() == 1 {
        assert(plain_word(ws[0]));
        lemma_scan_plain_run(Seq::empty(), ws[0]);
        assert(Seq::<char>::empty() + ws[0] =~= ws[0]);
        assert(ws.drop_last() =~= Seq::<Seq<char>>::empty());
    } else {
        let front = ws.drop_last();
        assert forall|i: int| 0 <= i < front.len() implies plain_word(#[trigger] front[i]) by {
            assert(front[i] == ws[i]);
        }
        lemma_scan_spaced(front);
        let j = spaced_words(front);
        let js = j + seq![' '];
        assert(js.drop_last() =~= j);
        assert(is_ws(' '));
        assert(front.last().len() > 0);
        assert(word_scan(js) == (front.drop_last().push(front.last()), Seq::<char>::empty(), None::<char>, false));
        assert(front.drop_last().push(front.last()) =~= front);
        lemma_scan_plain_run(js, ws.last());
        assert(Seq::<char>::empty() + ws.last() =~= ws.last());
        assert(spaced_words(ws) == js + ws.last());
        assert(front[0] == ws[0]);
        assert(spaced_words(ws)[0] == j[0]);
    }
}

/// A line of plain words separated by single spaces reads back as those
/// words.
pub proof fn lemma_plain_line_words(ws: Seq<Seq<char>>)
    requires
        ws.len() > 0,
        forall|i: int| 0 <= i < ws.len() ==> plain_word(#[trigger] ws[i]),
    ensures
        shell_words_of(trim(spaced_words(ws))) == ws,
{
    lemma_scan_spaced(ws);
    let line = spaced_words(ws);
    assert(plain_word(ws[0]) && plain_word(ws.last()));
    assert(!is_ws(ws[0][0]));
    assert(!is_ws(ws.last()[ws.last().len() - 1]));
    assert(trim_start(line) == line);
    assert(trim_end(line) == line);
    assert(ws.drop_last().push(ws.last()) =~= ws);
}

/// `cp SRC DST` typed as plain words copies SRC to DST, both resolved
/// against the working directory: the line leaves the directory where it
/// was and announces that copy.
pub proof fn lemma_plain_cp_line(cwd: Seq<char>, src: Seq<char>, dst: Seq<char>)
    requires
        plain_word(src),
        plain_word(dst),
    ensures
        ({
            let line = "cp "@ + src + " "@ + dst;
            let (next, op) = line_effect(cwd, line);
            next == cwd && announces(
                op,
                "cp"@,
                line,
                Some(resolve_path(cwd, src)),
                resolve_path(cwd, dst),
            )
        }),
{
    reveal_strlit("cp ");
    reveal_strlit(" ");
    reveal_strlit("cp");
    let ws = seq!["cp"@, src, dst];
    assert(plain_word("cp"@)) by {
        assert("cp"@[0] == 'c' && "cp"@[1] == 'p');
    }
    assert forall|i: int| 0 <= i < ws.len() implies plain_word(#[trigger] ws[i]) by {
        if i == 0 {
        } else if i == 1 {
            assert(ws[1] == src);
        } else {
            assert(ws[2] == dst);
        }
    }
    lemma_plain_line_words(ws);
    assert(ws.drop_last().drop_last() =~= seq!["cp"@]);
    assert(ws.drop_last() =~= seq!["cp"@, src]);
    assert(spaced_words(seq!["cp"@]) == "cp"@);
    assert(spaced_words(ws.drop_last()) == spaced_words(seq!["cp"@]) + seq![' '] + src);
    assert(spaced_words(ws) == spaced_words(ws.drop_last()) + seq![' '] + dst);
    assert("cp "@ =~= "cp"@ + seq![' ']);
    assert(" "@ =~= seq![' ']);
    assert("cp "@ + src + " "@ + dst =~= spaced_words(ws));
    lemma_scan_spaced(ws);
    lemma_plain_line_words(ws);
    let line = "cp "@ + src + " "@ + dst;
    assert(trim(line) == line);
    lemma_line_effect_follows_words(cwd, line);
}

} // verus!
