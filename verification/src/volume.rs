//! `wanix volume`: named data volumes, each a directory under the volumes
//! root. This module owns volume naming and the `create`/`ls` command line.

use vstd::prelude::*;
use crate::error::CliError;
use crate::text::{str_chars, string_from_chars, push_str, debug_str, debug_quoted};
use crate::seqs::chars_eq;

pub mod serve;

verus! {

pub open spec fn ascii_alnum(c: char) -> bool {
    ('a' <= c && c <= 'z') || ('A' <= c && c <= 'Z') || ('0' <= c && c <= '9')
}

pub open spec fn volume_char(c: char) -> bool {
    ascii_alnum(c) || c == '.' || c == '_' || c == '-'
}

/// A volume name: ASCII letters and digits, with `.`, `_` and `-` allowed
/// only between them.
pub open spec fn valid_volume(name: Seq<char>) -> bool {
    &&& name.len() > 0
    &&& forall|i: int| 0 <= i < name.len() ==> volume_char(#[trigger] name[i])
    &&& ascii_alnum(name[0])
    &&& ascii_alnum(name.last())
}

pub open spec fn invalid_name_message(name: Seq<char>) -> Seq<char> {
    "invalid volume name "@ + debug_str(name)
        + ": use ASCII letters/digits, optionally with . _ - in the middle (no /, \\, .., or leading/trailing punctuation)"@
}

fn alnum(c: char) -> (r: bool)
    ensures
        r == ascii_alnum(c),
{
    ('a' <= c && c <= 'z') || ('A' <= c && c <= 'Z') || ('0' <= c && c <= '9')
}

fn all_volume_chars(chars: &[char]) -> (r: bool)
    ensures
        r == forall|i: int| 0 <= i < chars@.len() ==> volume_char(#[trigger] chars@[i]),
{
    let mut i: usize = 0;
    while i < chars.len()
        invariant
            i <= chars.len(),
            forall|j: int| 0 <= j < i ==> volume_char(#[trigger] chars@[j]),
        decreases chars.len() - i,
    {
        let c = chars[i];
        if !(alnum(c) || c == '.' || c == '_' || c == '-') {
            assert(!volume_char(chars@[i as int]));
            return false;
        }
        i = i + 1;
    }
    true
}

/// Checks a volume name; a bad one is a usage error that quotes it.
pub fn validate_volume_name(name: &str) -> (r: Result<(), CliError>)
    ensures
        r is Ok <==> valid_volume(name@),
        r matches Err(e) ==> e.message@ == invalid_name_message(name@) && e.exit_code == 2,
{
    let chars = str_chars(name);
    let ok = chars.len() > 0 && all_volume_chars(chars.as_slice()) && alnum(chars[0]) && alnum(
        chars[chars.len() - 1],
    );
    if !ok {
        let mut message: Vec<char> = Vec::new();
        push_str(&mut message, "invalid volume name ");
        let quoted = debug_quoted(name);
        push_str(&mut message, quoted.as_str());
        push_str(
            &mut message,
            ": use ASCII letters/digits, optionally with . _ - in the middle (no /, \\, .., or leading/trailing punctuation)",
        );
        let text = string_from_chars(message.as_slice());
        return Err(CliError::usage(text.as_str()));
    }
    Ok(())
}

/// A valid volume name is one plain directory name: it holds no `/` or `\`
/// and is neither `.` nor `..`, so it cannot leave the volumes root.
pub proof fn lemma_valid_volume_name_stays_inside(name: Seq<char>)
    requires
        valid_volume(name),
    ensures
        !name.contains('/'),
        !name.contains('\\'),
        name != "."@,
        name != ".."@,
{
    reveal_strlit(".");
    reveal_strlit("..");
    if name.contains('/') {
        let i = choose|i: int| 0 <= i < name.len() && name[i] == '/';
        assert(volume_char(name[i]));
    }
    if name.contains('\\') {
        let i = choose|i: int| 0 <= i < name.len() && name[i] == '\\';
        assert(volume_char(name[i]));
    }
    assert(ascii_alnum(name[0]));
}

/// `PathBuf::join` of one relative component: the component alone after an
/// empty path, appended directly after a trailing `/`, else after a `/`.
pub open spec fn path_join(dir: Seq<char>, part: Seq<char>) -> Seq<char> {
    if dir.len() == 0 {
        part
    } else if dir.last() == '/' {
        dir + part
    } else {
        dir + seq!['/'] + part
    }
}

pub(crate) fn join_path(dir: &str, part: &str) -> (r: String)
    ensures
        r@ == path_join(dir@, part@),
{
    let d = str_chars(dir);
    let mut out: Vec<char> = Vec::new();
    push_str(&mut out, dir);
    if d.len() > 0 && d[d.len() - 1] != '/' {
        out.push('/');
    }
    push_str(&mut out, part);
    string_from_chars(out.as_slice())
}

/// The volumes root inside the wanix directory (`~/.wanix`).
pub fn volumes_root(wanix_dir: &str) -> (r: String)
    ensures
        r@ == path_join(wanix_dir@, "volumes"@),
{
    join_path(wanix_dir, "volumes")
}

/// The key file of a volume's endpoint identity, kept outside the volume
/// itself: `volume-identities/NAME.key` in the wanix directory. The name is
/// checked first.
pub fn volume_identity_path(wanix_dir: &str, name: &str) -> (r: Result<String, CliError>)
    ensures
        r is Ok <==> valid_volume(name@),
        r matches Ok(p) ==> p@ == path_join(
            path_join(wanix_dir@, "volume-identities"@),
            name@ + ".key"@,
        ),
        r matches Err(e) ==> e.message@ == invalid_name_message(name@) && e.exit_code == 2,
{
    validate_volume_name(name)?;
    let dir = join_path(wanix_dir, "volume-identities");
    let mut file: Vec<char> = Vec::new();
    push_str(&mut file, name);
    push_str(&mut file, ".key");
    let file = string_from_chars(file.as_slice());
    Ok(join_path(dir.as_str(), file.as_str()))
}

pub open spec fn missing_volume_message(name: Seq<char>, dir: Seq<char>) -> Seq<char> {
    "volume "@ + debug_str(name) + " does not exist at "@ + dir + "; create it with `wanix volume create "@
        + name + "`"@
}

/// An existing volume's directory, `root/NAME`. `is_dir` says whether that
/// path is a directory. A bad name is a usage error whatever `is_dir` says;
/// a missing volume points at `wanix volume create`.
pub fn resolve_existing_volume(root: &str, name: &str, is_dir: bool) -> (r: Result<String, CliError>)
    ensures
        r is Ok <==> valid_volume(name@) && is_dir,
        r matches Ok(d) ==> d@ == path_join(root@, name@),
        !valid_volume(name@) ==> (r matches Err(e) && e.message@ == invalid_name_message(name@)
            && e.exit_code == 2),
        valid_volume(name@) && !is_dir ==> (r matches Err(e) && e.message@
            == missing_volume_message(name@, path_join(root@, name@)) && e.exit_code == 1),
{
    validate_volume_name(name)?;
    let dir = join_path(root, name);
    if !is_dir {
        let mut message: Vec<char> = Vec::new();
        push_str(&mut message, "volume ");
        let quoted = debug_quoted(name);
        push_str(&mut message, quoted.as_str());
        push_str(&mut message, " does not exist at ");
        push_str(&mut message, dir.as_str());
        push_str(&mut message, "; create it with `wanix volume create ");
        push_str(&mut message, name);
        push_str(&mut message, "`");
        let text = string_from_chars(message.as_slice());
        return Err(CliError::new(text.as_str(), 1));
    }
    Ok(dir)
}

/// One `volume` subcommand.
#[derive(Debug, Clone, PartialEq, Eq)]
pub enum VolumeCommand {
    Create { name: String },
    Ls,
}

/// What `volume ARGS` asks for, or its usage message.
pub open spec fn volume_command_of(args: Seq<Seq<char>>) -> Result<Option<Seq<char>>, Seq<char>> {
    if args.len() == 0 {
        Err("volume: expected a subcommand (create NAME | ls)"@)
    } else if args[0] == "create"@ {
        if args.len() < 2 {
            Err("volume create: expected a NAME"@)
        } else if args.len() > 2 {
            Err("volume create: expected exactly one NAME"@)
        } else if !valid_volume(args[1]) {
            Err(invalid_name_message(args[1]))
        } else {
            Ok(Some(args[1]))
        }
    } else if args[0] == "ls"@ {
        if args.len() > 1 {
            Err("volume ls: takes no arguments"@)
        } else {
            Ok(None)
        }
    } else {
        Err("volume: unknown subcommand "@ + debug_str(args[0]) + " (expected create NAME | ls)"@)
    }
}

fn arg_is(a: &String, lit: &str) -> (r: bool)
    ensures
        r == (a@ == lit@),
{
    let x = str_chars(a.as_str());
    let y = str_chars(lit);
    chars_eq(x.as_slice(), y.as_slice())
}

/// Parses `volume (create NAME | ls)`; `Ok(Some(name))` of the spec is
/// `Create`, `Ok(None)` is `Ls`. Every mistake is a usage error.
pub fn parse_volume_command(args: &[String]) -> (r: Result<VolumeCommand, CliError>)
    ensures
        match volume_command_of(args.deep_view()) {
            Ok(Some(n)) => r matches Ok(VolumeCommand::Create { name }) && name@ == n,
            Ok(None) => r matches Ok(VolumeCommand::Ls),
            Err(m) => r matches Err(e) && e.message@ == m && e.exit_code == 2,
        },
{
    let ghost av = args.deep_view();
    if args.len() == 0 {
        return Err(CliError::usage("volume: expected a subcommand (create NAME | ls)"));
    }
    assert(av[0] == args@[0]@);
    if arg_is(&args[0], "create") {
        if args.len() < 2 {
            return Err(CliError::usage("volume create: expected a NAME"));
        }
        if args.len() > 2 {
            return Err(CliError::usage("volume create: expected exactly one NAME"));
        }
        assert(av[1] == args@[1]@);
        if let Err(e) = validate_volume_name(args[1].as_str()) {
            return Err(e);
        }
        return Ok(VolumeCommand::Create { name: args[1].clone() });
    }
    if arg_is(&args[0], "ls") {
        if args.len() > 1 {
            return Err(CliError::usage("volume ls: takes no arguments"));
        }
        return Ok(VolumeCommand::Ls);
    }
    let mut message: Vec<char> = Vec::new();
    push_str(&mut message, "volume: unknown subcommand ");
    let quoted = debug_quoted(args[0].as_str());
    push_str(&mut message, quoted.as_str());
    push_str(&mut message, " (expected create NAME | ls)");
    let text = string_from_chars(message.as_slice());
    Err(CliError::usage(text.as_str()))
}

/// `NAME\tTICKET\n`: the record a served volume announces.
pub fn volume_serve_line(name: &str, ticket_url: &str) -> (r: String)
    ensures
        r@ == name@ + "\t"@ + ticket_url@ + "\n"@,
{
    let mut out: Vec<char> = Vec::new();
    push_str(&mut out, name);
    push_str(&mut out, "\t");
    push_str(&mut out, ticket_url);
    push_str(&mut out, "\n");
    string_from_chars(out.as_slice())
}

/// The comment line that shows how to mount a served volume.
pub fn volume_serve_example_line(ticket_url: &str) -> (r: String)
    ensures
        r@ == "# mount with: wanix-rust mount-ls '"@ + ticket_url@ + "'\n"@,
{
    let mut out: Vec<char> = Vec::new();
    push_str(&mut out, "# mount with: wanix-rust mount-ls '");
    push_str(&mut out, ticket_url);
    push_str(&mut out, "'\n");
    string_from_chars(out.as_slice())
}

// ---------------------------------------------------------------------------
// Listing
// ---------------------------------------------------------------------------

/// Text order: character by character, a prefix before what extends it (the
/// order of `str`, as UTF-8 byte order follows code points).
pub open spec fn text_le(a: Seq<char>, b: Seq<char>) -> bool
    decreases a.len(),
{
    if a.len() == 0 {
        true
    } else if b.len() == 0 {
        false
    } else if a[0] != b[0] {
        a[0] < b[0]
    } else {
        text_le(a.drop_first(), b.drop_first())
    }
}

pub proof fn lemma_text_le_total(a: Seq<char>, b: Seq<char>)
    ensures
        text_le(a, b) || text_le(b, a),
    decreases a.len(),
{
    if a.len() > 0 && b.len() > 0 {
        if a[0] == b[0] {
            lemma_text_le_total(a.drop_first(), b.drop_first());
        }
    }
}

pub proof fn lemma_text_le_refl(a: Seq<char>)
    ensures
        text_le(a, a),
    decreases a.len(),
{
    if a.len() > 0 {
        lemma_text_le_refl(a.drop_first());
    }
}

pub proof fn lemma_text_le_trans(a: Seq<char>, b: Seq<char>, c: Seq<char>)
    requires
        text_le(a, b),
        text_le(b, c),
    ensures
        text_le(a, c),
    decreases a.len(),
{
    if a.len() > 0 && b.len() > 0 && c.len() > 0 && a[0] == b[0] && b[0] == c[0] {
        lemma_text_le_trans(a.drop_first(), b.drop_first(), c.drop_first());
    }
}

pub open spec fn sorted_text(s: Seq<Seq<char>>) -> bool {
    forall|i: int, j: int| 0 <= i < j < s.len() ==> text_le(#[trigger] s[i], #[trigger] s[j])
}

/// In strict text order: sorted, and nothing twice.
pub open spec fn strictly_sorted(s: Seq<Seq<char>>) -> bool {
    forall|i: int, j: int|
        0 <= i < j < s.len() ==> text_le(#[trigger] s[i], #[trigger] s[j]) && s[i] != s[j]
}

pub(crate) fn chars_le(a: &[char], b: &[char]) -> (r: bool)
    ensures
        r == text_le(a@, b@),
{
    let mut i: usize = 0;
    assert(a@.skip(0) =~= a@ && b@.skip(0) =~= b@);
    while i < a.len() && i < b.len() && a[i] == b[i]
        invariant
            i <= a.len(),
            i <= b.len(),
            forall|j: int| 0 <= j < i ==> a@[j] == b@[j],
            text_le(a@, b@) == text_le(a@.skip(i as int), b@.skip(i as int)),
        decreases a.len() - i,
    {
        assert(a@.skip(i as int).drop_first() =~= a@.skip(i + 1));
        assert(b@.skip(i as int).drop_first() =~= b@.skip(i + 1));
        i = i + 1;
    }
    if i == a.len() {
        true
    } else if i == b.len() {
        false
    } else {
        a[i] < b[i]
    }
}

/// Sorts names in text order; the result holds the same names.
pub fn sort_names(names: Vec<String>) -> (r: Vec<String>)
    ensures
        sorted_text(r.deep_view()),
        r.deep_view().to_multiset() == names.deep_view().to_multiset(),
{
    broadcast use vstd::seq_lib::group_to_multiset_ensures;
    let ghost nv = names.deep_view();
    let mut out: Vec<String> = Vec::new();
    let mut i: usize = 0;
    assert(out.deep_view() =~= Seq::<Seq<char>>::empty());
    assert(nv.take(0) =~= Seq::<Seq<char>>::empty());
    while i < names.len()
        invariant
            i <= names.len(),
            nv == names.deep_view(),
            sorted_text(out.deep_view()),
            out.deep_view().to_multiset() == nv.take(i as int).to_multiset(),
        decreases names.len() - i,
    {
        let x = str_chars(names[i].as_str());
        let ghost ov = out.deep_view();
        let mut p: usize = 0;
        while p < out.len() && chars_le(str_chars(out[p].as_str()).as_slice(), x.as_slice())
            invariant
                p <= out.len(),
                ov == out.deep_view(),
                forall|k: int| 0 <= k < p ==> text_le(ov[k], x@),
            decreases out.len() - p,
        {
            p = p + 1;
        }
        proof {
            if p < out.len() {
                lemma_text_le_total(ov[p as int], x@);
            }
            assert forall|a: int, b: int| 0 <= a < b < ov.len() + 1 implies text_le(
                #[trigger] ov.insert(p as int, x@)[a],
                #[trigger] ov.insert(p as int, x@)[b],
            ) by {
                let s = ov.insert(p as int, x@);
                if b < p {
                    assert(s[a] == ov[a] && s[b] == ov[b]);
                } else if b == p {
                    assert(s[a] == ov[a] && s[b] == x@);
                } else if a == p {
                    assert(s[b] == ov[b - 1]);
                    if b - 1 == p {
                        lemma_text_le_refl(ov[p as int]);
                    }
                    lemma_text_le_trans(x@, ov[p as int], ov[b - 1]);
                } else if a < p {
                    assert(s[a] == ov[a] && s[b] == ov[b - 1]);
                } else {
                    assert(s[a] == ov[a - 1] && s[b] == ov[b - 1]);
                }
            }
            assert(nv.take(i + 1) =~= nv.take(i as int).push(nv[i as int]));
            assert(nv[i as int] == x@);
        }
        let ghost before = out.deep_view();
        out.insert(p, names[i].clone());
        assert(out.deep_view() =~= before.insert(p as int, x@));
        proof {
            vstd::seq_lib::to_multiset_insert(before, p as int, x@);
            vstd::seq_lib::to_multiset_build(nv.take(i as int), x@);
        }
        i = i + 1;
    }
    assert(nv.take(i as int) =~= nv);
    out
}

pub open spec fn lines_of(names: Seq<Seq<char>>) -> Seq<char>
    decreases names.len(),
{
    if names.len() == 0 {
        Seq::empty()
    } else {
        lines_of(names.drop_last()) + names.last() + "\n"@
    }
}

/// What `volume ls` prints for the defined names: one per line, in text
/// order.
pub fn list_volumes_in(names: Vec<String>) -> (r: String)
    ensures
        exists|sorted: Seq<Seq<char>>|
            sorted_text(sorted) && sorted.to_multiset() == names.deep_view().to_multiset()
                && r@ == #[trigger] lines_of(sorted),
{
    let sorted = sort_names(names);
    let ghost sv = sorted.deep_view();
    let mut out: Vec<char> = Vec::new();
    let mut i: usize = 0;
    assert(out@ =~= lines_of(sv.take(0)));
    while i < sorted.len()
        invariant
            i <= sorted.len(),
            sv == sorted.deep_view(),
            out@ == lines_of(sv.take(i as int)),
        decreases sorted.len() - i,
    {
        assert(sv.take(i + 1).drop_last() =~= sv.take(i as int));
        assert(sv.take(i + 1).last() == sorted@[i as int]@);
        push_str(&mut out, sorted[i].as_str());
        push_str(&mut out, "\n");
        assert(out@ =~= lines_of(sv.take(i + 1)));
        i = i + 1;
    }
    assert(sv.take(i as int) =~= sv);
    string_from_chars(out.as_slice())
}

} // verus!
