//! The bundle pages: the direct-v86 page is its template with the default
//! boot settings filled in; the fs9p and workbench pages are their templates
//! as they are.

use vstd::prelude::*;
use crate::text::{str_chars, string_from_chars, push_chars, decimal, decimal_string};
use crate::seqs::sub_chars;
use crate::terminal::protocol::{json_str, json_string};
use crate::terminal::resize::{find_from, lemma_find_from, find_chars};
use super::boot::DIRECT_V86_DEFAULT_KERNEL_PATH;

verus! {

/// The kernel command line a direct-v86 boot uses unless told otherwise.
pub const DIRECT_V86_DEFAULT_CMDLINE: &'static str = "console=hvc0 init=/bin/init rw root=host9p rootfstype=9p rootflags=trans=virtio,version=9p2000.L,aname=,cache=none,msize=131072 loglevel=3";

/// Guest memory: 1 GiB.
pub const DIRECT_V86_MEMORY_SIZE: u32 = 1073741824u32;

/// Video memory: 8 MiB.
pub const DIRECT_V86_VGA_MEMORY_SIZE: u32 = 8388608u32;

/// `str::replace` for a non-empty pattern: every occurrence of `m`, found
/// left to right without overlap, becomes `t`.
pub open spec fn replaced(s: Seq<char>, m: Seq<char>, t: Seq<char>) -> Seq<char>
    decreases s.len(),
{
    if m.len() == 0 {
        s
    } else {
        match find_from(s, m, 0) {
            Some(i) => {
                proof {
                    lemma_find_from(s, m, 0);
                }
                s.take(i) + t + replaced(s.skip(i + m.len()), m, t)
            },
            None => s,
        }
    }
}

fn replace_all(s: &[char], m: &[char], t: &[char]) -> (r: Vec<char>)
    requires
        m.len() > 0,
    ensures
        r@ == replaced(s@, m@, t@),
{
    let mut out: Vec<char> = Vec::new();
    let mut pos: usize = 0;
    assert(s@.skip(0) =~= s@);
    loop
        invariant
            pos <= s.len(),
            m.len() > 0,
            out@ + replaced(s@.skip(pos as int), m@, t@) == replaced(s@, m@, t@),
        decreases s.len() - pos,
    {
        let rest = sub_chars(s, pos, s.len());
        assert(rest@ =~= s@.skip(pos as int));
        match find_chars(rest.as_slice(), m) {
            Some(i) => {
                proof {
                    lemma_find_from(rest@, m@, 0);
                    assert(rest@.skip(i + m@.len()) =~= s@.skip(pos + i + m@.len()));
                }
                let before = sub_chars(rest.as_slice(), 0, i);
                assert(before@ =~= rest@.take(i as int));
                let ghost old_out = out@;
                push_chars(&mut out, before.as_slice());
                push_chars(&mut out, t);
                assert(out@ =~= old_out + rest@.take(i as int) + t@);
                pos = pos + i + m.len();
            },
            None => {
                push_chars(&mut out, rest.as_slice());
                return out;
            },
        }
    }
}

/// The page after the four default settings are written into their
/// placeholders: the command line and kernel URL as JSON strings, the
/// memory sizes in decimal.
pub open spec fn direct_v86_page(template: Seq<char>) -> Seq<char> {
    replaced(
        replaced(
            replaced(
                replaced(
                    template,
                    "__WANIX_DEFAULT_CMDLINE_JSON__"@,
                    json_str(DIRECT_V86_DEFAULT_CMDLINE@),
                ),
                "__WANIX_DEFAULT_KERNEL_URL_JSON__"@,
                json_str(DIRECT_V86_DEFAULT_KERNEL_PATH@),
            ),
            "__WANIX_DEFAULT_MEMORY_SIZE__"@,
            decimal(DIRECT_V86_MEMORY_SIZE as nat),
        ),
        "__WANIX_DEFAULT_VGA_MEMORY_SIZE__"@,
        decimal(DIRECT_V86_VGA_MEMORY_SIZE as nat),
    )
}

/// The direct-v86 bundle page built from its template (see
/// `direct_v86_page`).
pub fn direct_v86_bundle_html(template: &str) -> (r: String)
    ensures
        r@ == direct_v86_page(template@),
{
    proof {
        reveal_strlit("__WANIX_DEFAULT_CMDLINE_JSON__");
        reveal_strlit("__WANIX_DEFAULT_KERNEL_URL_JSON__");
        reveal_strlit("__WANIX_DEFAULT_MEMORY_SIZE__");
        reveal_strlit("__WANIX_DEFAULT_VGA_MEMORY_SIZE__");
    }
    let page = str_chars(template);
    let cmdline = json_string(DIRECT_V86_DEFAULT_CMDLINE);
    let page = replace_all(
        page.as_slice(),
        str_chars("__WANIX_DEFAULT_CMDLINE_JSON__").as_slice(),
        str_chars(cmdline.as_str()).as_slice(),
    );
    let kernel = json_string(DIRECT_V86_DEFAULT_KERNEL_PATH);
    let page = replace_all(
        page.as_slice(),
        str_chars("__WANIX_DEFAULT_KERNEL_URL_JSON__").as_slice(),
        str_chars(kernel.as_str()).as_slice(),
    );
    let memory = decimal_string(DIRECT_V86_MEMORY_SIZE as u64);
    let page = replace_all(
        page.as_slice(),
        str_chars("__WANIX_DEFAULT_MEMORY_SIZE__").as_slice(),
        str_chars(memory.as_str()).as_slice(),
    );
    let vga = decimal_string(DIRECT_V86_VGA_MEMORY_SIZE as u64);
    let page = replace_all(
        page.as_slice(),
        str_chars("__WANIX_DEFAULT_VGA_MEMORY_SIZE__").as_slice(),
        str_chars(vga.as_str()).as_slice(),
    );
    string_from_chars(page.as_slice())
}

/// The bundle whose page boots v86 directly.
pub const DIRECT_V86_BUNDLE: &'static str = "direct-v86";

/// The bundle whose page speaks 9P to the served root.
pub const FS9P_BUNDLE: &'static str = "fs9p";

/// The bundle whose page is the workbench over 9P.
pub const WORKBENCH_FS9P_BUNDLE: &'static str = "workbench-fs9p";

/// The page templates the bundles ship with.
pub struct BundleTemplates {
    pub direct_v86: String,
    pub fs9p: String,
    pub workbench_fs9p: String,
}

/// The page of a bundle, for the three bundles that have one.
pub open spec fn bundle_page(bundle: Seq<char>, templates: BundleTemplates) -> Option<Seq<char>> {
    if bundle == DIRECT_V86_BUNDLE@ {
        Some(direct_v86_page(templates.direct_v86@))
    } else if bundle == FS9P_BUNDLE@ {
        Some(templates.fs9p@)
    } else if bundle == WORKBENCH_FS9P_BUNDLE@ {
        Some(templates.workbench_fs9p@)
    } else {
        None
    }
}

fn same_text(a: &str, b: &str) -> (r: bool)
    ensures
        r == (a@ == b@),
{
    let x = str_chars(a);
    let y = str_chars(b);
    crate::seqs::chars_eq(x.as_slice(), y.as_slice())
}

fn copy_text(s: &str) -> (r: String)
    ensures
        r@ == s@,
{
    let chars = str_chars(s);
    string_from_chars(chars.as_slice())
}

/// The page of `bundle`, when it has one (see `bundle_page`).
pub fn bundle_html(bundle: &str, templates: &BundleTemplates) -> (r: Option<String>)
    ensures
        r matches Some(h) ==> bundle_page(bundle@, *templates) == Some(h@),
        r is None ==> bundle_page(bundle@, *templates) is None,
{
    if same_text(bundle, DIRECT_V86_BUNDLE) {
        Some(direct_v86_bundle_html(templates.direct_v86.as_str()))
    } else if same_text(bundle, FS9P_BUNDLE) {
        Some(copy_text(templates.fs9p.as_str()))
    } else if same_text(bundle, WORKBENCH_FS9P_BUNDLE) {
        Some(copy_text(templates.workbench_fs9p.as_str()))
    } else {
        None
    }
}

} // verus!
