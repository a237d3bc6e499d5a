//! Whether a served root can boot the direct v86 machine: which kernel,
//! initrd and init it offers, and what is missing. The file probes are the
//! caller's; this module decides from their answers.

use vstd::prelude::*;
use crate::text::{string_from_chars, push_str};
use crate::terminal::protocol::{json_str, json_string};

verus! {

pub const DIRECT_V86_DEFAULT_KERNEL_PATH: &'static str = "/boot/bzImage";

pub const DIRECT_V86_INIT_PATH: &'static str = "/bin/init";

/// Where a kernel may be, in order of preference.
pub fn direct_v86_kernel_candidates() -> (r: Vec<&'static str>)
    ensures
        r@.len() == 2,
        r@[0]@ == DIRECT_V86_DEFAULT_KERNEL_PATH@,
        r@[1]@ == "/bzImage"@,
{
    vec![DIRECT_V86_DEFAULT_KERNEL_PATH, "/bzImage"]
}

/// Where an initrd may be, in order of preference.
pub fn direct_v86_initrd_candidates() -> (r: Vec<&'static str>)
    ensures
        r@.len() == 4,
        r@[0]@ == "/boot/initrd"@,
        r@[1]@ == "/boot/initrd.img"@,
        r@[2]@ == "/initrd"@,
        r@[3]@ == "/initrd.img"@,
{
    vec!["/boot/initrd", "/boot/initrd.img", "/initrd", "/initrd.img"]
}

/// An init can run when it is a regular file with an execute bit set.
pub fn boot_init_is_executable(is_file: bool, mode: u32) -> (r: bool)
    ensures
        r == (is_file && mode & 0o111u32 != 0),
{
    is_file && mode & 0o111 != 0
}

/// The first candidate that is a file, given which candidates are files.
pub fn first_existing_static_route(candidates: &[&'static str], is_file: &[bool]) -> (r: Option<
    &'static str,
>)
    requires
        candidates.len() == is_file.len(),
    ensures
        match r {
            Some(route) => exists|i: int|
                0 <= i < candidates.len() && is_file[i] && candidates[i] == route && forall|j: int|
                    0 <= j < i ==> !is_file[j],
            None => forall|j: int| 0 <= j < candidates.len() ==> !is_file[j],
        },
{
    let mut i: usize = 0;
    while i < candidates.len()
        invariant
            i <= candidates.len(),
            candidates.len() == is_file.len(),
            forall|j: int| 0 <= j < i ==> !is_file[j],
        decreases candidates.len() - i,
    {
        if is_file[i] {
            return Some(candidates[i]);
        }
        i = i + 1;
    }
    None
}

/// The init route, when the init there can run.
pub fn first_executable_init_route(route: &'static str, executable: bool) -> (r: Option<
    &'static str,
>)
    ensures
        r == (if executable {
            Some(route)
        } else {
            None
        }),
{
    if executable {
        Some(route)
    } else {
        None
    }
}

/// What a root lacks to boot: the default kernel path when no kernel was
/// found, then the init path when no runnable init was found.
#[derive(Debug)]
pub struct RootfsHandoffReadiness {
    pub missing: Vec<&'static str>,
}

pub open spec fn missing_of(kernel_found: bool, init_found: bool) -> Seq<Seq<char>> {
    (if kernel_found {
        Seq::empty()
    } else {
        seq![DIRECT_V86_DEFAULT_KERNEL_PATH@]
    }) + (if init_found {
        Seq::empty()
    } else {
        seq![DIRECT_V86_INIT_PATH@]
    })
}

pub open spec fn missing_view(v: Seq<&'static str>) -> Seq<Seq<char>> {
    v.map_values(|s: &'static str| s@)
}

/// The readiness of a root, from the kernel and init that were found.
pub fn rootfs_handoff_readiness(kernel: Option<&'static str>, init: Option<&'static str>) -> (r:
    RootfsHandoffReadiness)
    ensures
        missing_view(r.missing@) == missing_of(kernel is Some, init is Some),
{
    let mut missing: Vec<&'static str> = Vec::new();
    if kernel.is_none() {
        missing.push(DIRECT_V86_DEFAULT_KERNEL_PATH);
    }
    if init.is_none() {
        missing.push(DIRECT_V86_INIT_PATH);
    }
    assert(missing_view(missing@) =~= missing_of(kernel is Some, init is Some));
    RootfsHandoffReadiness { missing }
}

pub open spec fn opt_route_field(name: Seq<char>, v: Option<Seq<char>>) -> Seq<char> {
    match v {
        Some(x) => name + json_str(x) + ","@,
        None => Seq::empty(),
    }
}

pub open spec fn json_strings(items: Seq<Seq<char>>) -> Seq<char>
    decreases items.len(),
{
    if items.len() == 0 {
        Seq::empty()
    } else if items.len() == 1 {
        json_str(items[0])
    } else {
        json_strings(items.drop_last()) + ","@ + json_str(items.last())
    }
}

/// The boot object of the discovery document: the kernel, initrd and init
/// that were found, whether the root is ready, and what it lacks.
pub open spec fn boot_json(kernel: Option<Seq<char>>, initrd: Option<Seq<char>>, init: Option<Seq<char>>) -> Seq<char> {
    let missing = missing_of(kernel is Some, init is Some);
    "{"@ + opt_route_field("\"kernel\":"@, kernel) + opt_route_field("\"initrd\":"@, initrd)
        + opt_route_field("\"init\":"@, init) + "\"ready\":"@ + (if missing.len() == 0 {
        "true"@
    } else {
        "false"@
    }) + (if missing.len() == 0 {
        Seq::empty()
    } else {
        ",\"missing\":["@ + json_strings(missing) + "]"@
    }) + "}"@
}

fn push_opt_route(out: &mut Vec<char>, name: &str, v: Option<&str>)
    ensures
        final(out)@ == old(out)@ + opt_route_field(
            name@,
            match v {
                Some(x) => Some(x@),
                None => None,
            },
        ),
{
    let ghost start = out@;
    if let Some(x) = v {
        push_str(out, name);
        let j = json_string(x);
        push_str(out, j.as_str());
        push_str(out, ",");
    }
    assert(out@ =~= start + opt_route_field(
        name@,
        match v {
            Some(x) => Some(x@),
            None => None,
        },
    ));
}

pub open spec fn opt_view(v: Option<&str>) -> Option<Seq<char>> {
    match v {
        Some(x) => Some(x@),
        None => None,
    }
}

/// The boot object (see `boot_json`) for what the root offers.
pub fn direct_v86_boot_json(kernel: Option<&str>, initrd: Option<&str>, init: Option<&str>) -> (r:
    String)
    ensures
        r@ == boot_json(opt_view(kernel), opt_view(initrd), opt_view(init)),
{
    let ghost missing = missing_of(kernel is Some, init is Some);
    let mut out: Vec<char> = Vec::new();
    push_str(&mut out, "{");
    push_opt_route(&mut out, "\"kernel\":", kernel);
    push_opt_route(&mut out, "\"initrd\":", initrd);
    push_opt_route(&mut out, "\"init\":", init);
    push_str(&mut out, "\"ready\":");
    let ghost before_missing = out@;
    let ready = kernel.is_some() && init.is_some();
    if ready {
        push_str(&mut out, "true");
    } else {
        push_str(&mut out, "false");
        push_str(&mut out, ",\"missing\":[");
        if kernel.is_none() {
            let j = json_string(DIRECT_V86_DEFAULT_KERNEL_PATH);
            push_str(&mut out, j.as_str());
            if init.is_none() {
                push_str(&mut out, ",");
            }
        }
        if init.is_none() {
            let j = json_string(DIRECT_V86_INIT_PATH);
            push_str(&mut out, j.as_str());
        }
        push_str(&mut out, "]");
        proof {
            let k = DIRECT_V86_DEFAULT_KERNEL_PATH@;
            let i = DIRECT_V86_INIT_PATH@;
            if kernel is None && init is None {
                assert(missing =~= seq![k, i]);
                assert(missing.drop_last() =~= seq![k]);
                assert(json_strings(seq![k]) == json_str(k));
                assert(json_strings(missing) == json_str(k) + ","@ + json_str(i));
            } else if kernel is None {
                assert(missing =~= seq![k]);
                assert(json_strings(missing) == json_str(k));
            } else {
                assert(missing =~= seq![i]);
                assert(json_strings(missing) == json_str(i));
            }
            assert(out@ =~= before_missing + "false"@ + ",\"missing\":["@ + json_strings(missing) + "]"@);
        }
    }
    push_str(&mut out, "}");
    assert(out@ =~= boot_json(opt_view(kernel), opt_view(initrd), opt_view(init)));
    string_from_chars(out.as_slice())
}

} // verus!
