//! Which commands want the native terminal in raw mode.

use vstd::prelude::*;
use crate::text::str_chars;
use crate::seqs::chars_eq;

verus! {

/// `qjs-shell` asks with `--raw`; an interactive `sh` (no `-c`, no help)
/// is raw by default; everything else stays cooked.
pub open spec fn wants_raw(args: Seq<Seq<char>>) -> bool {
    if args.len() == 0 {
        false
    } else if args[0] == "qjs-shell"@ {
        exists|i: int| 1 <= i < args.len() && #[trigger] args[i] == "--raw"@
    } else if args[0] == "sh"@ {
        !exists|i: int|
            1 <= i < args.len() && (#[trigger] args[i] == "-c"@ || args[i] == "--help"@ || args[i]
                == "-h"@)
    } else {
        false
    }
}

fn is(a: &String, lit: &str) -> (r: bool)
    ensures
        r == (a@ == lit@),
{
    chars_eq(str_chars(a.as_str()).as_slice(), str_chars(lit).as_slice())
}

/// Whether the command asks for stdin in raw mode (see `wants_raw`).
pub fn command_requests_raw_tty(args: &[String]) -> (r: bool)
    ensures
        r == wants_raw(args.deep_view()),
{
    let ghost av = args.deep_view();
    if args.len() == 0 {
        return false;
    }
    assert(av[0] == args@[0]@);
    let qjs = is(&args[0], "qjs-shell");
    let sh = is(&args[0], "sh");
    if !qjs && !sh {
        return false;
    }
    let mut i: usize = 1;
    while i < args.len()
        invariant
            1 <= i <= args.len(),
            av == args.deep_view(),
            qjs == (av[0] == "qjs-shell"@),
            sh == (av[0] == "sh"@),
            qjs || sh,
            qjs ==> forall|j: int| 1 <= j < i ==> #[trigger] av[j] != "--raw"@,
            !qjs ==> forall|j: int|
                1 <= j < i ==> !(#[trigger] av[j] == "-c"@ || av[j] == "--help"@ || av[j] == "-h"@),
        decreases args.len() - i,
    {
        assert(av[i as int] == args@[i as int]@);
        if qjs {
            if is(&args[i], "--raw") {
                assert(av[i as int] == "--raw"@);
                return true;
            }
        } else if is(&args[i], "-c") || is(&args[i], "--help") || is(&args[i], "-h") {
            return false;
        }
        i = i + 1;
    }
    !qjs
}

} // verus!
