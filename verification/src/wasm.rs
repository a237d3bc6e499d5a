//! The argv a compiled WASI task is started with.

use vstd::prelude::*;
use crate::text::{str_chars, string_from_chars};
use crate::seqs::{split_char, split_on};

verus! {

/// A path component that names something: not empty, not `.`, not `..`.
pub open spec fn normal_part(p: Seq<char>) -> bool {
    p.len() > 0 && p != seq!['.'] && p != seq!['.', '.']
}

/// The last component of a path once empty and `.` components are dropped.
pub open spec fn last_component(parts: Seq<Seq<char>>) -> Option<Seq<char>>
    decreases parts.len(),
{
    if parts.len() == 0 {
        None
    } else if parts.last().len() == 0 || parts.last() == seq!['.'] {
        last_component(parts.drop_last())
    } else {
        Some(parts.last())
    }
}

/// The file name of a path (`Path::file_name`): its last component, unless
/// that is `..` or there is none.
pub open spec fn file_name_of(path: Seq<char>) -> Option<Seq<char>> {
    match last_component(split_char(path, '/')) {
        Some(p) => if p == seq!['.', '.'] {
            None
        } else {
            Some(p)
        },
        None => None,
    }
}

/// The program name a task sees: the module's file name, else `guest`.
pub fn wasm_program_name(path: &str) -> (r: String)
    ensures
        r@ == match file_name_of(path@) {
            Some(n) => n,
            None => "guest"@,
        },
{
    let chars = str_chars(path);
    let parts = split_on(chars.as_slice(), '/');
    let ghost pv = parts.deep_view();
    let mut i = parts.len();
    assert(pv.take(i as int) =~= pv);
    while i > 0
        invariant
            i <= parts.len(),
            pv == parts.deep_view(),
            pv == split_char(path@, '/'),
            last_component(pv) == last_component(pv.take(i as int)),
        decreases i,
    {
        let p = &parts[i - 1];
        assert(pv.take(i as int).last() == p@);
        assert(pv.take(i as int).drop_last() =~= pv.take(i - 1));
        let dot = p.len() == 1 && p[0] == '.';
        proof {
            if p@ == seq!['.'] {
                assert(p@[0] == '.');
            }
            if dot {
                assert(p@ =~= seq!['.']);
            }
        }
        if p.len() > 0 && !dot {
            let dotdot = p.len() == 2 && p[0] == '.' && p[1] == '.';
            proof {
                if p@ == seq!['.', '.'] {
                    assert(p@[0] == '.' && p@[1] == '.');
                }
                if dotdot {
                    assert(p@ =~= seq!['.', '.']);
                }
            }
            if dotdot {
                return "guest".to_owned();
            }
            return string_from_chars(p.as_slice());
        }
        i = i - 1;
    }
    assert(pv.take(0) =~= Seq::<Seq<char>>::empty());
    "guest".to_owned()
}

/// The task's argv: its program name, then the given arguments.
pub fn wasm_argv(path: &str, args: Vec<String>) -> (r: Vec<String>)
    ensures
        r.deep_view() == seq![
            match file_name_of(path@) {
                Some(n) => n,
                None => "guest"@,
            },
        ] + args.deep_view(),
{
    let mut argv: Vec<String> = Vec::new();
    let name = wasm_program_name(path);
    argv.push(name);
    let ghost av = args.deep_view();
    let mut i: usize = 0;
    assert(argv.deep_view() =~= seq![name@] + av.take(0));
    while i < args.len()
        invariant
            i <= args.len(),
            av == args.deep_view(),
            argv.deep_view() == seq![name@] + av.take(i as int),
        decreases args.len() - i,
    {
        let ghost before = argv.deep_view();
        argv.push(args[i].clone());
        assert(argv.deep_view() =~= before.push(args@[i as int]@));
        assert(av.take(i + 1) =~= av.take(i as int).push(args@[i as int]@));
        i = i + 1;
    }
    assert(av.take(i as int) =~= av);
    argv
}

} // verus!
