//! `wanix volume serve (--volume NAME ... | --all) [--addr IP:PORT]
//! [--insecure-open]`: which volumes to serve and on what terms.
//!
//! Reading `--addr IP:PORT` is the socket-address parser's work, done by the
//! caller: the parser stops with `NeedAddr` at each `--addr`, and is handed
//! back the port or the parse error before it goes on.

use vstd::prelude::*;
use crate::error::CliError;
use crate::text::{str_chars, string_from_chars, push_str, decimal, push_decimal};
use crate::seqs::chars_eq;
use super::{valid_volume, invalid_name_message, validate_volume_name, sort_names, sorted_text};

verus! {

/// Which volumes to export.
#[derive(Debug, Clone, PartialEq, Eq)]
pub enum VolumeSelection {
    /// The `--volume` names, each once, in order.
    Explicit(Vec<String>),
    /// `--all`: every defined volume.
    All,
}

/// A local address to bind: as written, and its port.
#[derive(Debug, Clone, PartialEq, Eq)]
pub struct LocalAddr {
    pub text: String,
    pub port: u16,
}

/// A parsed `volume serve`.
#[derive(Debug, Clone, PartialEq, Eq)]
pub struct VolumeServeCommand {
    pub selection: VolumeSelection,
    pub local_addr: Option<LocalAddr>,
    pub insecure_open: bool,
}

/// The parser's progress: the next argument, the names so far, `--all`, the
/// last address read, and `--insecure-open`.
pub struct ScanState {
    pub index: int,
    pub names: Seq<Seq<char>>,
    pub all: bool,
    pub addr: Option<(Seq<char>, u16)>,
    pub insecure_open: bool,
}

/// The command as plain values: the selection (`None` for `--all`), the
/// address and the opt-in.
pub struct CommandModel {
    pub names: Option<Seq<Seq<char>>>,
    pub addr: Option<(Seq<char>, u16)>,
    pub insecure_open: bool,
}

/// Where reading the arguments stops.
pub enum ScanOutcome {
    /// At an `--addr` whose value (at the index) needs reading.
    NeedAddr(int, Seq<char>),
    /// At a usage error.
    Error(Seq<char>),
    /// At the end, with the command.
    Finished(CommandModel),
}

pub open spec fn public_endpoint_message() -> Seq<char> {
    "volume serve on the public endpoint exports each volume read-write to anyone with its ticket; pass --addr IP:PORT (use port 0 to serve multiple volumes) or --insecure-open to deliberately export to the open internet"@
}

pub open spec fn fixed_port_message(count: nat) -> Seq<char> {
    "volume serve: serving "@ + decimal(count)
        + " volumes needs a unique port per endpoint; pass --addr with port 0 (e.g. 127.0.0.1:0) instead of a fixed port"@
}

/// Several volumes cannot share one fixed port: with more than one volume,
/// a given port must be 0.
pub open spec fn fixed_port_error(port: Option<u16>, count: nat) -> Option<Seq<char>> {
    if count > 1 && (port matches Some(p) && p != 0) {
        Some(fixed_port_message(count))
    } else {
        None
    }
}

pub open spec fn port_of(addr: Option<(Seq<char>, u16)>) -> Option<u16> {
    match addr {
        Some(a) => Some(a.1),
        None => None,
    }
}

/// The command once every argument is read: exactly one of `--all` and
/// `--volume` must be used, a fixed port serves one volume only, and without
/// `--addr` the public endpoint needs `--insecure-open`.
pub open spec fn finish_scan(st: ScanState) -> ScanOutcome {
    if st.all && st.names.len() > 0 {
        ScanOutcome::Error("volume serve: --all cannot be combined with --volume"@)
    } else if !st.all && st.names.len() == 0 {
        ScanOutcome::Error("volume serve: specify --all or one or more --volume NAME"@)
    } else if !st.all && fixed_port_error(port_of(st.addr), st.names.len()) is Some {
        ScanOutcome::Error(fixed_port_error(port_of(st.addr), st.names.len())->0)
    } else if st.addr is None && !st.insecure_open {
        ScanOutcome::Error(public_endpoint_message())
    } else {
        ScanOutcome::Finished(
            CommandModel {
                names: if st.all {
                    None
                } else {
                    Some(st.names)
                },
                addr: st.addr,
                insecure_open: st.insecure_open,
            },
        )
    }
}

/// Reads the arguments from `st.index` on.
pub open spec fn scan(args: Seq<Seq<char>>, st: ScanState) -> ScanOutcome
    decreases args.len() - st.index,
{
    if st.index < 0 || st.index >= args.len() {
        finish_scan(st)
    } else {
        let a = args[st.index];
        if a == "--all"@ {
            scan(args, ScanState { index: st.index + 1, all: true, ..st })
        } else if a == "--insecure-open"@ {
            scan(args, ScanState { index: st.index + 1, insecure_open: true, ..st })
        } else if a == "--volume"@ {
            if st.index + 1 >= args.len() {
                ScanOutcome::Error("volume serve --volume expects a value"@)
            } else {
                let name = args[st.index + 1];
                if !valid_volume(name) {
                    ScanOutcome::Error(invalid_name_message(name))
                } else if st.names.contains(name) {
                    ScanOutcome::Error("volume serve: --volume "@ + name + " given more than once"@)
                } else {
                    scan(args, ScanState { index: st.index + 2, names: st.names.push(name), ..st })
                }
            }
        } else if a == "--addr"@ {
            if st.index + 1 >= args.len() {
                ScanOutcome::Error("volume serve --addr expects a value"@)
            } else {
                ScanOutcome::NeedAddr(st.index, args[st.index + 1])
            }
        } else {
            ScanOutcome::Error("volume serve: unexpected argument "@ + a)
        }
    }
}

/// Refuses a fixed port for more than one volume (see `fixed_port_error`).
pub fn reject_fixed_port_multi(port: Option<u16>, count: usize) -> (r: Result<(), CliError>)
    ensures
        match fixed_port_error(port, count as nat) {
            Some(m) => r matches Err(e) && e.message@ == m && e.exit_code == 2,
            None => r is Ok,
        },
{
    let fixed = match port {
        Some(p) => p != 0,
        None => false,
    };
    if count > 1 && fixed {
        let mut message: Vec<char> = Vec::new();
        push_str(&mut message, "volume serve: serving ");
        push_decimal(&mut message, count as u64);
        push_str(
            &mut message,
            " volumes needs a unique port per endpoint; pass --addr with port 0 (e.g. 127.0.0.1:0) instead of a fixed port",
        );
        let text = string_from_chars(message.as_slice());
        return Err(CliError::usage(text.as_str()));
    }
    Ok(())
}

/// One step of the parser's work.
#[derive(Debug)]
pub enum VolumeServeStep {
    /// Read this `--addr` value and hand back its port (`supply_addr`).
    NeedAddr(String),
    /// Parsing is over.
    Done(Result<VolumeServeCommand, CliError>),
}

/// The `volume serve` parser, driven by `step` and `supply_addr`.
#[derive(Debug)]
pub struct VolumeServeParser {
    index: usize,
    names: Vec<String>,
    all: bool,
    local_addr: Option<LocalAddr>,
    insecure_open: bool,
}

pub open spec fn addr_model(a: Option<LocalAddr>) -> Option<(Seq<char>, u16)> {
    match a {
        Some(x) => Some((x.text@, x.port)),
        None => None,
    }
}

impl View for VolumeServeParser {
    type V = ScanState;

    closed spec fn view(&self) -> ScanState {
        ScanState {
            index: self.index as int,
            names: self.names.deep_view(),
            all: self.all,
            addr: addr_model(self.local_addr),
            insecure_open: self.insecure_open,
        }
    }
}

pub open spec fn command_model(c: VolumeServeCommand) -> CommandModel {
    CommandModel {
        names: match c.selection {
            VolumeSelection::Explicit(v) => Some(v.deep_view()),
            VolumeSelection::All => None,
        },
        addr: addr_model(c.local_addr),
        insecure_open: c.insecure_open,
    }
}

/// The step's result agrees with where reading stops.
pub open spec fn step_matches(outcome: ScanOutcome, r: VolumeServeStep) -> bool {
    match outcome {
        ScanOutcome::NeedAddr(_, raw) => r matches VolumeServeStep::NeedAddr(s) && s@ == raw,
        ScanOutcome::Error(m) => r matches VolumeServeStep::Done(Err(e)) && e.message@ == m
            && e.exit_code == 2,
        ScanOutcome::Finished(c) => r matches VolumeServeStep::Done(Ok(cmd)) && command_model(cmd)
            == c,
    }
}

fn arg_is(a: &String, lit: &str) -> (r: bool)
    ensures
        r == (a@ == lit@),
{
    let x = str_chars(a.as_str());
    let y = str_chars(lit);
    chars_eq(x.as_slice(), y.as_slice())
}

fn contains_name(v: &Vec<String>, s: &String) -> (r: bool)
    ensures
        r == v.deep_view().contains(s@),
{
    let mut i: usize = 0;
    while i < v.len()
        invariant
            i <= v.len(),
            forall|j: int| 0 <= j < i ==> v.deep_view()[j] != s@,
        decreases v.len() - i,
    {
        if v[i] == *s {
            assert(v.deep_view()[i as int] == s@);
            return true;
        }
        i = i + 1;
    }
    false
}

fn clone_names(v: &Vec<String>) -> (r: Vec<String>)
    ensures
        r.deep_view() == v.deep_view(),
{
    let mut r: Vec<String> = Vec::new();
    let mut i: usize = 0;
    while i < v.len()
        invariant
            i <= v.len(),
            r.deep_view() == v.deep_view().take(i as int),
        decreases v.len() - i,
    {
        let ghost before = r.deep_view();
        r.push(v[i].clone());
        assert(r.deep_view() =~= before.push(v[i as int]@));
        assert(v.deep_view().take(i + 1) =~= v.deep_view().take(i as int).push(v[i as int]@));
        i = i + 1;
    }
    assert(v.deep_view().take(i as int) =~= v.deep_view());
    r
}

fn usage_with(prefix: &str, middle: &str, suffix: &str) -> (e: CliError)
    ensures
        e.message@ == prefix@ + middle@ + suffix@,
        e.exit_code == 2,
{
    let mut message: Vec<char> = Vec::new();
    push_str(&mut message, prefix);
    push_str(&mut message, middle);
    push_str(&mut message, suffix);
    let text = string_from_chars(message.as_slice());
    CliError::usage(text.as_str())
}

fn usage_after(prefix: &str, rest: &str) -> (e: CliError)
    ensures
        e.message@ == prefix@ + rest@,
        e.exit_code == 2,
{
    let mut message: Vec<char> = Vec::new();
    push_str(&mut message, prefix);
    push_str(&mut message, rest);
    let text = string_from_chars(message.as_slice());
    CliError::usage(text.as_str())
}

impl VolumeServeParser {
    /// A parser at the first argument, with nothing read.
    pub fn new() -> (r: Self)
        ensures
            r@ == (ScanState {
                index: 0,
                names: Seq::empty(),
                all: false,
                addr: None,
                insecure_open: false,
            }),
    {
        let r = VolumeServeParser {
            index: 0,
            names: Vec::new(),
            all: false,
            local_addr: None,
            insecure_open: false,
        };
        assert(r.names.deep_view() =~= Seq::<Seq<char>>::empty());
        r
    }

    /// Reads arguments until an `--addr` value needs reading, a usage error,
    /// or the end. What is left to read leads to the same place; on
    /// `NeedAddr` the parser stands at that `--addr`.
    pub fn step(&mut self, args: &[String]) -> (r: VolumeServeStep)
        requires
            old(self)@.index >= 0,
        ensures
            step_matches(scan(args.deep_view(), old(self)@), r),
            scan(args.deep_view(), final(self)@) == scan(args.deep_view(), old(self)@),
            r is NeedAddr ==> (scan(args.deep_view(), final(self)@) matches ScanOutcome::NeedAddr(
                i,
                _,
            ) && i == final(self)@.index),
    {
        let ghost av = args.deep_view();
        let ghost start = self@;
        while self.index < args.len()
            invariant
                av == args.deep_view(),
                start == old(self)@,
                scan(av, start) == scan(av, self@),
                self@.index >= 0,
            decreases args.len() - self.index,
        {
            let i = self.index;
            assert(av[i as int] == args@[i as int]@);
            let a = &args[i];
            if arg_is(a, "--all") {
                self.all = true;
                self.index = i + 1;
            } else if arg_is(a, "--insecure-open") {
                self.insecure_open = true;
                self.index = i + 1;
            } else if arg_is(a, "--volume") {
                if i + 1 >= args.len() {
                    return VolumeServeStep::Done(
                        Err(CliError::usage("volume serve --volume expects a value")),
                    );
                }
                let name = &args[i + 1];
                assert(av[i + 1] == name@);
                if let Err(e) = validate_volume_name(name.as_str()) {
                    return VolumeServeStep::Done(Err(e));
                }
                if contains_name(&self.names, name) {
                    return VolumeServeStep::Done(
                        Err(usage_with("volume serve: --volume ", name.as_str(), " given more than once")),
                    );
                }
                let ghost before = self.names.deep_view();
                self.names.push(name.clone());
                assert(self.names.deep_view() =~= before.push(name@));
                self.index = i + 2;
            } else if arg_is(a, "--addr") {
                if i + 1 >= args.len() {
                    return VolumeServeStep::Done(
                        Err(CliError::usage("volume serve --addr expects a value")),
                    );
                }
                assert(av[i + 1] == args@[i + 1]@);
                return VolumeServeStep::NeedAddr(args[i + 1].clone());
            } else {
                return VolumeServeStep::Done(
                    Err(usage_after("volume serve: unexpected argument ", a.as_str())),
                );
            }
        }
        VolumeServeStep::Done(self.finish())
    }

    /// Hands back what reading the pending `--addr` value gave: its port, or
    /// the parse error, which becomes a usage error. On success the parser
    /// moves past the option and its value.
    pub fn supply_addr(&mut self, args: &[String], parsed: Result<u16, String>) -> (r: Option<CliError>)
        requires
            scan(args.deep_view(), old(self)@) matches ScanOutcome::NeedAddr(i, _) && i
                == old(self)@.index,
        ensures
            match parsed {
                Ok(port) => r is None && final(self)@ == (ScanState {
                    index: old(self)@.index + 2,
                    addr: Some((args.deep_view()[old(self)@.index + 1], port)),
                    ..old(self)@
                }),
                Err(e) => r matches Some(err) && err.message@ == "volume serve --addr must be IP:PORT: "@
                    + e@ && err.exit_code == 2,
            },
    {
        proof {
            lemma_scan_need_addr(args.deep_view(), old(self)@);
        }
        assert(args.deep_view().len() == args@.len());
        match parsed {
            Ok(port) => {
                let i = self.index;
                assert(i as int == old(self)@.index);
                assert(i + 1 < args.len());
                assert(args.deep_view()[i + 1] == args@[i + 1]@);
                self.local_addr = Some(LocalAddr { text: args[i + 1].clone(), port });
                self.index = i + 2;
                None
            },
            Err(e) => Some(usage_after("volume serve --addr must be IP:PORT: ", e.as_str())),
        }
    }

    fn finish(&self) -> (r: Result<VolumeServeCommand, CliError>)
        ensures
            step_matches(finish_scan(self@), VolumeServeStep::Done(r)),
    {
        if self.all && self.names.len() > 0 {
            return Err(CliError::usage("volume serve: --all cannot be combined with --volume"));
        }
        if !self.all && self.names.len() == 0 {
            return Err(CliError::usage("volume serve: specify --all or one or more --volume NAME"));
        }
        if !self.all {
            let port = match &self.local_addr {
                Some(a) => Some(a.port),
                None => None,
            };
            if let Err(e) = reject_fixed_port_multi(port, self.names.len()) {
                return Err(e);
            }
        }
        if self.local_addr.is_none() && !self.insecure_open {
            return Err(
                CliError::usage(
                    "volume serve on the public endpoint exports each volume read-write to anyone with its ticket; pass --addr IP:PORT (use port 0 to serve multiple volumes) or --insecure-open to deliberately export to the open internet",
                ),
            );
        }
        let selection = if self.all {
            VolumeSelection::All
        } else {
            VolumeSelection::Explicit(clone_names(&self.names))
        };
        let local_addr = match &self.local_addr {
            Some(a) => Some(LocalAddr { text: a.text.clone(), port: a.port }),
            None => None,
        };
        Ok(VolumeServeCommand { selection, local_addr, insecure_open: self.insecure_open })
    }
}

/// What `volume serve` says when nothing is selected.
pub open spec fn no_volumes_message() -> Seq<char> {
    "volume serve: no volumes to serve (none defined; create one with `wanix volume create NAME`)"@
}

/// The volumes a serve covers: the `--volume` names as given, or with
/// `--all` every defined volume (`defined`, as read from the volumes
/// directory) in text order. An empty selection is an error.
pub fn resolve_selection(selection: &VolumeSelection, defined: Vec<String>) -> (r: Result<
    Vec<String>,
    CliError,
>)
    ensures
        match selection {
            VolumeSelection::Explicit(names) => if names@.len() == 0 {
                r matches Err(e) && e.message@ == no_volumes_message() && e.exit_code == 1
            } else {
                r matches Ok(v) && v.deep_view() == names.deep_view()
            },
            VolumeSelection::All => if defined@.len() == 0 {
                r matches Err(e) && e.message@ == no_volumes_message() && e.exit_code == 1
            } else {
                r matches Ok(v) && sorted_text(v.deep_view()) && v.deep_view().to_multiset()
                    == defined.deep_view().to_multiset()
            },
        },
{
    let names = match selection {
        VolumeSelection::All => {
            if defined.len() == 0 {
                return Err(CliError::new(
                    "volume serve: no volumes to serve (none defined; create one with `wanix volume create NAME`)",
                    1,
                ));
            }
            sort_names(defined)
        },
        VolumeSelection::Explicit(names) => {
            if names.len() == 0 {
                return Err(CliError::new(
                    "volume serve: no volumes to serve (none defined; create one with `wanix volume create NAME`)",
                    1,
                ));
            }
            clone_names(names)
        },
    };
    Ok(names)
}

pub proof fn lemma_scan_need_addr_after(args: Seq<Seq<char>>, st: ScanState)
    ensures
        scan(args, st) matches ScanOutcome::NeedAddr(i, _) ==> i >= st.index,
    decreases args.len() - st.index,
{
    if 0 <= st.index < args.len() {
        let a = args[st.index];
        if a == "--all"@ {
            lemma_scan_need_addr_after(args, ScanState { index: st.index + 1, all: true, ..st });
        } else if a == "--insecure-open"@ {
            lemma_scan_need_addr_after(
                args,
                ScanState { index: st.index + 1, insecure_open: true, ..st },
            );
        } else if a == "--volume"@ && st.index + 1 < args.len() {
            let name = args[st.index + 1];
            lemma_scan_need_addr_after(
                args,
                ScanState { index: st.index + 2, names: st.names.push(name), ..st },
            );
        }
    }
}

/// Reading stops at an `--addr` that stands where the parser stands only
/// when that argument is `--addr` and a value follows it.
pub proof fn lemma_scan_need_addr(args: Seq<Seq<char>>, st: ScanState)
    requires
        scan(args, st) matches ScanOutcome::NeedAddr(i, _) && i == st.index,
    ensures
        0 <= st.index && st.index + 1 < args.len() && args[st.index] == "--addr"@,
        scan(args, st) == ScanOutcome::NeedAddr(st.index, args[st.index + 1]),
{
    if 0 <= st.index < args.len() {
        let a = args[st.index];
        if a == "--all"@ {
            lemma_scan_need_addr_after(args, ScanState { index: st.index + 1, all: true, ..st });
        } else if a == "--insecure-open"@ {
            lemma_scan_need_addr_after(
                args,
                ScanState { index: st.index + 1, insecure_open: true, ..st },
            );
        } else if a == "--volume"@ && st.index + 1 < args.len() {
            let name = args[st.index + 1];
            lemma_scan_need_addr_after(
                args,
                ScanState { index: st.index + 2, names: st.names.push(name), ..st },
            );
        }
    }
}

/// A parse that succeeds never exports on the public endpoint by default:
/// either an address was given or `--insecure-open` was; and a fixed port
/// serves at most one named volume.
pub proof fn lemma_served_only_by_choice(args: Seq<Seq<char>>, st: ScanState)
    ensures
        scan(args, st) matches ScanOutcome::Finished(c) ==> (c.addr is Some || c.insecure_open) && (
        c.names matches Some(n) && n.len() > 1 ==> (c.addr matches Some(a) ==> a.1 == 0)),
    decreases args.len() - st.index,
{
    if 0 <= st.index < args.len() {
        let a = args[st.index];
        if a == "--all"@ {
            lemma_served_only_by_choice(args, ScanState { index: st.index + 1, all: true, ..st });
        } else if a == "--insecure-open"@ {
            lemma_served_only_by_choice(
                args,
                ScanState { index: st.index + 1, insecure_open: true, ..st },
            );
        } else if a == "--volume"@ && st.index + 1 < args.len() {
            let name = args[st.index + 1];
            lemma_served_only_by_choice(
                args,
                ScanState { index: st.index + 2, names: st.names.push(name), ..st },
            );
        }
    }
}

} // verus!
