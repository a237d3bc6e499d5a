//! `wanix tool serve [--config TOOLS.toml] [--tool NAME ...] [--listen
//! IP:PORT] [--insecure-open]` (`--addr` is a synonym of `--listen`).
//!
//! Loading the config file and reading the socket address are the caller's
//! work: the parser stops with `NeedConfig` or `NeedAddr` and is handed back
//! what that work gave before it goes on.

use vstd::prelude::*;
use crate::error::CliError;
use crate::text::{str_chars, string_from_chars, push_str, push_decimal, decimal, debug_str, debug_quoted};
use crate::seqs::chars_eq;
use super::config::ToolConfigFile;
use crate::volume::serve::LocalAddr;

verus! {

/// A parsed `tool serve`.
#[derive(Debug, Clone, PartialEq, Eq)]
pub struct ToolServeCommand {
    pub tools: Vec<String>,
    pub config: Option<ToolConfigFile>,
    pub local_addr: Option<LocalAddr>,
    pub insecure_open: bool,
}

/// The parser's progress; of the config only its tool names matter here.
pub struct ToolScan {
    pub index: int,
    pub tools: Seq<Seq<char>>,
    pub config: Option<Seq<Seq<char>>>,
    pub addr: Option<(Seq<char>, u16)>,
    pub insecure_open: bool,
}

/// The command as plain values.
pub struct ToolCommandModel {
    pub tools: Seq<Seq<char>>,
    pub config: Option<Seq<Seq<char>>>,
    pub addr: Option<(Seq<char>, u16)>,
    pub insecure_open: bool,
}

/// Where reading the arguments stops.
pub enum ToolOutcome {
    /// At a `--config` whose file (at the index) needs loading.
    NeedConfig(int, Seq<char>),
    /// At a `--listen`/`--addr` whose value needs reading.
    NeedAddr(int, Seq<char>),
    Error(Seq<char>),
    Finished(ToolCommandModel),
}

pub open spec fn builtins() -> Seq<Seq<char>> {
    seq!["model"@, "sha256"@, "upper"@]
}

/// The names on offer: the configured ones, then the built-ins they do
/// not shadow.
pub open spec fn available_names(config: Option<Seq<Seq<char>>>) -> Seq<Seq<char>> {
    let names = match config {
        Some(n) => n,
        None => Seq::empty(),
    };
    names + not_in(builtins(), names)
}

/// The items of `bs` that `names` lacks, in order.
pub open spec fn not_in(bs: Seq<Seq<char>>, names: Seq<Seq<char>>) -> Seq<Seq<char>>
    decreases bs.len(),
{
    if bs.len() == 0 {
        Seq::empty()
    } else if names.contains(bs.last()) {
        not_in(bs.drop_last(), names)
    } else {
        not_in(bs.drop_last(), names).push(bs.last())
    }
}

pub open spec fn comma_joined(items: Seq<Seq<char>>) -> Seq<char>
    decreases items.len(),
{
    if items.len() == 0 {
        Seq::empty()
    } else if items.len() == 1 {
        items[0]
    } else {
        comma_joined(items.drop_last()) + ", "@ + items.last()
    }
}

pub open spec fn known(config: Option<Seq<Seq<char>>>, name: Seq<char>) -> bool {
    (config matches Some(n) && n.contains(name)) || builtins().contains(name)
}

/// The first selected tool that is neither configured nor built in.
pub open spec fn first_unknown_tool(tools: Seq<Seq<char>>, config: Option<Seq<Seq<char>>>) -> Option<Seq<char>>
    decreases tools.len(),
{
    if tools.len() == 0 {
        None
    } else if !known(config, tools[0]) {
        Some(tools[0])
    } else {
        first_unknown_tool(tools.drop_first(), config)
    }
}

pub open spec fn tool_public_message() -> Seq<char> {
    "tool serve on the public endpoint exposes each tool to anyone with its ticket; pass --listen IP:PORT (use port 0 to serve multiple tools) or --insecure-open to deliberately export to the open internet"@
}

pub open spec fn tool_fixed_port_message(count: nat) -> Seq<char> {
    "tool serve: serving "@ + decimal(count)
        + " tools needs a unique port per endpoint; pass --addr with port 0 (e.g. 127.0.0.1:0) instead of a fixed port"@
}

/// The command once every argument is read: each `--tool` must be known;
/// no `--tool` means every configured tool (and is an error without a
/// config); a fixed port serves one tool only; without an address the
/// public endpoint needs `--insecure-open`.
pub open spec fn finish_tool_scan(st: ToolScan) -> ToolOutcome {
    match first_unknown_tool(st.tools, st.config) {
        Some(name) => ToolOutcome::Error(
            "tool serve: unknown tool "@ + debug_str(name) + " (available: "@ + comma_joined(
                available_names(st.config),
            ) + ")"@,
        ),
        None => if st.tools.len() == 0 && st.config is None {
            ToolOutcome::Error(
                "tool serve: specify one or more --tool NAME (or --config TOOLS.toml)"@,
            )
        } else {
            let tools = if st.tools.len() == 0 {
                st.config->0
            } else {
                st.tools
            };
            if tools.len() > 1 && (st.addr matches Some(a) && a.1 != 0) {
                ToolOutcome::Error(tool_fixed_port_message(tools.len()))
            } else if st.addr is None && !st.insecure_open {
                ToolOutcome::Error(tool_public_message())
            } else {
                ToolOutcome::Finished(
                    ToolCommandModel {
                        tools,
                        config: st.config,
                        addr: st.addr,
                        insecure_open: st.insecure_open,
                    },
                )
            }
        },
    }
}

/// Reads the arguments from `st.index` on.
pub open spec fn tool_scan(args: Seq<Seq<char>>, st: ToolScan) -> ToolOutcome
    decreases args.len() - st.index,
{
    if st.index < 0 || st.index >= args.len() {
        finish_tool_scan(st)
    } else {
        let a = args[st.index];
        if a == "--insecure-open"@ {
            tool_scan(args, ToolScan { index: st.index + 1, insecure_open: true, ..st })
        } else if a == "--config"@ {
            if st.config is Some {
                ToolOutcome::Error("tool serve: --config given more than once"@)
            } else if st.index + 1 >= args.len() {
                ToolOutcome::Error("tool serve --config expects a value"@)
            } else {
                ToolOutcome::NeedConfig(st.index, args[st.index + 1])
            }
        } else if a == "--tool"@ {
            if st.index + 1 >= args.len() {
                ToolOutcome::Error("tool serve --tool expects a value"@)
            } else {
                let name = args[st.index + 1];
                if st.tools.contains(name) {
                    ToolOutcome::Error("tool serve: --tool "@ + name + " given more than once"@)
                } else {
                    tool_scan(args, ToolScan { index: st.index + 2, tools: st.tools.push(name), ..st })
                }
            }
        } else if a == "--listen"@ || a == "--addr"@ {
            if st.index + 1 >= args.len() {
                ToolOutcome::Error("tool serve "@ + a + " expects a value"@)
            } else {
                ToolOutcome::NeedAddr(st.index, args[st.index + 1])
            }
        } else {
            ToolOutcome::Error("tool serve: unexpected argument "@ + a)
        }
    }
}

/// One step of the parser's work.
#[derive(Debug)]
pub enum ToolServeStep {
    /// Load and check this config file and hand it back (`supply_config`).
    NeedConfig(String),
    /// Read this address and hand back its port (`supply_addr`).
    NeedAddr(String),
    /// Parsing is over.
    Done(Result<ToolServeCommand, CliError>),
}

/// The `tool serve` parser, driven by `step`, `supply_config` and
/// `supply_addr`.
#[derive(Debug)]
pub struct ToolServeParser {
    index: usize,
    tools: Vec<String>,
    config: Option<ToolConfigFile>,
    local_addr: Option<LocalAddr>,
    insecure_open: bool,
}

pub open spec fn config_names(c: Option<ToolConfigFile>) -> Option<Seq<Seq<char>>> {
    match c {
        Some(f) => Some(f.tools@.map_values(|t: (String, super::config::ProcToolConfig)| t.0@)),
        None => None,
    }
}

pub open spec fn addr_model(a: Option<LocalAddr>) -> Option<(Seq<char>, u16)> {
    match a {
        Some(x) => Some((x.text@, x.port)),
        None => None,
    }
}

impl ToolServeParser {
    /// The config handed to `supply_config`, as it was handed over.
    pub closed spec fn config_file(&self) -> Option<ToolConfigFile> {
        self.config
    }
}

impl View for ToolServeParser {
    type V = ToolScan;

    closed spec fn view(&self) -> ToolScan {
        ToolScan {
            index: self.index as int,
            tools: self.tools.deep_view(),
            config: config_names(self.config),
            addr: addr_model(self.local_addr),
            insecure_open: self.insecure_open,
        }
    }
}

pub open spec fn tool_command_model(c: ToolServeCommand) -> ToolCommandModel {
    ToolCommandModel {
        tools: c.tools.deep_view(),
        config: config_names(c.config),
        addr: addr_model(c.local_addr),
        insecure_open: c.insecure_open,
    }
}

pub open spec fn tool_step_matches(outcome: ToolOutcome, r: ToolServeStep) -> bool {
    match outcome {
        ToolOutcome::NeedConfig(_, path) => r matches ToolServeStep::NeedConfig(s) && s@ == path,
        ToolOutcome::NeedAddr(_, raw) => r matches ToolServeStep::NeedAddr(s) && s@ == raw,
        ToolOutcome::Error(m) => r matches ToolServeStep::Done(Err(e)) && e.message@ == m
            && e.exit_code == 2,
        ToolOutcome::Finished(c) => r matches ToolServeStep::Done(Ok(cmd)) && tool_command_model(cmd)
            == c,
    }
}

pub open spec fn stops_here(outcome: ToolOutcome, index: int) -> bool {
    match outcome {
        ToolOutcome::NeedConfig(i, _) => i == index,
        ToolOutcome::NeedAddr(i, _) => i == index,
        _ => true,
    }
}

fn arg_is(a: &String, lit: &str) -> (r: bool)
    ensures
        r == (a@ == lit@),
{
    let x = str_chars(a.as_str());
    let y = str_chars(lit);
    chars_eq(x.as_slice(), y.as_slice())
}

fn contains_name(v: &Vec<String>, s: &String) -> (r: bool)
    ensures
        r == v.deep_view().contains(s@),
{
    let mut i: usize = 0;
    while i < v.len()
        invariant
            i <= v.len(),
            forall|j: int| 0 <= j < i ==> v.deep_view()[j] != s@,
        decreases v.len() - i,
    {
        if v[i] == *s {
            assert(v.deep_view()[i as int] == s@);
            return true;
        }
        i = i + 1;
    }
    false
}

fn clone_names(v: &Vec<String>) -> (r: Vec<String>)
    ensures
        r.deep_view() == v.deep_view(),
{
    let mut r: Vec<String> = Vec::new();
    let mut i: usize = 0;
    while i < v.len()
        invariant
            i <= v.len(),
            r.deep_view() == v.deep_view().take(i as int),
        decreases v.len() - i,
    {
        let ghost before = r.deep_view();
        r.push(v[i].clone());
        assert(r.deep_view() =~= before.push(v[i as int]@));
        assert(v.deep_view().take(i + 1) =~= v.deep_view().take(i as int).push(v[i as int]@));
        i = i + 1;
    }
    assert(v.deep_view().take(i as int) =~= v.deep_view());
    r
}

fn usage_parts(a: &str, b: &str, c: &str) -> (e: CliError)
    ensures
        e.message@ == a@ + b@ + c@,
        e.exit_code == 2,
{
    let mut m: Vec<char> = Vec::new();
    push_str(&mut m, a);
    push_str(&mut m, b);
    push_str(&mut m, c);
    let text = string_from_chars(m.as_slice());
    CliError::usage(text.as_str())
}

fn usage_two(a: &str, b: &str) -> (e: CliError)
    ensures
        e.message@ == a@ + b@,
        e.exit_code == 2,
{
    let mut m: Vec<char> = Vec::new();
    push_str(&mut m, a);
    push_str(&mut m, b);
    let text = string_from_chars(m.as_slice());
    CliError::usage(text.as_str())
}

/// The names on offer (see `available_names`).
pub fn available_tool_names(config: &Option<ToolConfigFile>) -> (r: Vec<String>)
    ensures
        r.deep_view() == available_names(config_names(*config)),
{
    let configured: Vec<String> = match config {
        Some(f) => f.names(),
        None => Vec::new(),
    };
    let ghost cv = configured.deep_view();
    let mut names = clone_names(&configured);
    let builtin = super::builtin_tool_names();
    let ghost bv = builtin@.map_values(|s: &'static str| s@);
    assert(bv =~= builtins());
    let mut i: usize = 0;
    assert(names.deep_view() =~= cv + not_in(bv.take(0), cv));
    while i < builtin.len()
        invariant
            i <= builtin.len(),
            bv == builtin@.map_values(|s: &'static str| s@),
            cv == configured.deep_view(),
            names.deep_view() == cv + not_in(bv.take(i as int), cv),
        decreases builtin.len() - i,
    {
        let b = builtin[i].to_owned();
        assert(bv.take(i + 1).drop_last() =~= bv.take(i as int));
        assert(bv.take(i + 1).last() == b@);
        if !contains_name(&configured, &b) {
            let ghost before = names.deep_view();
            names.push(b);
            assert(names.deep_view() =~= before.push(b@));
        }
        i = i + 1;
    }
    assert(bv.take(i as int) =~= bv);
    names
}

fn comma_join(items: &Vec<String>) -> (r: Vec<char>)
    ensures
        r@ == comma_joined(items.deep_view()),
{
    let ghost iv = items.deep_view();
    let mut out: Vec<char> = Vec::new();
    let mut i: usize = 0;
    assert(out@ =~= comma_joined(iv.take(0)));
    while i < items.len()
        invariant
            i <= items.len(),
            iv == items.deep_view(),
            out@ == comma_joined(iv.take(i as int)),
        decreases items.len() - i,
    {
        assert(iv.take(i + 1).drop_last() =~= iv.take(i as int));
        assert(iv.take(i + 1).last() == items@[i as int]@);
        if i > 0 {
            push_str(&mut out, ", ");
        }
        push_str(&mut out, items[i].as_str());
        proof {
            if i == 0 {
                assert(iv.take(1)[0] == items@[0]@);
            }
        }
        assert(out@ =~= comma_joined(iv.take(i + 1)));
        i = i + 1;
    }
    assert(iv.take(i as int) =~= iv);
    out
}

fn config_has(config: &Option<ToolConfigFile>, name: &String) -> (r: bool)
    ensures
        r == (config_names(*config) matches Some(n) && n.contains(name@)),
{
    match config {
        Some(f) => {
            let names = f.names();
            contains_name(&names, name)
        },
        None => false,
    }
}

fn builtin_has(name: &String) -> (r: bool)
    ensures
        r == builtins().contains(name@),
{
    let b = super::builtin_tool_names();
    let found = arg_is(name, b[0]) || arg_is(name, b[1]) || arg_is(name, b[2]);
    proof {
        if builtins().contains(name@) {
            let j = choose|j: int| 0 <= j < 3 && builtins()[j] == name@;
        }
        if found {
            if name@ == b@[0]@ {
                assert(builtins()[0] == name@);
            } else if name@ == b@[1]@ {
                assert(builtins()[1] == name@);
            } else {
                assert(builtins()[2] == name@);
            }
        }
    }
    found
}

impl ToolServeParser {
    /// A parser at the first argument, with nothing read.
    pub fn new() -> (r: Self)
        ensures
            r@ == (ToolScan {
                index: 0,
                tools: Seq::empty(),
                config: None,
                addr: None,
                insecure_open: false,
            }),
            r.config_file() is None,
    {
        let r = ToolServeParser {
            index: 0,
            tools: Vec::new(),
            config: None,
            local_addr: None,
            insecure_open: false,
        };
        assert(r.tools.deep_view() =~= Seq::<Seq<char>>::empty());
        r
    }

    /// Reads arguments until a config or an address needs the caller's work,
    /// a usage error, or the end. What is left to read leads to the same
    /// place; when work is needed the parser stands at that option.
    pub fn step(&mut self, args: &[String]) -> (r: ToolServeStep)
        requires
            old(self)@.index >= 0,
        ensures
            tool_step_matches(tool_scan(args.deep_view(), old(self)@), r),
            !(r is Done) ==> tool_scan(args.deep_view(), final(self)@) == tool_scan(
                args.deep_view(),
                old(self)@,
            ),
            !(r is Done) ==> stops_here(tool_scan(args.deep_view(), final(self)@), final(self)@.index),
            !(r is Done) ==> final(self).config_file() == old(self).config_file(),
            r matches ToolServeStep::Done(Ok(c)) ==> c.config == old(self).config_file(),
    {
        let ghost av = args.deep_view();
        let ghost start = self@;
        while self.index < args.len()
            invariant
                av == args.deep_view(),
                start == old(self)@,
                tool_scan(av, start) == tool_scan(av, self@),
                self@.index >= 0,
                self.config == old(self).config,
            decreases args.len() - self.index,
        {
            let i = self.index;
            assert(av[i as int] == args@[i as int]@);
            let a = &args[i];
            if arg_is(a, "--insecure-open") {
                self.insecure_open = true;
                self.index = i + 1;
            } else if arg_is(a, "--config") {
                if self.config.is_some() {
                    return ToolServeStep::Done(
                        Err(CliError::usage("tool serve: --config given more than once")),
                    );
                }
                if i + 1 >= args.len() {
                    return ToolServeStep::Done(
                        Err(CliError::usage("tool serve --config expects a value")),
                    );
                }
                assert(av[i + 1] == args@[i + 1]@);
                return ToolServeStep::NeedConfig(args[i + 1].clone());
            } else if arg_is(a, "--tool") {
                if i + 1 >= args.len() {
                    return ToolServeStep::Done(Err(CliError::usage("tool serve --tool expects a value")));
                }
                let name = &args[i + 1];
                assert(av[i + 1] == name@);
                if contains_name(&self.tools, name) {
                    return ToolServeStep::Done(
                        Err(usage_parts("tool serve: --tool ", name.as_str(), " given more than once")),
                    );
                }
                let ghost before = self.tools.deep_view();
                self.tools.push(name.clone());
                assert(self.tools.deep_view() =~= before.push(name@));
                self.index = i + 2;
            } else if arg_is(a, "--listen") || arg_is(a, "--addr") {
                if i + 1 >= args.len() {
                    return ToolServeStep::Done(
                        Err(usage_parts("tool serve ", a.as_str(), " expects a value")),
                    );
                }
                assert(av[i + 1] == args@[i + 1]@);
                return ToolServeStep::NeedAddr(args[i + 1].clone());
            } else {
                return ToolServeStep::Done(Err(usage_two("tool serve: unexpected argument ", a.as_str())));
            }
        }
        ToolServeStep::Done(self.finish())
    }

    /// Hands back the loaded and checked config, or why it could not be had
    /// (that error is the parse's). On success the parser moves past
    /// `--config` and its value.
    pub fn supply_config(&mut self, args: &[String], loaded: Result<ToolConfigFile, CliError>) -> (r: Option<CliError>)
        requires
            tool_scan(args.deep_view(), old(self)@) matches ToolOutcome::NeedConfig(i, _) && i
                == old(self)@.index,
            loaded matches Ok(f) ==> f.in_name_order(),
        ensures
            match loaded {
                Ok(file) => r is None && final(self)@ == (ToolScan {
                    index: old(self)@.index + 2,
                    config: config_names(Some(file)),
                    ..old(self)@
                }) && final(self).config_file() == Some(file),
                Err(e) => r == Some(e),
            },
    {
        proof {
            lemma_tool_scan_stop(args.deep_view(), old(self)@);
        }
        match loaded {
            Ok(file) => {
                let i = self.index;
                assert(i as int == old(self)@.index);
                assert(args.deep_view().len() == args@.len());
                assert(i + 1 < args.len());
                self.config = Some(file);
                self.index = i + 2;
                None
            },
            Err(e) => Some(e),
        }
    }

    /// Hands back what reading the pending address gave: its port, or the
    /// parse error, which becomes a usage error. On success the parser moves
    /// past the option and its value.
    pub fn supply_addr(&mut self, args: &[String], parsed: Result<u16, String>) -> (r: Option<CliError>)
        requires
            tool_scan(args.deep_view(), old(self)@) matches ToolOutcome::NeedAddr(i, _) && i
                == old(self)@.index,
        ensures
            match parsed {
                Ok(port) => r is None && final(self)@ == (ToolScan {
                    index: old(self)@.index + 2,
                    addr: Some((args.deep_view()[old(self)@.index + 1], port)),
                    ..old(self)@
                }) && final(self).config_file() == old(self).config_file(),
                Err(e) => r matches Some(err) && err.message@ == "tool serve --listen must be IP:PORT: "@
                    + e@ && err.exit_code == 2,
            },
    {
        proof {
            lemma_tool_scan_stop(args.deep_view(), old(self)@);
        }
        assert(args.deep_view().len() == args@.len());
        match parsed {
            Ok(port) => {
                let i = self.index;
                assert(i as int == old(self)@.index);
                assert(i + 1 < args.len());
                assert(args.deep_view()[i + 1] == args@[i + 1]@);
                self.local_addr = Some(LocalAddr { text: args[i + 1].clone(), port });
                self.index = i + 2;
                None
            },
            Err(e) => Some(usage_two("tool serve --listen must be IP:PORT: ", e.as_str())),
        }
    }

    fn finish(&mut self) -> (r: Result<ToolServeCommand, CliError>)
        ensures
            tool_step_matches(finish_tool_scan(old(self)@), ToolServeStep::Done(r)),
            r matches Ok(c) ==> c.config == old(self).config_file(),
    {
        let ghost tv = self.tools.deep_view();
        let mut i: usize = 0;
        assert(tv.skip(0) =~= tv);
        while i < self.tools.len()
            invariant
                i <= self.tools.len(),
                tv == self.tools.deep_view(),
                first_unknown_tool(tv, config_names(self.config)) == first_unknown_tool(
                    tv.skip(i as int),
                    config_names(self.config),
                ),
            decreases self.tools.len() - i,
        {
            let name = &self.tools[i];
            assert(tv.skip(i as int)[0] == name@);
            assert(tv.skip(i as int).drop_first() =~= tv.skip(i + 1));
            if !config_has(&self.config, name) && !builtin_has(name) {
                let available = available_tool_names(&self.config);
                let mut m: Vec<char> = Vec::new();
                push_str(&mut m, "tool serve: unknown tool ");
                let quoted = debug_quoted(name.as_str());
                push_str(&mut m, quoted.as_str());
                push_str(&mut m, " (available: ");
                let joined = comma_join(&available);
                crate::text::push_chars(&mut m, joined.as_slice());
                push_str(&mut m, ")");
                let text = string_from_chars(m.as_slice());
                return Err(CliError::usage(text.as_str()));
            }
            i = i + 1;
        }
        assert(tv.skip(i as int) =~= Seq::<Seq<char>>::empty());
        let tools = if self.tools.len() == 0 {
            match &self.config {
                Some(f) => f.names(),
                None => {
                    return Err(
                        CliError::usage(
                            "tool serve: specify one or more --tool NAME (or --config TOOLS.toml)",
                        ),
                    );
                },
            }
        } else {
            clone_names(&self.tools)
        };
        let fixed = match &self.local_addr {
            Some(a) => a.port != 0,
            None => false,
        };
        if tools.len() > 1 && fixed {
            let mut m: Vec<char> = Vec::new();
            push_str(&mut m, "tool serve: serving ");
            push_decimal(&mut m, tools.len() as u64);
            push_str(
                &mut m,
                " tools needs a unique port per endpoint; pass --addr with port 0 (e.g. 127.0.0.1:0) instead of a fixed port",
            );
            let text = string_from_chars(m.as_slice());
            return Err(CliError::usage(text.as_str()));
        }
        if self.local_addr.is_none() && !self.insecure_open {
            return Err(
                CliError::usage(
                    "tool serve on the public endpoint exposes each tool to anyone with its ticket; pass --listen IP:PORT (use port 0 to serve multiple tools) or --insecure-open to deliberately export to the open internet",
                ),
            );
        }
        let local_addr = match &self.local_addr {
            Some(a) => Some(LocalAddr { text: a.text.clone(), port: a.port }),
            None => None,
        };
        let config = self.config.take();
        Ok(ToolServeCommand { tools, config, local_addr, insecure_open: self.insecure_open })
    }
}

pub proof fn lemma_tool_scan_after(args: Seq<Seq<char>>, st: ToolScan)
    ensures
        tool_scan(args, st) matches ToolOutcome::NeedConfig(i, _) ==> i >= st.index,
        tool_scan(args, st) matches ToolOutcome::NeedAddr(i, _) ==> i >= st.index,
    decreases args.len() - st.index,
{
    if 0 <= st.index < args.len() {
        let a = args[st.index];
        if a == "--insecure-open"@ {
            lemma_tool_scan_after(args, ToolScan { index: st.index + 1, insecure_open: true, ..st });
        } else if a == "--tool"@ && st.index + 1 < args.len() {
            let name = args[st.index + 1];
            lemma_tool_scan_after(
                args,
                ToolScan { index: st.index + 2, tools: st.tools.push(name), ..st },
            );
        }
    }
}

/// Where reading stops for outside work, the option stands at the index and
/// its value follows it.
pub proof fn lemma_tool_scan_stop(args: Seq<Seq<char>>, st: ToolScan)
    requires
        (tool_scan(args, st) matches ToolOutcome::NeedConfig(i, _) && i == st.index) || (tool_scan(
            args,
            st,
        ) matches ToolOutcome::NeedAddr(i, _) && i == st.index),
    ensures
        0 <= st.index && st.index + 1 < args.len(),
        tool_scan(args, st) matches ToolOutcome::NeedConfig(_, p) ==> p == args[st.index + 1],
        tool_scan(args, st) matches ToolOutcome::NeedAddr(_, p) ==> p == args[st.index + 1],
{
    if 0 <= st.index < args.len() {
        let a = args[st.index];
        if a == "--insecure-open"@ {
            lemma_tool_scan_after(args, ToolScan { index: st.index + 1, insecure_open: true, ..st });
        } else if a == "--tool"@ && st.index + 1 < args.len() {
            let name = args[st.index + 1];
            lemma_tool_scan_after(
                args,
                ToolScan { index: st.index + 2, tools: st.tools.push(name), ..st },
            );
        }
    }
}

/// A parse that succeeds never exposes tools on the public endpoint by
/// default, serves at least one tool, every one of them known, and pins a
/// fixed port to a single tool.
pub proof fn lemma_tools_served_only_by_choice(args: Seq<Seq<char>>, st: ToolScan)
    ensures
        tool_scan(args, st) matches ToolOutcome::Finished(c) ==> (c.addr is Some || c.insecure_open)
            && (c.tools.len() > 1 ==> (c.addr matches Some(a) ==> a.1 == 0)),
    decreases args.len() - st.index,
{
    if 0 <= st.index < args.len() {
        let a = args[st.index];
        if a == "--insecure-open"@ {
            lemma_tools_served_only_by_choice(
                args,
                ToolScan { index: st.index + 1, insecure_open: true, ..st },
            );
        } else if a == "--tool"@ && st.index + 1 < args.len() {
            let name = args[st.index + 1];
            lemma_tools_served_only_by_choice(
                args,
                ToolScan { index: st.index + 2, tools: st.tools.push(name), ..st },
            );
        }
    }
}

} // verus!
