//! The `wanix serve` command line: a directory (positional or `--root`),
//! `--addr`/`--listen`, `--bundle`, and the flags `--once` and
//! `--wanix-services`, each accepted at most once.

use vstd::prelude::*;
use crate::error::CliError;
use crate::text::{str_chars, string_from_chars, push_str};
use crate::seqs::chars_eq;

verus! {

/// The address served when none is given.
pub const DEFAULT_SERVE_ADDR: &'static str = "127.0.0.1:7654";

/// The options of `serve` that take a value.
#[derive(Debug, Clone, Copy, PartialEq, Eq, Structural)]
pub enum ServeValueOption {
    Root,
    Addr,
    Listen,
    Bundle,
    P9,
    Peer,
    Grant,
}

impl ServeValueOption {
    pub open spec fn label_text(self) -> Seq<char> {
        match self {
            ServeValueOption::Root => "serve --root"@,
            ServeValueOption::Addr => "serve --addr"@,
            ServeValueOption::Listen => "serve --listen"@,
            ServeValueOption::Bundle => "serve --bundle"@,
            ServeValueOption::P9 => "serve --p9"@,
            ServeValueOption::Peer => "serve --peer"@,
            ServeValueOption::Grant => "serve --grant"@,
        }
    }

    pub open spec fn value_text(self) -> Seq<char> {
        match self {
            ServeValueOption::Root => "DIR"@,
            ServeValueOption::Addr | ServeValueOption::Listen | ServeValueOption::P9 => "HOST:PORT"@,
            ServeValueOption::Bundle => "NAME"@,
            ServeValueOption::Peer => "HEX"@,
            ServeValueOption::Grant => "ANAME:PREFIX:RIGHTS"@,
        }
    }

    /// How the option is named in messages (`serve --root`).
    pub fn label(self) -> (r: &'static str)
        ensures
            r@ == self.label_text(),
    {
        match self {
            ServeValueOption::Root => "serve --root",
            ServeValueOption::Addr => "serve --addr",
            ServeValueOption::Listen => "serve --listen",
            ServeValueOption::Bundle => "serve --bundle",
            ServeValueOption::P9 => "serve --p9",
            ServeValueOption::Peer => "serve --peer",
            ServeValueOption::Grant => "serve --grant",
        }
    }

    /// What the option's value is called in messages (`DIR`, `HOST:PORT`).
    pub fn value_name(self) -> (r: &'static str)
        ensures
            r@ == self.value_text(),
    {
        match self {
            ServeValueOption::Root => "DIR",
            ServeValueOption::Addr | ServeValueOption::Listen | ServeValueOption::P9 => "HOST:PORT",
            ServeValueOption::Bundle => "NAME",
            ServeValueOption::Peer => "HEX",
            ServeValueOption::Grant => "ANAME:PREFIX:RIGHTS",
        }
    }
}

/// The flags of `serve`.
#[derive(Debug, Clone, Copy, PartialEq, Eq, Structural)]
pub enum ServeFlagOption {
    Once,
    WanixServices,
}

/// The value options this parser handles, by their spelling.
pub open spec fn value_option_of(arg: Seq<char>) -> Option<ServeValueOption> {
    if arg == "--root"@ {
        Some(ServeValueOption::Root)
    } else if arg == "--addr"@ {
        Some(ServeValueOption::Addr)
    } else if arg == "--listen"@ {
        Some(ServeValueOption::Listen)
    } else if arg == "--bundle"@ {
        Some(ServeValueOption::Bundle)
    } else {
        None
    }
}

pub open spec fn flag_option_of(arg: Seq<char>) -> Option<ServeFlagOption> {
    if arg == "--once"@ {
        Some(ServeFlagOption::Once)
    } else if arg == "--wanix-services"@ {
        Some(ServeFlagOption::WanixServices)
    } else {
        None
    }
}

/// `:PORT` listens on every interface (`0.0.0.0:PORT`); any other address is
/// kept as it is.
pub open spec fn normalized_addr(addr: Seq<char>) -> Seq<char> {
    if addr.len() > 0 && addr[0] == ':' {
        "0.0.0.0"@ + addr
    } else {
        addr
    }
}

/// Normalises a listen address (see `normalized_addr`).
pub fn normalize_listen_addr(addr: &str) -> (r: String)
    ensures
        r@ == normalized_addr(addr@),
{
    let chars = str_chars(addr);
    if chars.len() > 0 && chars[0] == ':' {
        let mut out: Vec<char> = Vec::new();
        push_str(&mut out, "0.0.0.0");
        push_str(&mut out, addr);
        string_from_chars(out.as_slice())
    } else {
        addr.to_owned()
    }
}

/// A parsed `serve` command.
#[derive(Debug, Clone, PartialEq, Eq)]
pub struct ServeCommand {
    pub root_path: String,
    pub addr: String,
    pub bundle: Option<String>,
    pub wanix_services: bool,
    pub once: bool,
}

/// What has been given so far.
#[derive(Debug)]
pub struct ServeCommandParts {
    pub root_path: Option<String>,
    pub addr: Option<String>,
    pub bundle: Option<String>,
    pub wanix_services: bool,
    pub once: bool,
}

pub struct PartsModel {
    pub root: Option<Seq<char>>,
    pub addr: Option<Seq<char>>,
    pub bundle: Option<Seq<char>>,
    pub wanix_services: bool,
    pub once: bool,
}

impl View for ServeCommandParts {
    type V = PartsModel;

    open spec fn view(&self) -> PartsModel {
        PartsModel {
            root: self.root_path.deep_view(),
            addr: self.addr.deep_view(),
            bundle: self.bundle.deep_view(),
            wanix_services: self.wanix_services,
            once: self.once,
        }
    }
}

/// The command made from what was given: the directory defaults to `.`
/// and the address to `DEFAULT_SERVE_ADDR`.
pub struct CommandModel {
    pub root: Seq<char>,
    pub addr: Seq<char>,
    pub bundle: Option<Seq<char>>,
    pub wanix_services: bool,
    pub once: bool,
}

impl View for ServeCommand {
    type V = CommandModel;

    open spec fn view(&self) -> CommandModel {
        CommandModel {
            root: self.root_path@,
            addr: self.addr@,
            bundle: self.bundle.deep_view(),
            wanix_services: self.wanix_services,
            once: self.once,
        }
    }
}

pub open spec fn finished(p: PartsModel) -> CommandModel {
    CommandModel {
        root: match p.root {
            Some(r) => r,
            None => "."@,
        },
        addr: match p.addr {
            Some(a) => a,
            None => DEFAULT_SERVE_ADDR@,
        },
        bundle: p.bundle,
        wanix_services: p.wanix_services,
        once: p.once,
    }
}

pub open spec fn empty_parts() -> PartsModel {
    PartsModel { root: None, addr: None, bundle: None, wanix_services: false, once: false }
}

/// Setting the root: refused with `duplicate` when one was given already.
pub open spec fn with_root(p: PartsModel, value: Seq<char>, duplicate: Seq<char>) -> Result<
    PartsModel,
    Seq<char>,
> {
    if p.root is Some {
        Err(duplicate)
    } else {
        Ok(PartsModel { root: Some(value), ..p })
    }
}

pub open spec fn with_value(p: PartsModel, option: ServeValueOption, value: Seq<char>) -> Result<
    PartsModel,
    Seq<char>,
> {
    match option {
        ServeValueOption::Root => with_root(p, value, "serve accepts only one --root"@),
        ServeValueOption::Bundle => if p.bundle is Some {
            Err("serve accepts only one --bundle"@)
        } else {
            Ok(PartsModel { bundle: Some(value), ..p })
        },
        _ => if p.addr is Some {
            Err("serve accepts only one --addr or --listen"@)
        } else {
            Ok(PartsModel { addr: Some(normalized_addr(value)), ..p })
        },
    }
}

pub open spec fn with_flag(p: PartsModel, flag: ServeFlagOption) -> Result<PartsModel, Seq<char>> {
    match flag {
        ServeFlagOption::Once => if p.once {
            Err("serve accepts only one --once"@)
        } else {
            Ok(PartsModel { once: true, ..p })
        },
        ServeFlagOption::WanixServices => if p.wanix_services {
            Err("serve accepts only one --wanix-services"@)
        } else {
            Ok(PartsModel { wanix_services: true, ..p })
        },
    }
}

/// Reading the arguments from position `i` on, with `p` given so far; the
/// error is the usage message.
pub open spec fn parse_from(args: Seq<Seq<char>>, i: int, p: PartsModel) -> Result<PartsModel, Seq<char>>
    decreases args.len() - i,
{
    if i < 0 || i >= args.len() {
        Ok(p)
    } else {
        let a = args[i];
        match value_option_of(a) {
            Some(option) => if i + 1 >= args.len() {
                Err(option.label_text() + " expects "@ + option.value_text())
            } else {
                match with_value(p, option, args[i + 1]) {
                    Ok(q) => parse_from(args, i + 2, q),
                    Err(e) => Err(e),
                }
            },
            None => match flag_option_of(a) {
                Some(flag) => match with_flag(p, flag) {
                    Ok(q) => parse_from(args, i + 1, q),
                    Err(e) => Err(e),
                },
                None => if a.len() > 0 && a[0] == '-' {
                    Err("unexpected serve argument: "@ + a)
                } else {
                    match with_root(p, a, "serve accepts only one directory"@) {
                        Ok(q) => parse_from(args, i + 1, q),
                        Err(e) => Err(e),
                    }
                },
            },
        }
    }
}

fn is_arg(a: &[char], name: &str) -> (r: bool)
    ensures
        r == (a@ == name@),
{
    let n = str_chars(name);
    chars_eq(a, n.as_slice())
}

fn value_option(a: &[char]) -> (r: Option<ServeValueOption>)
    ensures
        r == value_option_of(a@),
{
    if is_arg(a, "--root") {
        Some(ServeValueOption::Root)
    } else if is_arg(a, "--addr") {
        Some(ServeValueOption::Addr)
    } else if is_arg(a, "--listen") {
        Some(ServeValueOption::Listen)
    } else if is_arg(a, "--bundle") {
        Some(ServeValueOption::Bundle)
    } else {
        None
    }
}

fn flag_option(a: &[char]) -> (r: Option<ServeFlagOption>)
    ensures
        r == flag_option_of(a@),
{
    if is_arg(a, "--once") {
        Some(ServeFlagOption::Once)
    } else if is_arg(a, "--wanix-services") {
        Some(ServeFlagOption::WanixServices)
    } else {
        None
    }
}

impl ServeCommandParts {
    /// Nothing given yet.
    pub fn new() -> (r: Self)
        ensures
            r@ == empty_parts(),
    {
        ServeCommandParts { root_path: None, addr: None, bundle: None, wanix_services: false, once: false }
    }

    /// Sets the directory, refused with `duplicate_message` when it was given.
    pub fn set_root(&mut self, value: &str, duplicate_message: &str) -> (r: Result<(), CliError>)
        ensures
            match with_root(old(self)@, value@, duplicate_message@) {
                Ok(q) => r is Ok && final(self)@ == q,
                Err(e) => r matches Err(err) && err.message@ == e && err.exit_code == 2
                    && *final(self) == *old(self),
            },
    {
        if self.root_path.is_some() {
            return Err(CliError::usage(duplicate_message));
        }
        self.root_path = Some(value.to_owned());
        Ok(())
    }

    /// Sets the listen address (normalised), given once by `--addr` or
    /// `--listen`.
    pub fn set_addr(&mut self, raw_value: &str) -> (r: Result<(), CliError>)
        ensures
            match with_value(old(self)@, ServeValueOption::Addr, raw_value@) {
                Ok(q) => r is Ok && final(self)@ == q,
                Err(e) => r matches Err(err) && err.message@ == e && err.exit_code == 2
                    && *final(self) == *old(self),
            },
    {
        if self.addr.is_some() {
            return Err(CliError::usage("serve accepts only one --addr or --listen"));
        }
        self.addr = Some(normalize_listen_addr(raw_value));
        Ok(())
    }

    /// Sets the bundle, given once.
    pub fn set_bundle(&mut self, value: &str) -> (r: Result<(), CliError>)
        ensures
            match with_value(old(self)@, ServeValueOption::Bundle, value@) {
                Ok(q) => r is Ok && final(self)@ == q,
                Err(e) => r matches Err(err) && err.message@ == e && err.exit_code == 2
                    && *final(self) == *old(self),
            },
    {
        if self.bundle.is_some() {
            return Err(CliError::usage("serve accepts only one --bundle"));
        }
        self.bundle = Some(value.to_owned());
        Ok(())
    }

    /// Sets `--once`, given once.
    pub fn set_once(&mut self) -> (r: Result<(), CliError>)
        ensures
            match with_flag(old(self)@, ServeFlagOption::Once) {
                Ok(q) => r is Ok && final(self)@ == q,
                Err(e) => r matches Err(err) && err.message@ == e && err.exit_code == 2
                    && *final(self) == *old(self),
            },
    {
        if self.once {
            return Err(CliError::usage("serve accepts only one --once"));
        }
        self.once = true;
        Ok(())
    }

    /// Sets `--wanix-services`, given once.
    pub fn set_wanix_services(&mut self) -> (r: Result<(), CliError>)
        ensures
            match with_flag(old(self)@, ServeFlagOption::WanixServices) {
                Ok(q) => r is Ok && final(self)@ == q,
                Err(e) => r matches Err(err) && err.message@ == e && err.exit_code == 2
                    && *final(self) == *old(self),
            },
    {
        if self.wanix_services {
            return Err(CliError::usage("serve accepts only one --wanix-services"));
        }
        self.wanix_services = true;
        Ok(())
    }

    /// The command, with the defaults for what was not given.
    pub fn finish(self) -> (r: ServeCommand)
        ensures
            r@ == finished(self@),
    {
        ServeCommand {
            root_path: match self.root_path {
                Some(r) => r,
                None => ".".to_owned(),
            },
            addr: match self.addr {
                Some(a) => a,
                None => DEFAULT_SERVE_ADDR.to_owned(),
            },
            bundle: self.bundle,
            wanix_services: self.wanix_services,
            once: self.once,
        }
    }
}

/// Parses the arguments after `serve`. Every mistake is a usage error (exit
/// code 2) whose message is the one `parse_from` gives.
pub fn parse_serve_command(args: &[String]) -> (r: Result<ServeCommand, CliError>)
    ensures
        match parse_from(args.deep_view(), 0, empty_parts()) {
            Ok(p) => r matches Ok(c) && c@ == finished(p),
            Err(e) => r matches Err(err) && err.message@ == e && err.exit_code == 2,
        },
{
    let ghost av = args.deep_view();
    let mut parts = ServeCommandParts::new();
    let mut index: usize = 0;
    while index < args.len()
        invariant
            index <= args.len(),
            av == args.deep_view(),
            parse_from(av, 0, empty_parts()) == parse_from(av, index as int, parts@),
        decreases args.len() - index,
    {
        let a = str_chars(args[index].as_str());
        assert(av[index as int] == a@);
        if let Some(option) = value_option(a.as_slice()) {
            if index + 1 >= args.len() {
                let mut message: Vec<char> = Vec::new();
                push_str(&mut message, option.label());
                push_str(&mut message, " expects ");
                push_str(&mut message, option.value_name());
                let text = string_from_chars(message.as_slice());
                return Err(CliError::usage(text.as_str()));
            }
            let value = args[index + 1].as_str();
            assert(av[index + 1] == value@);
            let applied = match option {
                ServeValueOption::Root => parts.set_root(value, "serve accepts only one --root"),
                ServeValueOption::Bundle => parts.set_bundle(value),
                _ => parts.set_addr(value),
            };
            if let Err(e) = applied {
                return Err(e);
            }
            index = index + 2;
        } else if let Some(flag) = flag_option(a.as_slice()) {
            let applied = match flag {
                ServeFlagOption::Once => parts.set_once(),
                ServeFlagOption::WanixServices => parts.set_wanix_services(),
            };
            if let Err(e) = applied {
                return Err(e);
            }
            index = index + 1;
        } else if a.len() > 0 && a[0] == '-' {
            let mut message: Vec<char> = Vec::new();
            push_str(&mut message, "unexpected serve argument: ");
            push_str(&mut message, args[index].as_str());
            let text = string_from_chars(message.as_slice());
            return Err(CliError::usage(text.as_str()));
        } else {
            if let Err(e) = parts.set_root(args[index].as_str(), "serve accepts only one directory") {
                return Err(e);
            }
            index = index + 1;
        }
    }
    Ok(parts.finish())
}

/// Whatever the arguments, the address of a parsed command is normalised:
/// it never starts with `:`.
pub proof fn lemma_parsed_addr_is_normalized(args: Seq<Seq<char>>, i: int, p: PartsModel)
    requires
        p.addr matches Some(a) ==> !(a.len() > 0 && a[0] == ':'),
    ensures
        parse_from(args, i, p) matches Ok(q) ==> (q.addr matches Some(a) ==> !(a.len() > 0 && a[0]
            == ':')),
    decreases args.len() - i,
{
    if 0 <= i < args.len() {
        let a = args[i];
        match value_option_of(a) {
            Some(option) => if i + 1 < args.len() {
                if let Ok(q) = with_value(p, option, args[i + 1]) {
                    let v = args[i + 1];
                    if v.len() > 0 && v[0] == ':' {
                        reveal_strlit("0.0.0.0");
                        assert(normalized_addr(v)[0] == '0');
                    }
                    lemma_parsed_addr_is_normalized(args, i + 2, q);
                }
            },
            None => match flag_option_of(a) {
                Some(flag) => if let Ok(q) = with_flag(p, flag) {
                    lemma_parsed_addr_is_normalized(args, i + 1, q);
                },
                None => if !(a.len() > 0 && a[0] == '-') {
                    if let Ok(q) = with_root(p, a, "serve accepts only one directory"@) {
                        lemma_parsed_addr_is_normalized(args, i + 1, q);
                    }
                },
            },
        }
    }
}

} // verus!
