//! The policy a `tools.toml` must meet: each tool is one absolute executable
//! and a fixed argument list, with `{input}`/`{output}` as the only
//! placeholders, each present exactly when its `tempfile` mapping is on.
//! Reading the file is the caller's; this module checks what was read.

use vstd::prelude::*;
use crate::error::CliError;
use crate::text::{is_ws, str_chars, string_from_chars, push_str, push_decimal, decimal, debug_str, debug_quoted, char_is_whitespace};
use crate::seqs::chars_eq;
use crate::terminal::resize::find_from;
use crate::terminal::root_changes::lemma_text_le_antisymmetric;
use crate::volume::{chars_le, strictly_sorted, text_le, lemma_text_le_trans};

verus! {

/// How a job's input reaches the process.
#[derive(Debug, Clone, Copy, PartialEq, Eq, Structural)]
pub enum ProcInputMode {
    Stdin,
    Tempfile,
}

/// Where a job's output comes from.
#[derive(Debug, Clone, Copy, PartialEq, Eq, Structural)]
pub enum ProcOutputMode {
    Stdout,
    Tempfile,
}

/// Optional limit overrides.
#[derive(Debug, Clone, Copy, PartialEq, Eq, Structural)]
pub struct ConfigLimits {
    pub max_input_bytes: Option<u64>,
    pub run_timeout_ms: Option<u64>,
    pub max_concurrent_per_principal: Option<u64>,
    pub max_jobs_per_principal: Option<u64>,
    pub max_bytes_per_principal: Option<u64>,
    pub max_total_jobs: Option<u64>,
    pub max_total_bytes: Option<u64>,
    pub max_out_bytes: Option<u64>,
    pub max_err_bytes: Option<u64>,
}

/// Optional lifecycle overrides, in milliseconds.
#[derive(Debug, Clone, Copy, PartialEq, Eq, Structural)]
pub struct ConfigLifecycle {
    pub allocated_ttl_ms: Option<u64>,
    pub retain_done_ms: Option<u64>,
    pub retain_failed_ms: Option<u64>,
}

/// One `[tools.NAME]` table. `visibility` is the configured word.
#[derive(Debug, Clone, PartialEq, Eq)]
pub struct ProcToolConfig {
    pub description: String,
    pub command: String,
    pub args: Vec<String>,
    pub input: ProcInputMode,
    pub output: ProcOutputMode,
    pub visibility: String,
    pub limits: ConfigLimits,
    pub lifecycle: ConfigLifecycle,
}

/// A `tools.toml`: its tools in name order, each name once.
#[derive(Debug, Clone, PartialEq, Eq)]
pub struct ToolConfigFile {
    pub tools: Vec<(String, ProcToolConfig)>,
}

/// Writes `value` into `slot` when there is one.
pub fn set<T: Copy>(slot: &mut T, value: Option<T>)
    ensures
        *final(slot) == match value {
            Some(v) => v,
            None => *old(slot),
        },
{
    if let Some(v) = value {
        *slot = v;
    }
}

// ---------------------------------------------------------------------------
// Names
// ---------------------------------------------------------------------------

pub open spec fn name_char(c: char) -> bool {
    ('a' <= c && c <= 'z') || ('A' <= c && c <= 'Z') || ('0' <= c && c <= '9') || c == '-' || c
        == '_' || c == '.'
}

/// A tool name: `[A-Za-z0-9._-]+`, not starting with `.` or `-`.
pub open spec fn valid_tool_name(name: Seq<char>) -> bool {
    &&& name.len() > 0
    &&& name[0] != '.' && name[0] != '-'
    &&& forall|i: int| 0 <= i < name.len() ==> name_char(#[trigger] name[i])
}

pub open spec fn bad_name_message(name: Seq<char>) -> Seq<char> {
    "tools config: tool name "@ + debug_str(name)
        + " must be [A-Za-z0-9._-]+ and not start with '.' or '-'"@
}

fn all_name_chars(chars: &[char]) -> (r: bool)
    ensures
        r == forall|i: int| 0 <= i < chars@.len() ==> name_char(#[trigger] chars@[i]),
{
    let mut i: usize = 0;
    while i < chars.len()
        invariant
            i <= chars.len(),
            forall|j: int| 0 <= j < i ==> name_char(#[trigger] chars@[j]),
        decreases chars.len() - i,
    {
        let c = chars[i];
        if !(('a' <= c && c <= 'z') || ('A' <= c && c <= 'Z') || ('0' <= c && c <= '9') || c
            == '-' || c == '_' || c == '.') {
            assert(!name_char(chars@[i as int]));
            return false;
        }
        i = i + 1;
    }
    true
}

fn usage3(a: &str, b: &str, c: &str) -> (e: CliError)
    ensures
        e.message@ == a@ + b@ + c@,
        e.exit_code == 2,
{
    let mut m: Vec<char> = Vec::new();
    push_str(&mut m, a);
    push_str(&mut m, b);
    push_str(&mut m, c);
    let text = string_from_chars(m.as_slice());
    CliError::usage(text.as_str())
}

/// Checks a tool name; a bad one is a usage error that quotes it.
pub fn validate_name(name: &str) -> (r: Result<(), CliError>)
    ensures
        r is Ok <==> valid_tool_name(name@),
        r matches Err(e) ==> e.message@ == bad_name_message(name@) && e.exit_code == 2,
{
    let chars = str_chars(name);
    let ok = chars.len() > 0 && chars[0] != '.' && chars[0] != '-' && all_name_chars(
        chars.as_slice(),
    );
    if ok {
        Ok(())
    } else {
        let quoted = debug_quoted(name);
        Err(
            usage3(
                "tools config: tool name ",
                quoted.as_str(),
                " must be [A-Za-z0-9._-]+ and not start with '.' or '-'",
            ),
        )
    }
}

// ---------------------------------------------------------------------------
// Commands and placeholders
// ---------------------------------------------------------------------------

/// Whitespace or a character a shell would treat specially.
pub open spec fn shellish(c: char) -> bool {
    is_ws(c) || c == '|' || c == '&' || c == ';' || c == '$' || c == '`' || c == '<' || c == '>'
}

/// Why a command is refused: it must be an absolute path that does not look
/// like a shell string.
pub open spec fn command_problem(command: Seq<char>) -> Option<Seq<char>> {
    if !(command.len() > 0 && command[0] == '/') {
        Some("command "@ + debug_str(command) + " must be an absolute executable path"@)
    } else if exists|i: int| 0 <= i < command.len() && shellish(#[trigger] command[i]) {
        Some(
            "command "@ + debug_str(command)
                + " looks like a shell string; shells are not supported — use one absolute executable path plus an args list"@,
        )
    } else {
        None
    }
}

/// How many arguments are exactly `p`.
pub open spec fn count_whole(args: Seq<Seq<char>>, p: Seq<char>) -> nat
    decreases args.len(),
{
    if args.len() == 0 {
        0
    } else {
        count_whole(args.drop_last(), p) + if args.last() == p {
            1nat
        } else {
            0nat
        }
    }
}

/// Some argument holds `p` inside other text.
pub open spec fn embedded(args: Seq<Seq<char>>, p: Seq<char>) -> bool {
    exists|i: int| 0 <= i < args.len() && #[trigger] args[i] != p && find_from(args[i], p, 0) is Some
}

/// The placeholder rule: `p` must be a whole argument, present exactly once
/// when its mapping is `tempfile` and absent otherwise.
pub open spec fn placeholder_problem(args: Seq<Seq<char>>, p: Seq<char>, required: bool, mode_key: Seq<char>) -> Option<Seq<char>> {
    let whole = count_whole(args, p);
    if embedded(args, p) {
        Some("tools config: "@ + p + " must be a whole argument, not embedded in one"@)
    } else if (required && whole == 1) || (!required && whole == 0) {
        None
    } else if required {
        Some(
            "tools config: "@ + mode_key + " = \"tempfile\" needs exactly one "@ + p + " argument (found "@
                + decimal(whole) + ")"@,
        )
    } else {
        Some("tools config: "@ + p + " is only allowed when "@ + mode_key + " = \"tempfile\""@)
    }
}

/// An argument in braces that is neither placeholder.
pub open spec fn unknown_placeholder(a: Seq<char>) -> bool {
    a.len() > 0 && a[0] == '{' && a.last() == '}' && a != "{input}"@ && a != "{output}"@
}

pub open spec fn first_unknown(args: Seq<Seq<char>>) -> Option<Seq<char>>
    decreases args.len(),
{
    if args.len() == 0 {
        None
    } else if unknown_placeholder(args[0]) {
        Some(args[0])
    } else {
        first_unknown(args.drop_first())
    }
}

/// The view of a tool's policy: command, arguments, mappings, visibility.
pub open spec fn tool_problem(
    name: Seq<char>,
    command: Seq<char>,
    args: Seq<Seq<char>>,
    input: ProcInputMode,
    output: ProcOutputMode,
    visibility: Seq<char>,
) -> Option<Seq<char>> {
    let prefix = "tools config: "@ + name + ": "@;
    match command_problem(command) {
        Some(reason) => Some(prefix + reason),
        None => if visibility != "private"@ {
            Some(
                prefix + "visibility "@ + debug_str(visibility)
                    + " is not implemented: v0 serves private job views only"@,
            )
        } else {
            match placeholder_problem(args, "{input}"@, input == ProcInputMode::Tempfile, "input"@) {
                Some(m) => Some(m),
                None => match placeholder_problem(
                    args,
                    "{output}"@,
                    output == ProcOutputMode::Tempfile,
                    "output"@,
                ) {
                    Some(m) => Some(m),
                    None => match first_unknown(args) {
                        Some(a) => Some(
                            prefix + "unknown placeholder "@ + debug_str(a)
                                + " (only {input} and {output} exist)"@,
                        ),
                        None => None,
                    },
                },
            }
        },
    }
}

fn all_plain_command(chars: &[char]) -> (r: bool)
    ensures
        r == !exists|i: int| 0 <= i < chars@.len() && shellish(#[trigger] chars@[i]),
{
    let mut i: usize = 0;
    while i < chars.len()
        invariant
            i <= chars.len(),
            forall|j: int| 0 <= j < i ==> !shellish(#[trigger] chars@[j]),
        decreases chars.len() - i,
    {
        let c = chars[i];
        if char_is_whitespace(c) || c == '|' || c == '&' || c == ';' || c == '$' || c == '`' || c
            == '<' || c == '>' {
            assert(shellish(chars@[i as int]));
            return false;
        }
        i = i + 1;
    }
    true
}

fn text_is(a: &String, lit: &str) -> (r: bool)
    ensures
        r == (a@ == lit@),
{
    let x = str_chars(a.as_str());
    let y = str_chars(lit);
    chars_eq(x.as_slice(), y.as_slice())
}

fn contains_text(a: &String, p: &str) -> (r: bool)
    ensures
        r == (find_from(a@, p@, 0) is Some),
{
    let x = str_chars(a.as_str());
    let y = str_chars(p);
    if y.len() > x.len() {
        return false;
    }
    let last = x.len() - y.len();
    let mut i: usize = 0;
    loop
        invariant
            i <= last,
            last + y.len() == x.len(),
            x@ == a@,
            y@ == p@,
            find_from(a@, p@, 0) == find_from(a@, p@, i as int),
        decreases last - i,
    {
        let mut k: usize = 0;
        let mut same = true;
        while k < y.len()
            invariant
                i + y.len() <= x.len(),
                k <= y.len(),
                same == forall|j: int| 0 <= j < k ==> x@[i + j] == y@[j],
            decreases y.len() - k,
        {
            if x[i + k] != y[k] {
                same = false;
            }
            k = k + 1;
        }
        proof {
            if same {
                assert(x@.subrange(i as int, i + y.len()) =~= y@);
            } else {
                if x@.subrange(i as int, i + y.len()) == y@ {
                    assert forall|j: int| 0 <= j < y.len() implies x@[i + j] == y@[j] by {
                        assert(x@.subrange(i as int, i + y.len())[j] == x@[i + j]);
                    }
                }
            }
        }
        if same {
            return true;
        }
        if i == last {
            assert(find_from(a@, p@, i + 1) is None);
            return false;
        }
        i = i + 1;
    }
}

/// Checks one placeholder rule (see `placeholder_problem`).
pub fn validate_placeholder(
    args: &Vec<String>,
    placeholder: &str,
    required: bool,
    mode_key: &str,
) -> (r: Result<(), CliError>)
    ensures
        match placeholder_problem(args.deep_view(), placeholder@, required, mode_key@) {
            Some(m) => r matches Err(e) && e.message@ == m && e.exit_code == 2,
            None => r is Ok,
        },
{
    let ghost av = args.deep_view();
    let mut whole: usize = 0;
    let mut is_embedded = false;
    let mut i: usize = 0;
    assert(av.take(0) =~= Seq::<Seq<char>>::empty());
    while i < args.len()
        invariant
            i <= args.len(),
            av == args.deep_view(),
            whole as nat == count_whole(av.take(i as int), placeholder@),
            whole <= i,
            is_embedded == exists|j: int|
                0 <= j < i && #[trigger] av[j] != placeholder@ && find_from(av[j], placeholder@, 0) is Some,
        decreases args.len() - i,
    {
        assert(av.take(i + 1).drop_last() =~= av.take(i as int));
        assert(av[i as int] == args@[i as int]@);
        let exact = text_is(&args[i], placeholder);
        if exact {
            whole = whole + 1;
        } else if contains_text(&args[i], placeholder) {
            is_embedded = true;
        }
        i = i + 1;
    }
    assert(av.take(i as int) =~= av);
    if is_embedded {
        return Err(usage3("tools config: ", placeholder, " must be a whole argument, not embedded in one"));
    }
    if (required && whole == 1) || (!required && whole == 0) {
        return Ok(());
    }
    let mut m: Vec<char> = Vec::new();
    if required {
        push_str(&mut m, "tools config: ");
        push_str(&mut m, mode_key);
        push_str(&mut m, " = \"tempfile\" needs exactly one ");
        push_str(&mut m, placeholder);
        push_str(&mut m, " argument (found ");
        push_decimal(&mut m, whole as u64);
        push_str(&mut m, ")");
    } else {
        push_str(&mut m, "tools config: ");
        push_str(&mut m, placeholder);
        push_str(&mut m, " is only allowed when ");
        push_str(&mut m, mode_key);
        push_str(&mut m, " = \"tempfile\"");
    }
    let text = string_from_chars(m.as_slice());
    Err(CliError::usage(text.as_str()))
}

fn unknown_arg(args: &Vec<String>) -> (r: Option<usize>)
    ensures
        match r {
            Some(i) => i < args.len() && first_unknown(args.deep_view()) == Some(args@[i as int]@),
            None => first_unknown(args.deep_view()) is None,
        },
{
    let ghost av = args.deep_view();
    let mut i: usize = 0;
    assert(av.skip(0) =~= av);
    while i < args.len()
        invariant
            i <= args.len(),
            av == args.deep_view(),
            first_unknown(av) == first_unknown(av.skip(i as int)),
        decreases args.len() - i,
    {
        assert(av.skip(i as int)[0] == args@[i as int]@);
        assert(av.skip(i as int).drop_first() =~= av.skip(i + 1));
        let a = str_chars(args[i].as_str());
        if a.len() > 0 && a[0] == '{' && a[a.len() - 1] == '}' && !text_is(&args[i], "{input}")
            && !text_is(&args[i], "{output}") {
            return Some(i);
        }
        i = i + 1;
    }
    assert(av.skip(i as int) =~= Seq::<Seq<char>>::empty());
    None
}

impl ProcToolConfig {
    /// Checks the tool's policy (see `tool_problem`); the first problem found
    /// is a usage error.
    pub fn validate(&self, name: &str) -> (r: Result<(), CliError>)
        ensures
            match tool_problem(
                name@,
                self.command@,
                self.args.deep_view(),
                self.input,
                self.output,
                self.visibility@,
            ) {
                Some(m) => r matches Err(e) && e.message@ == m && e.exit_code == 2,
                None => r is Ok,
            },
    {
        let command = str_chars(self.command.as_str());
        let absolute = command.len() > 0 && command[0] == '/';
        if !absolute {
            let quoted = debug_quoted(self.command.as_str());
            return Err(self.reject(name, "command ", quoted.as_str(), " must be an absolute executable path"));
        }
        if !all_plain_command(command.as_slice()) {
            let quoted = debug_quoted(self.command.as_str());
            return Err(
                self.reject(
                    name,
                    "command ",
                    quoted.as_str(),
                    " looks like a shell string; shells are not supported — use one absolute executable path plus an args list",
                ),
            );
        }
        if !text_is(&self.visibility, "private") {
            let quoted = debug_quoted(self.visibility.as_str());
            return Err(
                self.reject(
                    name,
                    "visibility ",
                    quoted.as_str(),
                    " is not implemented: v0 serves private job views only",
                ),
            );
        }
        validate_placeholder(&self.args, "{input}", self.input == ProcInputMode::Tempfile, "input")?;
        validate_placeholder(
            &self.args,
            "{output}",
            self.output == ProcOutputMode::Tempfile,
            "output",
        )?;
        if let Some(i) = unknown_arg(&self.args) {
            let quoted = debug_quoted(self.args[i].as_str());
            return Err(self.reject(name, "unknown placeholder ", quoted.as_str(), " (only {input} and {output} exist)"));
        }
        Ok(())
    }

    fn reject(&self, name: &str, a: &str, b: &str, c: &str) -> (e: CliError)
        ensures
            e.message@ == "tools config: "@ + name@ + ": "@ + (a@ + b@ + c@),
            e.exit_code == 2,
    {
        let mut m: Vec<char> = Vec::new();
        push_str(&mut m, "tools config: ");
        push_str(&mut m, name);
        push_str(&mut m, ": ");
        let ghost head = m@;
        push_str(&mut m, a);
        push_str(&mut m, b);
        push_str(&mut m, c);
        assert(m@ =~= head + (a@ + b@ + c@));
        let text = string_from_chars(m.as_slice());
        CliError::usage(text.as_str())
    }
}

pub open spec fn file_problem_from(tools: Seq<(String, ProcToolConfig)>) -> Option<Seq<char>>
    decreases tools.len(),
{
    if tools.len() == 0 {
        None
    } else {
        let (name, t) = tools[0];
        if !valid_tool_name(name@) {
            Some(bad_name_message(name@))
        } else {
            match tool_problem(name@, t.command@, t.args.deep_view(), t.input, t.output, t.visibility@) {
                Some(m) => Some(m),
                None => file_problem_from(tools.drop_first()),
            }
        }
    }
}

/// The first problem of a config: no tools at all, else the first tool (in
/// name order) whose name or policy is refused.
pub open spec fn file_problem(tools: Seq<(String, ProcToolConfig)>) -> Option<Seq<char>> {
    if tools.len() == 0 {
        Some("tools config: no [tools.NAME] tables defined"@)
    } else {
        file_problem_from(tools)
    }
}

/// The names of configured tools, in their order.
pub open spec fn tool_names(tools: Seq<(String, ProcToolConfig)>) -> Seq<Seq<char>> {
    tools.map_values(|t: (String, ProcToolConfig)| t.0@)
}

impl ToolConfigFile {
    /// The tools stand in name order, each name once, as a `tools.toml`
    /// table keyed by name gives them.
    pub open spec fn in_name_order(&self) -> bool {
        strictly_sorted(tool_names(self.tools@))
    }

    /// Whether the tools stand in name order, each name once.
    pub fn is_in_name_order(&self) -> (r: bool)
        ensures
            r == self.in_name_order(),
    {
        let ghost names = tool_names(self.tools@);
        if self.tools.len() < 2 {
            return true;
        }
        let mut i: usize = 0;
        while i + 1 < self.tools.len()
            invariant
                i + 1 <= self.tools.len(),
                names == tool_names(self.tools@),
                strictly_sorted(names.take(i + 1)),
            decreases self.tools.len() - i,
        {
            let a = str_chars(self.tools[i].0.as_str());
            let b = str_chars(self.tools[i + 1].0.as_str());
            assert(names[i as int] == a@ && names[i + 1] == b@);
            if !(chars_le(a.as_slice(), b.as_slice()) && !chars_eq(a.as_slice(), b.as_slice())) {
                assert(!strictly_sorted(names)) by {
                    assert(!(text_le(names[i as int], names[i + 1]) && names[i as int] != names[i
                        + 1]));
                }
                return false;
            }
            let ghost t = names.take(i + 2);
            assert forall|x: int, y: int| 0 <= x < y < t.len() implies text_le(
                #[trigger] t[x],
                #[trigger] t[y],
            ) && t[x] != t[y] by {
                let prev = names.take(i + 1);
                if y < i + 1 {
                    assert(t[x] == prev[x] && t[y] == prev[y]);
                } else if x == i {
                } else {
                    assert(t[x] == prev[x] && prev[i as int] == names[i as int]);
                    assert(text_le(prev[x], prev[i as int]) && prev[x] != prev[i as int]);
                    lemma_text_le_trans(names[x], names[i as int], names[i + 1]);
                    if names[x] == names[i + 1] {
                        lemma_text_le_antisymmetric(names[x], names[i as int]);
                    }
                }
            }
            i = i + 1;
        }
        assert(names.take(i + 1) =~= names);
        true
    }

    /// The configured tool names, in order.
    pub fn names(&self) -> (r: Vec<String>)
        ensures
            r.deep_view() == tool_names(self.tools@),
            self.in_name_order() ==> strictly_sorted(r.deep_view()),
    {
        let mut r: Vec<String> = Vec::new();
        let mut i: usize = 0;
        while i < self.tools.len()
            invariant
                i <= self.tools.len(),
                r.deep_view() == self.tools@.take(i as int).map_values(
                    |t: (String, ProcToolConfig)| t.0@,
                ),
            decreases self.tools.len() - i,
        {
            let ghost before = r.deep_view();
            r.push(self.tools[i].0.clone());
            assert(r.deep_view() =~= before.push(self.tools@[i as int].0@));
            assert(self.tools@.take(i + 1).map_values(|t: (String, ProcToolConfig)| t.0@)
                =~= self.tools@.take(i as int).map_values(|t: (String, ProcToolConfig)| t.0@).push(
                self.tools@[i as int].0@,
            ));
            i = i + 1;
        }
        assert(self.tools@.take(i as int) =~= self.tools@);
        r
    }

    /// Whether the config defines `name`.
    pub fn contains(&self, name: &str) -> (r: bool)
        ensures
            r == exists|i: int| 0 <= i < self.tools@.len() && #[trigger] self.tools@[i].0@ == name@,
    {
        let mut i: usize = 0;
        while i < self.tools.len()
            invariant
                i <= self.tools.len(),
                forall|j: int| 0 <= j < i ==> #[trigger] self.tools@[j].0@ != name@,
            decreases self.tools.len() - i,
        {
            if text_is(&self.tools[i].0, name) {
                return true;
            }
            i = i + 1;
        }
        false
    }

    /// Checks the whole config (see `file_problem`).
    pub fn validate(&self) -> (r: Result<(), CliError>)
        ensures
            match file_problem(self.tools@) {
                Some(m) => r matches Err(e) && e.message@ == m && e.exit_code == 2,
                None => r is Ok,
            },
    {
        if self.tools.len() == 0 {
            return Err(CliError::usage("tools config: no [tools.NAME] tables defined"));
        }
        let ghost all = self.tools@;
        let mut i: usize = 0;
        assert(all.skip(0) =~= all);
        while i < self.tools.len()
            invariant
                i <= self.tools.len(),
                all == self.tools@,
                all.len() > 0,
                file_problem_from(all) == file_problem_from(all.skip(i as int)),
            decreases self.tools.len() - i,
        {
            assert(all.skip(i as int)[0] == self.tools@[i as int]);
            assert(all.skip(i as int).drop_first() =~= all.skip(i + 1));
            let (name, tool) = &self.tools[i];
            validate_name(name.as_str())?;
            tool.validate(name.as_str())?;
            i = i + 1;
        }
        assert(all.skip(i as int) =~= Seq::<(String, ProcToolConfig)>::empty());
        Ok(())
    }
}

} // verus!
