//! `wanix tool`: host-approved operations served as ToolFS devices. This
//! module holds the built-in tool names and the sha256 tool's output; the
//! config policy, the `tool serve` command line and the verdicts on a host
//! process are in the submodules.

use vstd::prelude::*;
use crate::error::CliError;
use crate::text::{push_str, string_from_chars, str_chars, debug_str, debug_quoted};
use crate::seqs::chars_eq;
use crate::volume::{join_path, path_join};

pub mod config;
pub mod process;
pub mod serve;

verus! {

/// The built-in tools, sorted.
pub fn builtin_tool_names() -> (r: Vec<&'static str>)
    ensures
        r@.len() == 3,
        r@[0]@ == "model"@,
        r@[1]@ == "sha256"@,
        r@[2]@ == "upper"@,
{
    vec!["model", "sha256", "upper"]
}

/// A tool built into the CLI.
#[derive(Debug, Clone, Copy, PartialEq, Eq, Structural)]
pub enum BuiltinTool {
    Model,
    Sha256,
    Upper,
}

pub open spec fn unknown_tool_message(name: Seq<char>) -> Seq<char> {
    "tool serve: unknown built-in tool "@ + debug_str(name) + " (available: model, sha256, upper)"@
}

fn text_is(a: &str, b: &str) -> (r: bool)
    ensures
        r == (a@ == b@),
{
    chars_eq(str_chars(a).as_slice(), str_chars(b).as_slice())
}

/// The built-in tool a name selects; any other name is a usage error that
/// lists the built-ins.
pub fn builtin_tool(name: &str) -> (r: Result<BuiltinTool, CliError>)
    ensures
        name@ == "model"@ ==> r == Ok::<BuiltinTool, CliError>(BuiltinTool::Model),
        name@ == "sha256"@ ==> r == Ok::<BuiltinTool, CliError>(BuiltinTool::Sha256),
        name@ == "upper"@ ==> r == Ok::<BuiltinTool, CliError>(BuiltinTool::Upper),
        !(name@ == "model"@ || name@ == "sha256"@ || name@ == "upper"@) ==> (r matches Err(e)
            && e.message@ == unknown_tool_message(name@) && e.exit_code == 2),
{
    proof {
        reveal_strlit("upper");
        reveal_strlit("sha256");
        reveal_strlit("model");
        assert("upper"@[0] != "model"@[0] && "upper"@[0] != "sha256"@[0] && "model"@[0] != "sha256"@[0]);
    }
    if text_is(name, "upper") {
        Ok(BuiltinTool::Upper)
    } else if text_is(name, "sha256") {
        Ok(BuiltinTool::Sha256)
    } else if text_is(name, "model") {
        Ok(BuiltinTool::Model)
    } else {
        let mut m: Vec<char> = Vec::new();
        push_str(&mut m, "tool serve: unknown built-in tool ");
        let q = debug_quoted(name);
        push_str(&mut m, q.as_str());
        push_str(&mut m, " (available: model, sha256, upper)");
        let m = string_from_chars(m.as_slice());
        Err(CliError::usage(m.as_str()))
    }
}

/// What a built-in tool's spec says it does.
pub open spec fn description_of(tool: BuiltinTool) -> Seq<char> {
    match tool {
        BuiltinTool::Upper => "Uppercase UTF-8 text (deterministic, in-process)."@,
        BuiltinTool::Sha256 => "SHA-256 of the input bytes, as a lowercase hex digest line."@,
        BuiltinTool::Model => "Deterministic FAKE model for demos: completes every prompt as 'fake-completion: <prompt>'. No real LLM is behind this tool."@,
    }
}

/// The description a built-in tool is advertised with (see
/// `description_of`); the model is labelled as a fake.
pub fn builtin_tool_description(tool: BuiltinTool) -> (r: &'static str)
    ensures
        r@ == description_of(tool),
{
    match tool {
        BuiltinTool::Upper => "Uppercase UTF-8 text (deterministic, in-process).",
        BuiltinTool::Sha256 => "SHA-256 of the input bytes, as a lowercase hex digest line.",
        BuiltinTool::Model => "Deterministic FAKE model for demos: completes every prompt as 'fake-completion: <prompt>'. No real LLM is behind this tool.",
    }
}

/// The key file of a tool's endpoint identity: `tool-identities/NAME.key`
/// in the wanix directory (`~/.wanix`).
pub fn tool_identity_path(wanix_dir: &str, name: &str) -> (r: String)
    ensures
        r@ == path_join(path_join(wanix_dir@, "tool-identities"@), name@ + ".key"@),
{
    let dir = join_path(wanix_dir, "tool-identities");
    let mut file: Vec<char> = Vec::new();
    push_str(&mut file, name);
    push_str(&mut file, ".key");
    let file = string_from_chars(file.as_slice());
    join_path(dir.as_str(), file.as_str())
}

/// What SHA-256 yields for the bytes.
pub uninterp spec fn sha256_of(input: Seq<u8>) -> Seq<u8>;

/// `<sha2::Sha256 as sha2::Digest>::digest`: the SHA-256 digest of the
/// bytes, 32 bytes long. The digest itself is stated only through the name
/// `sha256_of`.
#[verifier::external_body]
fn sha256_digest(input: &[u8]) -> (r: Vec<u8>)
    ensures
        r@ == sha256_of(input@),
        r@.len() == 32,
{
    <sha2::Sha256 as sha2::Digest>::digest(input).to_vec()
}

/// Two lowercase hex digits per byte.
pub open spec fn hex_bytes(b: Seq<u8>) -> Seq<u8>
    decreases b.len(),
{
    if b.len() == 0 {
        Seq::empty()
    } else {
        hex_bytes(b.drop_last()) + seq![hex_digit_byte(b.last() / 16), hex_digit_byte(b.last() % 16)]
    }
}

pub open spec fn hex_digit_byte(d: u8) -> u8 {
    if d < 10 {
        (d + 48) as u8
    } else {
        (d - 10 + 97) as u8
    }
}

/// The digest's lowercase hex digits and a newline.
pub fn hex_line(digest: &[u8]) -> (r: Vec<u8>)
    ensures
        r@ == hex_bytes(digest@).push(10u8),
{
    let mut out: Vec<u8> = Vec::new();
    let mut i: usize = 0;
    while i < digest.len()
        invariant
            i <= digest.len(),
            out@ == hex_bytes(digest@.take(i as int)),
        decreases digest.len() - i,
    {
        assert(digest@.take(i + 1).drop_last() =~= digest@.take(i as int));
        let b = digest[i];
        let hi = b / 16;
        let lo = b % 16;
        out.push(if hi < 10 { hi + 48 } else { hi - 10 + 97 });
        out.push(if lo < 10 { lo + 48 } else { lo - 10 + 97 });
        assert(out@ =~= hex_bytes(digest@.take(i + 1)));
        i = i + 1;
    }
    assert(digest@.take(i as int) =~= digest@);
    out.push(10);
    out
}

/// The sha256 tool's output for the input: the digest in lowercase hex, then
/// a newline (65 bytes).
pub fn sha256_hex_line(input: &[u8]) -> (r: Vec<u8>)
    ensures
        r@ == hex_bytes(sha256_of(input@)).push(10u8),
        r@.len() == 65,
{
    let digest = sha256_digest(input);
    let r = hex_line(digest.as_slice());
    proof {
        lemma_hex_bytes_len(digest@);
    }
    r
}

proof fn lemma_hex_bytes_len(b: Seq<u8>)
    ensures
        hex_bytes(b).len() == 2 * b.len(),
    decreases b.len(),
{
    if b.len() > 0 {
        lemma_hex_bytes_len(b.drop_last());
    }
}

} // verus!
