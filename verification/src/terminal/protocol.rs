//! The JSON text messages the terminal websocket sends to the browser.

use vstd::prelude::*;
use crate::text::{is_ctrl, digit_char, signed_text, push_i32_text, push_str, str_chars, string_from_chars};
use crate::terminal::activity::{ShellMutationOperation, OperationModel};

verus! {

// ---------------------------------------------------------------------------
// JSON strings
// ---------------------------------------------------------------------------

/// How one character is written inside a JSON string: quote, backslash and
/// the usual whitespace escapes by name, other control characters as
/// `\u00XX` with lowercase hex digits, everything else as it is.
pub open spec fn escape_char(c: char) -> Seq<char> {
    if c == '"' {
        seq!['\\', '"']
    } else if c == '\\' {
        seq!['\\', '\\']
    } else if c == '\n' {
        seq!['\\', 'n']
    } else if c == '\r' {
        seq!['\\', 'r']
    } else if c == '\t' {
        seq!['\\', 't']
    } else if is_ctrl(c) {
        seq!['\\', 'u', '0', '0', digit_char(((c as u32) / 16) as nat), digit_char(((c as u32) % 16) as nat)]
    } else {
        seq![c]
    }
}

pub open spec fn escaped(s: Seq<char>) -> Seq<char>
    decreases s.len(),
{
    if s.len() == 0 {
        Seq::empty()
    } else {
        escaped(s.drop_last()) + escape_char(s.last())
    }
}

/// The JSON string literal for `s`.
pub open spec fn json_str(s: Seq<char>) -> Seq<char> {
    seq!['"'] + escaped(s) + seq!['"']
}

fn hex_digit(d: u32) -> (c: char)
    requires
        d < 16,
    ensures
        c == digit_char(d as nat),
{
    if d < 10 {
        ((d + 48) as u8) as char
    } else {
        ((d - 10 + 97) as u8) as char
    }
}

fn push_escaped(out: &mut Vec<char>, s: &[char])
    ensures
        final(out)@ == old(out)@ + escaped(s@),
{
    let ghost start = out@;
    let mut i: usize = 0;
    assert(s@.take(0) =~= Seq::<char>::empty());
    assert(out@ =~= start + escaped(s@.take(0)));
    while i < s.len()
        invariant
            i <= s.len(),
            out@ == start + escaped(s@.take(i as int)),
        decreases s.len() - i,
    {
        let c = s[i];
        assert(s@.take(i + 1).drop_last() =~= s@.take(i as int));
        let ghost before = out@;
        if c == '"' {
            out.push('\\');
            out.push('"');
        } else if c == '\\' {
            out.push('\\');
            out.push('\\');
        } else if c == '\n' {
            out.push('\\');
            out.push('n');
        } else if c == '\r' {
            out.push('\\');
            out.push('r');
        } else if c == '\t' {
            out.push('\\');
            out.push('t');
        } else if crate::text::char_is_control(c) {
            let u = c as u32;
            out.push('\\');
            out.push('u');
            out.push('0');
            out.push('0');
            out.push(hex_digit(u / 16));
            out.push(hex_digit(u % 16));
        } else {
            out.push(c);
        }
        assert(out@ =~= before + escape_char(c));
        i = i + 1;
    }
    assert(s@.take(i as int) =~= s@);
}

fn push_json(out: &mut Vec<char>, s: &str)
    ensures
        final(out)@ == old(out)@ + json_str(s@),
{
    let ghost start = out@;
    let chars = str_chars(s);
    out.push('"');
    push_escaped(out, chars.as_slice());
    out.push('"');
    assert(out@ =~= start + json_str(s@));
}

/// `value` as a JSON string literal.
pub fn json_string(value: &str) -> (r: String)
    ensures
        r@ == json_str(value@),
{
    let mut out: Vec<char> = Vec::new();
    push_json(&mut out, value);
    assert(out@ =~= json_str(value@));
    string_from_chars(out.as_slice())
}

/// The JSON strings of `items`, separated by commas.
pub open spec fn json_list(items: Seq<Seq<char>>) -> Seq<char>
    decreases items.len(),
{
    if items.len() == 0 {
        Seq::empty()
    } else if items.len() == 1 {
        json_str(items[0])
    } else {
        json_list(items.drop_last()) + seq![','] + json_str(items.last())
    }
}

fn push_json_list(out: &mut Vec<char>, items: &[String])
    ensures
        final(out)@ == old(out)@ + json_list(items.deep_view()),
{
    let ghost start = out@;
    let ghost iv = items.deep_view();
    let mut i: usize = 0;
    assert(out@ =~= start + json_list(iv.take(0)));
    while i < items.len()
        invariant
            i <= items.len(),
            iv == items.deep_view(),
            out@ == start + json_list(iv.take(i as int)),
        decreases items.len() - i,
    {
        assert(iv.take(i + 1).drop_last() =~= iv.take(i as int));
        assert(iv.take(i + 1).last() == items@[i as int]@);
        let ghost before = out@;
        if i > 0 {
            out.push(',');
        }
        push_json(out, items[i].as_str());
        proof {
            if i == 0 {
                assert(iv.take(1)[0] == items@[0]@);
            }
        }
        assert(out@ =~= start + json_list(iv.take(i + 1)));
        i = i + 1;
    }
    assert(iv.take(i as int) =~= iv);
}

// ---------------------------------------------------------------------------
// Messages
// ---------------------------------------------------------------------------

/// `,"name":"value"` when there is a value, else nothing.
pub open spec fn opt_text_field(name: Seq<char>, v: Option<Seq<char>>) -> Seq<char> {
    match v {
        Some(x) => seq![','] + name + json_str(x),
        None => Seq::empty(),
    }
}

/// `,"exitCode":N` when there is a code, else nothing.
pub open spec fn opt_code_field(v: Option<i32>) -> Seq<char> {
    match v {
        Some(n) => ",\"exitCode\":"@ + signed_text(n as int),
        None => Seq::empty(),
    }
}

/// `error` when a diagnostic or a non-zero exit code was seen, else `ok` for
/// a changed operation and `unchanged` for the rest.
pub open spec fn outcome_status(op: OperationModel) -> Seq<char> {
    if op.diagnostic is Some || (op.exit_code is Some && op.exit_code->0 != 0) {
        "error"@
    } else if op.status == "changed"@ {
        "ok"@
    } else {
        "unchanged"@
    }
}

pub open spec fn outcome_json(op: OperationModel) -> Seq<char> {
    "{\"status\":"@ + json_str(outcome_status(op)) + ",\"changed\":"@ + (if op.status == "changed"@ {
        "true"@
    } else {
        "false"@
    }) + opt_text_field("\"diagnostic\":"@, op.diagnostic) + opt_code_field(op.exit_code)
        + opt_text_field("\"terminalOutput\":"@, op.terminal_output) + "}"@
}

/// The naming fields of an operation object: kind, command and status.
pub open spec fn operation_ids(op: OperationModel) -> Seq<char> {
    "{\"kind\":"@ + json_str(op.kind) + ",\"command\":"@ + json_str(op.command) + ",\"status\":"@
        + json_str(op.status)
}

/// The optional fields of an operation object, each only when present.
pub open spec fn operation_observed(op: OperationModel) -> Seq<char> {
    opt_text_field("\"source\":"@, op.source) + opt_text_field("\"target\":"@, op.target)
        + opt_text_field("\"diagnostic\":"@, op.diagnostic) + opt_code_field(op.exit_code)
        + opt_text_field("\"terminalOutput\":"@, op.terminal_output)
}

/// The fields of an operation object before its outcome.
pub open spec fn operation_head(op: OperationModel) -> Seq<char> {
    operation_ids(op) + operation_observed(op)
}

pub open spec fn operation_json(op: OperationModel) -> Seq<char> {
    operation_head(op) + ",\"outcome\":"@ + outcome_json(op) + ",\"paths\":["@ + json_list(op.paths)
        + "]}"@
}

/// The outcome word of an operation (see `outcome_status`).
pub fn shell_operation_outcome_status(operation: &ShellMutationOperation) -> (r: &'static str)
    ensures
        r@ == outcome_status(operation@),
{
    let failed = operation.diagnostic.is_some() || match operation.exit_code {
        Some(code) => code != 0,
        None => false,
    };
    if failed {
        "error"
    } else if operation.status == "changed".to_owned() {
        "ok"
    } else {
        "unchanged"
    }
}

fn push_opt_text(out: &mut Vec<char>, name: &str, v: &Option<String>)
    ensures
        final(out)@ == old(out)@ + opt_text_field(name@, v.deep_view()),
{
    let ghost start = out@;
    if let Some(x) = v {
        out.push(',');
        push_str(out, name);
        push_json(out, x.as_str());
        assert(out@ =~= start + opt_text_field(name@, v.deep_view()));
    } else {
        assert(out@ =~= start + opt_text_field(name@, v.deep_view()));
    }
}

fn push_opt_code(out: &mut Vec<char>, v: Option<i32>)
    ensures
        final(out)@ == old(out)@ + opt_code_field(v),
{
    let ghost start = out@;
    if let Some(n) = v {
        push_str(out, ",\"exitCode\":");
        push_i32_text(out, n);
        assert(out@ =~= start + opt_code_field(v));
    } else {
        assert(out@ =~= start + opt_code_field(v));
    }
}

fn push_outcome(out: &mut Vec<char>, operation: &ShellMutationOperation)
    ensures
        final(out)@ == old(out)@ + outcome_json(operation@),
{
    let ghost start = out@;
    let status = shell_operation_outcome_status(operation);
    push_str(out, "{\"status\":");
    push_json(out, status);
    push_str(out, ",\"changed\":");
    if operation.status == "changed".to_owned() {
        push_str(out, "true");
    } else {
        push_str(out, "false");
    }
    push_opt_text(out, "\"diagnostic\":", &operation.diagnostic);
    push_opt_code(out, operation.exit_code);
    push_opt_text(out, "\"terminalOutput\":", &operation.terminal_output);
    push_str(out, "}");
    assert(out@ =~= start + outcome_json(operation@));
}

/// The outcome object of an operation: its status word, whether it changed
/// anything, and what was observed.
pub fn shell_operation_outcome_json(operation: &ShellMutationOperation) -> (r: String)
    ensures
        r@ == outcome_json(operation@),
{
    let mut out: Vec<char> = Vec::new();
    push_outcome(&mut out, operation);
    assert(out@ =~= outcome_json(operation@));
    string_from_chars(out.as_slice())
}

fn push_operation_ids(out: &mut Vec<char>, kind: &str, command: &str, status: &str)
    ensures
        final(out)@ == old(out)@ + "{\"kind\":"@ + json_str(kind@) + ",\"command\":"@ + json_str(
            command@,
        ) + ",\"status\":"@ + json_str(status@),
{
    let ghost start = out@;
    push_str(out, "{\"kind\":");
    push_json(out, kind);
    push_str(out, ",\"command\":");
    push_json(out, command);
    push_str(out, ",\"status\":");
    push_json(out, status);
    assert(out@ =~= start + "{\"kind\":"@ + json_str(kind@) + ",\"command\":"@ + json_str(command@)
        + ",\"status\":"@ + json_str(status@));
}

fn push_operation_observed(out: &mut Vec<char>, operation: &ShellMutationOperation)
    ensures
        final(out)@ == old(out)@ + operation_observed(operation@),
{
    let ghost start = out@;
    push_opt_text(out, "\"source\":", &operation.source);
    push_opt_text(out, "\"target\":", &operation.target);
    push_opt_text(out, "\"diagnostic\":", &operation.diagnostic);
    push_opt_code(out, operation.exit_code);
    push_opt_text(out, "\"terminalOutput\":", &operation.terminal_output);
    assert(out@ =~= start + operation_observed(operation@));
}

fn push_operation_head(out: &mut Vec<char>, operation: &ShellMutationOperation)
    ensures
        final(out)@ == old(out)@ + operation_head(operation@),
{
    let ghost start = out@;
    push_operation_ids(out, operation.kind.as_str(), operation.command.as_str(), operation.status.as_str());
    assert(out@ =~= start + operation_ids(operation@));
    push_operation_observed(out, operation);
    assert(out@ =~= start + operation_head(operation@));
}

fn push_operation(out: &mut Vec<char>, operation: &ShellMutationOperation)
    ensures
        final(out)@ == old(out)@ + operation_json(operation@),
{
    let ghost start = out@;
    push_operation_head(out, operation);
    push_str(out, ",\"outcome\":");
    push_outcome(out, operation);
    push_str(out, ",\"paths\":[");
    push_json_list(out, operation.paths.as_slice());
    push_str(out, "]}");
    assert(out@ =~= start + operation_json(operation@));
}

/// One operation as a JSON object.
pub fn shell_operation_json(operation: &ShellMutationOperation) -> (r: String)
    ensures
        r@ == operation_json(operation@),
{
    let mut out: Vec<char> = Vec::new();
    push_operation(&mut out, operation);
    assert(out@ =~= operation_json(operation@));
    string_from_chars(out.as_slice())
}

/// The operations as JSON objects separated by commas.
pub open spec fn operations_json(ops: Seq<OperationModel>) -> Seq<char>
    decreases ops.len(),
{
    if ops.len() == 0 {
        Seq::empty()
    } else if ops.len() == 1 {
        operation_json(ops[0])
    } else {
        operations_json(ops.drop_last()) + seq![','] + operation_json(ops.last())
    }
}

pub open spec fn session_json(task_id: Seq<char>, terminal_id: Seq<char>, cwd: Seq<char>) -> Seq<char> {
    "{\"type\":\"session\",\"protocol\":\"wanix-qjs-shell.v1\",\"taskId\":"@ + json_str(task_id)
        + ",\"terminalId\":"@ + json_str(terminal_id) + ",\"cwd\":"@ + json_str(cwd) + "}"@
}

pub open spec fn mutation_json(
    task_id: Seq<char>,
    terminal_id: Seq<char>,
    cwd: Seq<char>,
    paths: Seq<Seq<char>>,
    ops: Seq<OperationModel>,
) -> Seq<char> {
    "{\"type\":\"mutation\",\"protocol\":\"wanix-qjs-shell.v1\",\"taskId\":"@ + json_str(task_id)
        + ",\"terminalId\":"@ + json_str(terminal_id) + ",\"cwd\":"@ + json_str(cwd)
        + ",\"paths\":["@ + json_list(paths) + "],\"operations\":["@ + operations_json(ops) + "]}"@
}

/// The message that opens a shell session: its task, terminal and directory.
pub fn shell_session_message(task_id: &str, terminal_id: &str, cwd: &str) -> (r: String)
    ensures
        r@ == session_json(task_id@, terminal_id@, cwd@),
{
    let mut out: Vec<char> = Vec::new();
    push_str(&mut out, "{\"type\":\"session\",\"protocol\":\"wanix-qjs-shell.v1\",\"taskId\":");
    push_json(&mut out, task_id);
    push_str(&mut out, ",\"terminalId\":");
    push_json(&mut out, terminal_id);
    push_str(&mut out, ",\"cwd\":");
    push_json(&mut out, cwd);
    push_str(&mut out, "}");
    assert(out@ =~= session_json(task_id@, terminal_id@, cwd@));
    string_from_chars(out.as_slice())
}

/// The message that reports changed paths and the operations behind them.
pub fn shell_mutation_message(
    task_id: &str,
    terminal_id: &str,
    cwd: &str,
    paths: &[String],
    operations: &[ShellMutationOperation],
) -> (r: String)
    ensures
        r@ == mutation_json(
            task_id@,
            terminal_id@,
            cwd@,
            paths.deep_view(),
            operations@.map_values(|o: ShellMutationOperation| o@),
        ),
{
    let ghost ov = operations@.map_values(|o: ShellMutationOperation| o@);
    let mut out: Vec<char> = Vec::new();
    push_str(&mut out, "{\"type\":\"mutation\",\"protocol\":\"wanix-qjs-shell.v1\",\"taskId\":");
    push_json(&mut out, task_id);
    push_str(&mut out, ",\"terminalId\":");
    push_json(&mut out, terminal_id);
    push_str(&mut out, ",\"cwd\":");
    push_json(&mut out, cwd);
    push_str(&mut out, ",\"paths\":[");
    push_json_list(&mut out, paths);
    push_str(&mut out, "],\"operations\":[");
    let ghost start = out@;
    let mut i: usize = 0;
    assert(out@ =~= start + operations_json(ov.take(0)));
    while i < operations.len()
        invariant
            i <= operations.len(),
            ov == operations@.map_values(|o: ShellMutationOperation| o@),
            out@ == start + operations_json(ov.take(i as int)),
        decreases operations.len() - i,
    {
        assert(ov.take(i + 1).drop_last() =~= ov.take(i as int));
        assert(ov.take(i + 1).last() == operations@[i as int]@);
        if i > 0 {
            out.push(',');
        }
        push_operation(&mut out, &operations[i]);
        proof {
            if i == 0 {
                assert(ov.take(1)[0] == operations@[0]@);
            }
        }
        assert(out@ =~= start + operations_json(ov.take(i + 1)));
        i = i + 1;
    }
    assert(ov.take(i as int) =~= ov);
    push_str(&mut out, "]}");
    assert(out@ =~= mutation_json(task_id@, terminal_id@, cwd@, paths.deep_view(), ov));
    string_from_chars(out.as_slice())
}

/// The message sent when the shell exits with `code`.
pub fn shell_exit_message(code: i32) -> (r: String)
    ensures
        r@ == "{\"type\":\"exit\",\"code\":"@ + signed_text(code as int) + "}"@,
{
    let mut out: Vec<char> = Vec::new();
    push_str(&mut out, "{\"type\":\"exit\",\"code\":");
    push_i32_text(&mut out, code);
    push_str(&mut out, "}");
    string_from_chars(out.as_slice())
}

/// A JSON string holds no raw control character: every one is escaped.
pub proof fn lemma_json_string_has_no_controls(s: Seq<char>)
    ensures
        forall|i: int| 0 <= i < json_str(s).len() ==> !is_ctrl(#[trigger] json_str(s)[i]),
{
    lemma_escaped_has_no_controls(s);
    let e = escaped(s);
    assert forall|i: int| 0 <= i < json_str(s).len() implies !is_ctrl(#[trigger] json_str(s)[i]) by {
        if 1 <= i < 1 + e.len() {
            assert(json_str(s)[i] == e[i - 1]);
        }
    }
}

proof fn lemma_escaped_has_no_controls(s: Seq<char>)
    ensures
        forall|i: int| 0 <= i < escaped(s).len() ==> !is_ctrl(#[trigger] escaped(s)[i]),
    decreases s.len(),
{
    if s.len() > 0 {
        lemma_escaped_has_no_controls(s.drop_last());
        let a = escaped(s.drop_last());
        let b = escape_char(s.last());
        let c = s.last();
        assert forall|j: int| 0 <= j < b.len() implies !is_ctrl(#[trigger] b[j]) by {
            if is_ctrl(c) && c != '\n' && c != '\r' && c != '\t' && c != '"' && c != '\\' {
                let u = c as u32;
                assert(u < 0xa0);
                assert(u / 16 < 10);
                assert(u % 16 < 16);
            }
        }
        assert forall|i: int| 0 <= i < (a + b).len() implies !is_ctrl(#[trigger] (a + b)[i]) by {
            if i < a.len() {
                assert((a + b)[i] == a[i]);
            } else {
                assert((a + b)[i] == b[i - a.len()]);
            }
        }
    }
}


// ---------------------------------------------------------------------------
// Reading a JSON string back
// ---------------------------------------------------------------------------

/// The value of a hexadecimal digit, either case.
pub open spec fn hex_val(c: char) -> Option<nat> {
    let u = c as u32;
    if 48 <= u && u <= 57 {
        Some((u - 48) as nat)
    } else if 97 <= u && u <= 102 {
        Some((u - 87) as nat)
    } else if 65 <= u && u <= 70 {
        Some((u - 55) as nat)
    } else {
        None
    }
}

/// The value of four hexadecimal digits.
pub open spec fn hex4(s: Seq<char>) -> Option<nat> {
    match (hex_val(s[0]), hex_val(s[1]), hex_val(s[2]), hex_val(s[3])) {
        (Some(a), Some(b), Some(c), Some(d)) => Some(a * 4096 + b * 256 + c * 16 + d),
        _ => None,
    }
}

/// The character a two-character escape `\e` stands for.
pub open spec fn short_escape(e: char) -> Option<char> {
    if e == '"' {
        Some('"')
    } else if e == '\\' {
        Some('\\')
    } else if e == '/' {
        Some('/')
    } else if e == 'b' {
        Some('\x08')
    } else if e == 'f' {
        Some('\x0c')
    } else if e == 'n' {
        Some('\n')
    } else if e == 'r' {
        Some('\r')
    } else if e == 't' {
        Some('\t')
    } else {
        None
    }
}

pub open spec fn prepend(c: char, rest: Option<Seq<char>>) -> Option<Seq<char>> {
    match rest {
        Some(r) => Some(seq![c] + r),
        None => None,
    }
}

/// The characters that the inside of a JSON string literal (RFC 8259)
/// stands for, or none when it is not one: a quote or a raw control
/// character below U+0020 must be escaped, and a `\u` escape of a surrogate
/// must be a high one followed by a low one.
pub open spec fn json_unescape(s: Seq<char>) -> Option<Seq<char>>
    decreases s.len(),
{
    if s.len() == 0 {
        Some(Seq::empty())
    } else if s[0] == '"' || (s[0] as u32) < 0x20 {
        None
    } else if s[0] != '\\' {
        prepend(s[0], json_unescape(s.drop_first()))
    } else if s.len() < 2 {
        None
    } else if s[1] != 'u' {
        match short_escape(s[1]) {
            Some(c) => prepend(c, json_unescape(s.skip(2))),
            None => None,
        }
    } else if s.len() < 6 {
        None
    } else {
        match hex4(s.subrange(2, 6)) {
            None => None,
            Some(h) => if 0xD800 <= h && h < 0xDC00 {
                if s.len() >= 12 && s[6] == '\\' && s[7] == 'u' {
                    match hex4(s.subrange(8, 12)) {
                        Some(l) => if 0xDC00 <= l && l < 0xE000 {
                            prepend(
                                (0x10000 + (h - 0xD800) * 0x400 + (l - 0xDC00)) as char,
                                json_unescape(s.skip(12)),
                            )
                        } else {
                            None
                        },
                        None => None,
                    }
                } else {
                    None
                }
            } else if 0xDC00 <= h && h < 0xE000 {
                None
            } else {
                prepend(h as char, json_unescape(s.skip(6)))
            },
        }
    }
}

/// The string a JSON string literal denotes, or none when `t` is not
/// exactly one such literal.
pub open spec fn json_string_value(t: Seq<char>) -> Option<Seq<char>> {
    if t.len() >= 2 && t[0] == '"' && t.last() == '"' {
        json_unescape(t.subrange(1, t.len() - 1))
    } else {
        None
    }
}

proof fn lemma_escaped_prepend(c: char, t: Seq<char>)
    ensures
        escaped(seq![c] + t) == escape_char(c) + escaped(t),
    decreases t.len(),
{
    if t.len() == 0 {
        let one = seq![c] + t;
        assert(one =~= seq![c]);
        assert(one.drop_last() =~= Seq::<char>::empty());
        assert(one.last() == c);
        assert(escaped(one) == escaped(one.drop_last()) + escape_char(c));
        assert(escaped(one.drop_last()) == Seq::<char>::empty());
        assert(escape_char(c) + escaped(t) =~= escape_char(c));
        assert(Seq::<char>::empty() + escape_char(c) =~= escape_char(c));
    } else {
        lemma_escaped_prepend(c, t.drop_last());
        let whole = seq![c] + t;
        assert(whole.drop_last() =~= seq![c] + t.drop_last());
        assert(whole.last() == t.last());
        assert(escaped(whole) == escaped(whole.drop_last()) + escape_char(t.last()));
        assert(escape_char(c) + escaped(t.drop_last()) + escape_char(t.last()) =~= escape_char(c)
            + (escaped(t.drop_last()) + escape_char(t.last())));
    }
}

proof fn lemma_hex_digit_value(d: nat)
    requires
        d < 16,
    ensures
        hex_val(digit_char(d)) == Some(d),
{
}

proof fn lemma_unescape_char(c: char, rest: Seq<char>)
    ensures
        json_unescape(escape_char(c) + rest) == prepend(c, json_unescape(rest)),
{
    let s = escape_char(c) + rest;
    if c == '"' || c == '\\' || c == '\n' || c == '\r' || c == '\t' {
        assert(s.skip(2) =~= rest);
        assert(s[0] == '\\');
    } else if is_ctrl(c) {
        let u = c as u32;
        lemma_hex_digit_value((u / 16) as nat);
        lemma_hex_digit_value((u % 16) as nat);
        assert(s.subrange(2, 6) =~= seq!['0', '0', digit_char((u / 16) as nat), digit_char((u % 16) as nat)]);
        assert(hex_val('0') == Some(0nat));
        assert(hex4(s.subrange(2, 6)) == Some(((u / 16) * 16 + u % 16) as nat));
        assert((u / 16) * 16 + u % 16 == u);
        assert(s.skip(6) =~= rest);
        assert(s[0] == '\\' && s[1] == 'u');
        assert((u as nat) as char == c);
    } else {
        assert(s.drop_first() =~= rest);
        assert(s[0] == c);
    }
}

proof fn lemma_unescape_escaped(s: Seq<char>)
    ensures
        json_unescape(escaped(s)) == Some(s),
    decreases s.len(),
{
    if s.len() > 0 {
        let rest = s.drop_first();
        assert(s =~= seq![s[0]] + rest);
        lemma_escaped_prepend(s[0], rest);
        lemma_unescape_escaped(rest);
        lemma_unescape_char(s[0], escaped(rest));
        assert(seq![s[0]] + rest == s);
    }
}

/// A JSON parser reads the literal `json_string` writes back as the very
/// string it was made from.
pub proof fn lemma_json_string_reads_back(s: Seq<char>)
    ensures
        json_string_value(json_str(s)) == Some(s),
{
    let t = json_str(s);
    assert(t.subrange(1, t.len() - 1) =~= escaped(s));
    lemma_unescape_escaped(s);
}

} // verus!
