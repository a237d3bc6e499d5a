//! Command records the shell embeds in its terminal output.
//!
//! After each command the shell writes an operating-system-command escape,
//! `ESC ] 777;wanix-qjs-shell-command;` followed by a JSON payload and BEL.
//! These frames are taken out of what the browser sees and decoded into
//! records; an unterminated frame is left visible as it is.

use vstd::prelude::*;

verus! {

/// The evidence name given to observations that come from a command record.
pub const QJS_SHELL_COMMAND_RECORD_EVIDENCE: &'static str = "qjs-shell-command-record";

/// The byte that ends a record frame (BEL).
pub const COMMAND_RECORD_END: u8 = 7;

/// The bytes that open a record frame: `ESC ] 777;wanix-qjs-shell-command;`.
pub open spec fn record_prefix() -> Seq<u8> {
    seq![
        27u8, 93, 55, 55, 55, 59, 119, 97, 110, 105, 120, 45, 113, 106, 115, 45, 115, 104, 101, 108,
        108, 45, 99, 111, 109, 109, 97, 110, 100, 59,
    ]
}

fn command_record_prefix() -> (r: Vec<u8>)
    ensures
        r@ == record_prefix(),
{
    let r = vec![
        27u8, 93, 55, 55, 55, 59, 119, 97, 110, 105, 120, 45, 113, 106, 115, 45, 115, 104, 101,
        108, 108, 45, 99, 111, 109, 109, 97, 110, 100, 59,
    ];
    assert(r@ =~= record_prefix());
    r
}

/// The record schema the shell writes.
pub open spec fn record_schema() -> Seq<char> {
    "wanix.qjs-shell.command.v1"@
}

/// A decoded command record.
#[derive(Debug, Clone, PartialEq, Eq)]
pub struct ShellCommandRecord {
    pub command: String,
    pub diagnostic: Option<String>,
    pub exit_code: Option<i32>,
    pub terminal_output: Option<String>,
}

pub struct RecordModel {
    pub command: Seq<char>,
    pub diagnostic: Option<Seq<char>>,
    pub exit_code: Option<i32>,
    pub terminal_output: Option<Seq<char>>,
}

impl View for ShellCommandRecord {
    type V = RecordModel;

    open spec fn view(&self) -> RecordModel {
        RecordModel {
            command: self.command@,
            diagnostic: self.diagnostic.deep_view(),
            exit_code: self.exit_code,
            terminal_output: self.terminal_output.deep_view(),
        }
    }
}

/// The fields of a payload's JSON object that a record is made from: the
/// string members `schema`, `command`, `diagnostic` and `terminalOutput`, and
/// the integer member `exitCode`, each absent when missing or of another type.
#[derive(Debug)]
pub struct RecordFields {
    pub schema: Option<String>,
    pub command: Option<String>,
    pub diagnostic: Option<String>,
    pub exit_code: Option<i64>,
    pub terminal_output: Option<String>,
}

pub type FieldsModel = (
    Option<Seq<char>>,
    Option<Seq<char>>,
    Option<Seq<char>>,
    Option<i64>,
    Option<Seq<char>>,
);

pub open spec fn fields_model(f: Option<RecordFields>) -> Option<FieldsModel> {
    match f {
        Some(x) => Some(
            (
                x.schema.deep_view(),
                x.command.deep_view(),
                x.diagnostic.deep_view(),
                x.exit_code,
                x.terminal_output.deep_view(),
            ),
        ),
        None => None,
    }
}

/// The members that `serde_json` reads from a payload, as `fields_model`
/// describes them; `None` when the payload is not JSON.
pub uninterp spec fn record_fields(payload: Seq<u8>) -> Option<FieldsModel>;

/// `serde_json::from_slice` into a `serde_json::Value`, then `Value::get` of
/// each member with `Value::as_str` (or `Value::as_i64` for `exitCode`).
/// Stated only through the name `record_fields`: the parse is the crate's.
#[verifier::external_body]
fn read_record_fields(payload: &[u8]) -> (r: Option<RecordFields>)
    ensures
        fields_model(r) == record_fields(payload@),
{
    let value: serde_json::Value = serde_json::from_slice(payload).ok()?;
    let text = |key: &str| value.get(key).and_then(serde_json::Value::as_str).map(str::to_owned);
    Some(RecordFields {
        schema: text("schema"),
        command: text("command"),
        diagnostic: text("diagnostic"),
        exit_code: value.get("exitCode").and_then(serde_json::Value::as_i64),
        terminal_output: text("terminalOutput"),
    })
}

pub open spec fn non_empty(s: Option<Seq<char>>) -> Option<Seq<char>> {
    match s {
        Some(t) => if t.len() > 0 {
            Some(t)
        } else {
            None
        },
        None => None,
    }
}

pub open spec fn small_code(n: Option<i64>) -> Option<i32> {
    match n {
        Some(v) => if i32::MIN <= v <= i32::MAX {
            Some(v as i32)
        } else {
            None
        },
        None => None,
    }
}

/// The record the fields describe: the schema must be the shell's and the
/// command non-empty; empty strings count as absent and an exit code outside
/// `i32` is dropped.
pub open spec fn record_from_fields(f: FieldsModel) -> Option<RecordModel> {
    let (schema, command, diagnostic, exit_code, terminal_output) = f;
    if schema != Some(record_schema()) {
        None
    } else {
        match command {
            Some(c) => if c.len() > 0 {
                Some(
                    RecordModel {
                        command: c,
                        diagnostic: non_empty(diagnostic),
                        exit_code: small_code(exit_code),
                        terminal_output: non_empty(terminal_output),
                    },
                )
            } else {
                None
            },
            None => None,
        }
    }
}

pub open spec fn record_of_payload(payload: Seq<u8>) -> Option<RecordModel> {
    match record_fields(payload) {
        Some(f) => record_from_fields(f),
        None => None,
    }
}

fn keep_non_empty(s: Option<String>) -> (r: Option<String>)
    ensures
        r.deep_view() == non_empty(s.deep_view()),
{
    match s {
        Some(t) => if crate::text::str_chars(t.as_str()).len() > 0 {
            Some(t)
        } else {
            None
        },
        None => None,
    }
}

/// The record that decoded fields describe (see `record_from_fields`).
pub fn command_record_from_fields(fields: RecordFields) -> (r: Option<ShellCommandRecord>)
    ensures
        match r {
            Some(x) => record_from_fields(fields_model(Some(fields)).unwrap()) == Some(x@),
            None => record_from_fields(fields_model(Some(fields)).unwrap()) is None,
        },
{
    let schema_ok = match &fields.schema {
        Some(s) => *s == "wanix.qjs-shell.command.v1".to_owned(),
        None => false,
    };
    if !schema_ok {
        return None;
    }
    let command = match fields.command {
        Some(c) => c,
        None => return None,
    };
    let command_chars = crate::text::str_chars(command.as_str());
    if command_chars.len() == 0 {
        return None;
    }
    let exit_code = match fields.exit_code {
        Some(v) => if i32::MIN as i64 <= v && v <= i32::MAX as i64 {
            Some(v as i32)
        } else {
            None
        },
        None => None,
    };
    Some(
        ShellCommandRecord {
            command,
            diagnostic: keep_non_empty(fields.diagnostic),
            exit_code,
            terminal_output: keep_non_empty(fields.terminal_output),
        },
    )
}

/// Decodes one record payload.
pub fn parse_shell_command_record(payload: &[u8]) -> (r: Option<ShellCommandRecord>)
    ensures
        match r {
            Some(x) => record_of_payload(payload@) == Some(x@),
            None => record_of_payload(payload@) is None,
        },
{
    match read_record_fields(payload) {
        Some(fields) => command_record_from_fields(fields),
        None => None,
    }
}

// ---------------------------------------------------------------------------
// Taking frames out of the output
// ---------------------------------------------------------------------------

/// The first position at or after `from` that holds `v`, or the length.
pub open spec fn first_byte_from(b: Seq<u8>, from: int, v: u8) -> int
    decreases b.len() - from,
{
    if from >= b.len() {
        b.len() as int
    } else if b[from] == v {
        from
    } else {
        first_byte_from(b, from + 1, v)
    }
}

pub proof fn lemma_first_byte_from(b: Seq<u8>, from: int, v: u8)
    requires
        0 <= from,
    ensures
        from <= first_byte_from(b, from, v) || (from > b.len() && first_byte_from(b, from, v)
            == b.len()),
        first_byte_from(b, from, v) <= b.len() || from > b.len(),
        first_byte_from(b, from, v) < b.len() ==> b[first_byte_from(b, from, v)] == v,
        forall|j: int| from <= j < first_byte_from(b, from, v) ==> b[j] != v,
    decreases b.len() - from,
{
    if from < b.len() && b[from] != v {
        lemma_first_byte_from(b, from + 1, v);
    }
}

/// A complete frame starts at `i`: the prefix, then a BEL somewhere after it.
pub open spec fn frame_at(out: Seq<u8>, i: int) -> bool {
    let p = i + record_prefix().len();
    &&& 0 <= i
    &&& p <= out.len()
    &&& out.subrange(i, p) == record_prefix()
    &&& first_byte_from(out, p, COMMAND_RECORD_END) < out.len()
}

pub open spec fn listed_record(r: Option<RecordModel>) -> Seq<RecordModel> {
    match r {
        Some(x) => seq![x],
        None => Seq::empty(),
    }
}

/// The visible bytes and the records of `out` from position `i` on: each
/// complete frame is removed and its payload decoded (payloads that do not
/// decode leave no record); every other byte stays.
pub open spec fn strip_from(out: Seq<u8>, i: int) -> (Seq<u8>, Seq<RecordModel>)
    decreases out.len() - i,
{
    if i < 0 || i >= out.len() {
        (Seq::empty(), Seq::empty())
    } else if frame_at(out, i) {
        let p = i + record_prefix().len();
        let end = first_byte_from(out, p, COMMAND_RECORD_END);
        proof {
            lemma_first_byte_from(out, p, COMMAND_RECORD_END);
        }
        let rest = strip_from(out, end + 1);
        (rest.0, listed_record(record_of_payload(out.subrange(p, end))) + rest.1)
    } else {
        let rest = strip_from(out, i + 1);
        (seq![out[i]] + rest.0, rest.1)
    }
}

fn bytes_at(b: &[u8], from: usize, p: &[u8]) -> (r: bool)
    ensures
        r == (from + p.len() <= b.len() && b@.subrange(from as int, from + p.len()) == p@),
{
    if from > b.len() || p.len() > b.len() - from {
        return false;
    }
    let mut k: usize = 0;
    while k < p.len()
        invariant
            from + p.len() <= b.len(),
            k <= p.len(),
            forall|j: int| 0 <= j < k ==> b@[from + j] == p@[j],
        decreases p.len() - k,
    {
        if b[from + k] != p[k] {
            assert(b@.subrange(from as int, from + p.len())[k as int] != p@[k as int]);
            return false;
        }
        k = k + 1;
    }
    assert(b@.subrange(from as int, from + p.len()) =~= p@);
    true
}

fn find_byte_from(b: &[u8], from: usize, v: u8) -> (r: usize)
    requires
        from <= b.len(),
    ensures
        r as int == first_byte_from(b@, from as int, v),
{
    let mut i = from;
    while i < b.len() && b[i] != v
        invariant
            from <= i <= b.len(),
            first_byte_from(b@, from as int, v) == first_byte_from(b@, i as int, v),
        decreases b.len() - i,
    {
        i = i + 1;
    }
    i
}

/// Takes every complete record frame out of the terminal output, returning
/// the bytes left to show and the records decoded from the frames, in order.
pub fn strip_shell_command_records(output: Vec<u8>) -> (r: (Vec<u8>, Vec<ShellCommandRecord>))
    ensures
        (r.0@, r.1@.map_values(|x: ShellCommandRecord| x@)) == strip_from(output@, 0),
{
    let prefix = command_record_prefix();
    let mut visible: Vec<u8> = Vec::new();
    let mut records: Vec<ShellCommandRecord> = Vec::new();
    let mut index: usize = 0;
    let ghost out = output@;
    assert(visible@ + strip_from(out, 0).0 =~= strip_from(out, 0).0);
    assert(records@.map_values(|x: ShellCommandRecord| x@) + strip_from(out, 0).1 =~= strip_from(
        out,
        0,
    ).1);
    while index < output.len()
        invariant
            index <= output.len(),
            out == output@,
            prefix@ == record_prefix(),
            strip_from(out, 0).0 == visible@ + strip_from(out, index as int).0,
            strip_from(out, 0).1 == records@.map_values(|x: ShellCommandRecord| x@) + strip_from(
                out,
                index as int,
            ).1,
        decreases output.len() - index,
    {
        let ghost vis_before = visible@;
        let ghost rec_before = records@.map_values(|x: ShellCommandRecord| x@);
        if bytes_at(output.as_slice(), index, prefix.as_slice()) {
            let payload_start = index + prefix.len();
            let payload_end = find_byte_from(output.as_slice(), payload_start, COMMAND_RECORD_END);
            if payload_end < output.len() {
                assert(frame_at(out, index as int));
                proof {
                    lemma_first_byte_from(out, payload_start as int, COMMAND_RECORD_END);
                }
                let payload = vstd::slice::slice_subrange(
                    output.as_slice(),
                    payload_start,
                    payload_end,
                );
                let parsed = parse_shell_command_record(payload);
                if let Some(record) = parsed {
                    records.push(record);
                    assert(records@.map_values(|x: ShellCommandRecord| x@) =~= rec_before.push(
                        record@,
                    ));
                }
                let ghost rest = strip_from(out, payload_end + 1);
                assert(strip_from(out, 0).1 == records@.map_values(|x: ShellCommandRecord| x@)
                    + rest.1);
                index = payload_end + 1;
                continue;
            }
        }
        assert(!frame_at(out, index as int));
        visible.push(output[index]);
        assert(visible@ + strip_from(out, index + 1).0 =~= vis_before + (seq![out[index as int]]
            + strip_from(out, index + 1).0));
        index = index + 1;
    }
    (visible, records)
}

/// Output that holds no record prefix is shown unchanged and yields no record.
pub proof fn lemma_plain_output_unchanged(out: Seq<u8>)
    requires
        forall|i: int|
            0 <= i && i + record_prefix().len() <= out.len() ==> #[trigger] out.subrange(
                i,
                i + record_prefix().len(),
            ) != record_prefix(),
    ensures
        strip_from(out, 0) == (out, Seq::<RecordModel>::empty()),
{
    lemma_plain_from(out, 0);
    assert(out.skip(0) =~= out);
}

proof fn lemma_plain_from(out: Seq<u8>, i: int)
    requires
        0 <= i <= out.len(),
        forall|k: int|
            0 <= k && k + record_prefix().len() <= out.len() ==> #[trigger] out.subrange(
                k,
                k + record_prefix().len(),
            ) != record_prefix(),
    ensures
        strip_from(out, i) == (out.skip(i), Seq::<RecordModel>::empty()),
    decreases out.len() - i,
{
    if i < out.len() {
        lemma_plain_from(out, i + 1);
        assert(!frame_at(out, i));
        assert(seq![out[i]] + out.skip(i + 1) =~= out.skip(i));
    } else {
        assert(out.skip(i) =~= Seq::<u8>::empty());
    }
}

} // verus!
