//! The shell's command history as agents read it: one entry per recorded
//! command, with its outcome and the operation it announced, and a Markdown
//! table of the latest batch. Writing the files is the caller's.

use vstd::prelude::*;
use crate::text::{str_chars, string_from_chars, push_str};
use crate::terminal::activity::{ShellMutationOperation, OperationModel};
use crate::terminal::observation::{ShellCommandObservation, ObservationModel, is_error};

verus! {

pub const SHELL_HISTORY_COMMANDS_PATH: &'static str = "/.wanix/qjs-shell/commands.jsonl";

pub const SHELL_HISTORY_LATEST_JSON_PATH: &'static str = "/.wanix/qjs-shell/latest.json";

pub const SHELL_HISTORY_LATEST_MD_PATH: &'static str = "/.wanix/qjs-shell/latest.md";

pub const SHELL_HISTORY_SCHEMA: &'static str = "wanix.qjs-shell.command-history.v1";

/// The three history files, as paths inside the served root.
pub fn shell_history_paths() -> (r: Vec<String>)
    ensures
        r.deep_view() == seq![
            SHELL_HISTORY_COMMANDS_PATH@,
            SHELL_HISTORY_LATEST_JSON_PATH@,
            SHELL_HISTORY_LATEST_MD_PATH@,
        ],
{
    let r = vec![
        SHELL_HISTORY_COMMANDS_PATH.to_owned(),
        SHELL_HISTORY_LATEST_JSON_PATH.to_owned(),
        SHELL_HISTORY_LATEST_MD_PATH.to_owned(),
    ];
    assert(r.deep_view() =~= seq![
        SHELL_HISTORY_COMMANDS_PATH@,
        SHELL_HISTORY_LATEST_JSON_PATH@,
        SHELL_HISTORY_LATEST_MD_PATH@,
    ]);
    r
}

/// How one character is written in a table cell: line breaks become
/// spaces and `|` is escaped, so a cell never ends its row or column.
pub open spec fn cell_char(c: char) -> Seq<char> {
    if c == '\n' || c == '\r' {
        seq![' ']
    } else if c == '|' {
        seq!['\\', '|']
    } else {
        seq![c]
    }
}

pub open spec fn cell_text(s: Seq<char>) -> Seq<char>
    decreases s.len(),
{
    if s.len() == 0 {
        Seq::empty()
    } else {
        cell_text(s.drop_last()) + cell_char(s.last())
    }
}

pub open spec fn cell_of(v: Option<Seq<char>>) -> Seq<char> {
    match v {
        Some(s) => cell_text(s),
        None => Seq::empty(),
    }
}

fn push_cell(out: &mut Vec<char>, value: Option<&str>)
    ensures
        final(out)@ == old(out)@ + cell_of(
            match value {
                Some(v) => Some(v@),
                None => None,
            },
        ),
{
    let ghost start = out@;
    if let Some(v) = value {
        let chars = str_chars(v);
        let mut i: usize = 0;
        assert(chars@.take(0) =~= Seq::<char>::empty());
        assert(out@ =~= start + cell_text(chars@.take(0)));
        while i < chars.len()
            invariant
                i <= chars.len(),
                chars@ == v@,
                out@ == start + cell_text(chars@.take(i as int)),
            decreases chars.len() - i,
        {
            assert(chars@.take(i + 1).drop_last() =~= chars@.take(i as int));
            let c = chars[i];
            if c == '\n' || c == '\r' {
                out.push(' ');
            } else if c == '|' {
                out.push('\\');
                out.push('|');
            } else {
                out.push(c);
            }
            assert(out@ =~= start + cell_text(chars@.take(i + 1)));
            i = i + 1;
        }
        assert(chars@.take(i as int) =~= chars@);
    } else {
        assert(out@ =~= start + cell_of(None));
    }
}

/// A value as a Markdown table cell (see `cell_char`); nothing for none.
pub fn markdown_cell(value: Option<&str>) -> (r: String)
    ensures
        r@ == cell_of(
            match value {
                Some(v) => Some(v@),
                None => None,
            },
        ),
{
    let mut out: Vec<char> = Vec::new();
    push_cell(&mut out, value);
    string_from_chars(out.as_slice())
}

/// A cell never holds a line break or an unescaped `|`.
pub proof fn lemma_cell_is_one_cell(s: Seq<char>)
    ensures
        forall|i: int|
            0 <= i < cell_text(s).len() ==> cell_text(s)[i] != '\n' && cell_text(s)[i] != '\r',
        forall|i: int|
            0 <= i < cell_text(s).len() && #[trigger] cell_text(s)[i] == '|' ==> i > 0 && cell_text(
                s,
            )[i - 1] == '\\',
    decreases s.len(),
{
    if s.len() > 0 {
        lemma_cell_is_one_cell(s.drop_last());
        let a = cell_text(s.drop_last());
        let b = cell_char(s.last());
        assert forall|i: int| 0 <= i < (a + b).len() implies (a + b)[i] != '\n' && (a + b)[i]
            != '\r' by {
            if i < a.len() {
                assert((a + b)[i] == a[i]);
            } else {
                assert((a + b)[i] == b[i - a.len()]);
            }
        }
        assert forall|i: int| 0 <= i < (a + b).len() && #[trigger] (a + b)[i] == '|' implies i > 0
            && (a + b)[i - 1] == '\\' by {
            if i < a.len() {
                assert((a + b)[i] == a[i]);
                assert((a + b)[i - 1] == a[i - 1]);
            } else {
                assert((a + b)[i] == b[i - a.len()]);
                assert(i - a.len() == 1);
                assert((a + b)[i - 1] == b[0]);
            }
        }
    }
}

// ---------------------------------------------------------------------------
// Entries
// ---------------------------------------------------------------------------

/// Where the shell runs: its task, terminal and working directory.
#[derive(Debug, Clone)]
pub struct ShellHistoryContext {
    pub task_id: String,
    pub terminal_id: String,
    pub cwd: String,
}

/// The outcome of a recorded command.
#[derive(Debug, Clone)]
pub struct HistoryOutcome {
    pub status: &'static str,
    pub changed: bool,
    pub evidence: Option<String>,
    pub diagnostic: Option<String>,
    pub exit_code: Option<i32>,
    pub terminal_output: Option<String>,
}

/// The operation a recorded command announced.
#[derive(Debug, Clone)]
pub struct HistoryOperation {
    pub kind: String,
    pub status: String,
    pub command: String,
    pub source: Option<String>,
    pub target: Option<String>,
    pub paths: Vec<String>,
}

/// One history entry.
#[derive(Debug, Clone)]
pub struct HistoryEntry {
    pub observed_at_unix_millis: u64,
    pub task_id: String,
    pub terminal_id: String,
    pub cwd: String,
    pub command: Option<String>,
    pub outcome: HistoryOutcome,
    pub operation: Option<HistoryOperation>,
}

fn clone_opt(s: &Option<String>) -> (r: Option<String>)
    ensures
        r.deep_view() == s.deep_view(),
{
    match s {
        Some(x) => Some(x.clone()),
        None => None,
    }
}

/// The index of the first operation whose command is the record's.
pub open spec fn operation_index_for(ops: Seq<OperationModel>, command: Option<Seq<char>>) -> Option<int>
    decreases ops.len(),
{
    if ops.len() == 0 || command is None {
        None
    } else if ops.last().command == command->0 && operation_index_for(ops.drop_last(), command)
        is None {
        Some(ops.len() - 1)
    } else {
        operation_index_for(ops.drop_last(), command)
    }
}

/// Which operation a recorded command announced: the first with its command.
pub fn history_operation_for(
    record: &ShellCommandObservation,
    operations: &[ShellMutationOperation],
) -> (r: Option<usize>)
    ensures
        match r {
            Some(i) => i < operations.len() && operations@[i as int]@.command == record@.command->0
                && record@.command is Some && forall|j: int|
                0 <= j < i ==> operations@[j]@.command != record@.command->0,
            None => forall|j: int|
                0 <= j < operations.len() ==> !(record@.command == Some(operations@[j]@.command)),
        },
{
    let command = match &record.command {
        Some(c) => c,
        None => return None,
    };
    let mut i: usize = 0;
    while i < operations.len()
        invariant
            i <= operations.len(),
            record.command == Some(*command),
            forall|j: int| 0 <= j < i ==> operations@[j]@.command != command@,
        decreases operations.len() - i,
    {
        if operations[i].command == *command {
            return Some(i);
        }
        i = i + 1;
    }
    None
}

/// A record's outcome: an error when a diagnostic or a non-zero exit code
/// was seen, else ok; changed when its operation changed something.
pub fn shell_history_outcome(
    record: &ShellCommandObservation,
    operation: Option<&ShellMutationOperation>,
) -> (r: HistoryOutcome)
    ensures
        r.status@ == (if is_error(record@) {
            "error"@
        } else {
            "ok"@
        }),
        r.changed == (operation matches Some(op) && op@.status == "changed"@),
        r.evidence.deep_view() == record@.evidence,
        r.diagnostic.deep_view() == record@.diagnostic,
        r.exit_code == record@.exit_code,
        r.terminal_output.deep_view() == record@.terminal_output,
{
    let changed = match operation {
        Some(op) => op.status == "changed".to_owned(),
        None => false,
    };
    let status = if record.indicates_error() {
        "error"
    } else {
        "ok"
    };
    HistoryOutcome {
        status,
        changed,
        evidence: clone_opt(&record.evidence),
        diagnostic: clone_opt(&record.diagnostic),
        exit_code: record.exit_code,
        terminal_output: clone_opt(&record.terminal_output),
    }
}

fn clone_strings(v: &Vec<String>) -> (r: Vec<String>)
    ensures
        r.deep_view() == v.deep_view(),
{
    let mut r: Vec<String> = Vec::new();
    let mut i: usize = 0;
    while i < v.len()
        invariant
            i <= v.len(),
            r.deep_view() == v.deep_view().take(i as int),
        decreases v.len() - i,
    {
        let ghost before = r.deep_view();
        r.push(v[i].clone());
        assert(r.deep_view() =~= before.push(v[i as int]@));
        assert(v.deep_view().take(i + 1) =~= v.deep_view().take(i as int).push(v[i as int]@));
        i = i + 1;
    }
    assert(v.deep_view().take(i as int) =~= v.deep_view());
    r
}

/// The entry for one recorded command.
pub fn shell_history_entry(
    context: &ShellHistoryContext,
    observed_at: u64,
    record: &ShellCommandObservation,
    operation: Option<&ShellMutationOperation>,
) -> (r: HistoryEntry)
    ensures
        r.observed_at_unix_millis == observed_at,
        r.task_id@ == context.task_id@,
        r.terminal_id@ == context.terminal_id@,
        r.cwd@ == context.cwd@,
        r.command.deep_view() == record@.command,
        r.outcome.status@ == (if is_error(record@) {
            "error"@
        } else {
            "ok"@
        }),
        r.outcome.changed == (operation matches Some(op) && op@.status == "changed"@),
        r.outcome.evidence.deep_view() == record@.evidence,
        r.outcome.diagnostic.deep_view() == record@.diagnostic,
        r.outcome.exit_code == record@.exit_code,
        r.outcome.terminal_output.deep_view() == record@.terminal_output,
        r.operation is Some <==> operation is Some,
        operation matches Some(op) ==> (r.operation matches Some(o) && o.kind@ == op@.kind
            && o.status@ == op@.status && o.command@ == op@.command && o.source.deep_view()
            == op@.source && o.target.deep_view() == op@.target && o.paths.deep_view()
            == op@.paths),
{
    let operation_value = match operation {
        Some(op) => Some(
            HistoryOperation {
                kind: op.kind.clone(),
                status: op.status.clone(),
                command: op.command.clone(),
                source: clone_opt(&op.source),
                target: clone_opt(&op.target),
                paths: clone_strings(&op.paths),
            },
        ),
        None => None,
    };
    HistoryEntry {
        observed_at_unix_millis: observed_at,
        task_id: context.task_id.clone(),
        terminal_id: context.terminal_id.clone(),
        cwd: context.cwd.clone(),
        command: clone_opt(&record.command),
        outcome: shell_history_outcome(record, operation),
        operation: operation_value,
    }
}

/// The records that name a command, in order.
pub open spec fn recorded(records: Seq<ObservationModel>) -> Seq<ObservationModel>
    decreases records.len(),
{
    if records.len() == 0 {
        Seq::empty()
    } else if records.last().command is Some {
        recorded(records.drop_last()).push(records.last())
    } else {
        recorded(records.drop_last())
    }
}

pub open spec fn operation_matches(o: HistoryOperation, op: OperationModel) -> bool {
    &&& o.kind@ == op.kind
    &&& o.status@ == op.status
    &&& o.command@ == op.command
    &&& o.source.deep_view() == op.source
    &&& o.target.deep_view() == op.target
    &&& o.paths.deep_view() == op.paths
}

/// `i` is the first operation announced for `command`.
pub open spec fn first_operation_at(ops: Seq<OperationModel>, command: Seq<char>, i: int) -> bool {
    &&& 0 <= i < ops.len()
    &&& ops[i].command == command
    &&& forall|j: int| 0 <= j < i ==> ops[j].command != command
}

/// The history entry of one recorded command: the context, the time, the
/// record's command and outcome, and the first operation announced for the
/// command, if any.
pub open spec fn entry_for(
    e: HistoryEntry,
    context: ShellHistoryContext,
    observed_at: u64,
    rec: ObservationModel,
    ops: Seq<OperationModel>,
) -> bool {
    &&& e.observed_at_unix_millis == observed_at
    &&& e.task_id@ == context.task_id@
    &&& e.terminal_id@ == context.terminal_id@
    &&& e.cwd@ == context.cwd@
    &&& e.command.deep_view() == rec.command
    &&& e.outcome.status@ == (if is_error(rec) {
        "error"@
    } else {
        "ok"@
    })
    &&& e.outcome.evidence.deep_view() == rec.evidence
    &&& e.outcome.diagnostic.deep_view() == rec.diagnostic
    &&& e.outcome.exit_code == rec.exit_code
    &&& e.outcome.terminal_output.deep_view() == rec.terminal_output
    &&& match e.operation {
        Some(o) => rec.command is Some && exists|i: int|
            first_operation_at(ops, rec.command->0, i) && operation_matches(o, #[trigger] ops[i])
                && e.outcome.changed == (ops[i].status == "changed"@),
        None => !e.outcome.changed && forall|j: int|
            0 <= j < ops.len() ==> !(rec.command == Some(#[trigger] ops[j].command)),
    }
}

/// The entries of a batch: one per record that names a command, in order,
/// all observed at the same time.
pub fn shell_history_entries(
    context: &ShellHistoryContext,
    observed_at: u64,
    records: &[ShellCommandObservation],
    operations: &[ShellMutationOperation],
) -> (r: Vec<HistoryEntry>)
    ensures
        ({
            let recs = recorded(records@.map_values(|o: ShellCommandObservation| o@));
            let ops = operations@.map_values(|o: ShellMutationOperation| o@);
            r@.len() == recs.len() && forall|k: int|
                0 <= k < r@.len() ==> entry_for(#[trigger] r@[k], *context, observed_at, recs[k], ops)
        }),
{
    let ghost rv = records@.map_values(|o: ShellCommandObservation| o@);
    let ghost ops = operations@.map_values(|o: ShellMutationOperation| o@);
    let mut out: Vec<HistoryEntry> = Vec::new();
    let mut i: usize = 0;
    assert(rv.take(0) =~= Seq::<ObservationModel>::empty());
    while i < records.len()
        invariant
            i <= records.len(),
            rv == records@.map_values(|o: ShellCommandObservation| o@),
            ops == operations@.map_values(|o: ShellMutationOperation| o@),
            out@.len() == recorded(rv.take(i as int)).len(),
            forall|k: int|
                0 <= k < out@.len() ==> entry_for(
                    #[trigger] out@[k],
                    *context,
                    observed_at,
                    recorded(rv.take(i as int))[k],
                    ops,
                ),
        decreases records.len() - i,
    {
        assert(rv.take(i + 1).drop_last() =~= rv.take(i as int));
        assert(rv.take(i + 1).last() == records@[i as int]@);
        let record = &records[i];
        if record.command.is_some() {
            let found = history_operation_for(record, operations);
            let entry = match found {
                Some(j) => shell_history_entry(context, observed_at, record, Some(&operations[j])),
                None => shell_history_entry(context, observed_at, record, None),
            };
            proof {
                match found {
                    Some(j) => {
                        assert forall|m: int| 0 <= m < j implies ops[m].command != record@.command->0 by {
                            assert(ops[m] == operations@[m]@);
                        }
                        assert(ops[j as int] == operations@[j as int]@);
                        assert(first_operation_at(ops, record@.command->0, j as int));
                    },
                    None => {
                        assert forall|m: int| 0 <= m < ops.len() implies !(record@.command == Some(
                            #[trigger] ops[m].command,
                        )) by {
                            assert(ops[m] == operations@[m]@);
                        }
                    },
                }
                assert(entry_for(entry, *context, observed_at, records@[i as int]@, ops));
            }
            let ghost before = out@;
            out.push(entry);
            assert forall|k: int| 0 <= k < out@.len() implies entry_for(
                #[trigger] out@[k],
                *context,
                observed_at,
                recorded(rv.take(i + 1))[k],
                ops,
            ) by {
                if k < before.len() {
                    assert(out@[k] == before[k]);
                }
            }
        }
        i = i + 1;
    }
    assert(rv.take(i as int) =~= rv);
    out
}

// ---------------------------------------------------------------------------
// Markdown
// ---------------------------------------------------------------------------

pub open spec fn entry_place(e: HistoryEntry) -> Option<Seq<char>> {
    match e.operation {
        Some(op) => if op.target is Some {
            op.target.deep_view()
        } else {
            op.source.deep_view()
        },
        None => None,
    }
}

/// One table row: command, status, changed, target (else source) and
/// evidence.
pub open spec fn markdown_row(e: HistoryEntry) -> Seq<char> {
    "| "@ + cell_of(e.command.deep_view()) + " | "@ + cell_text(e.outcome.status@) + " | "@
        + (if e.outcome.changed {
        "true"@
    } else {
        "false"@
    }) + " | "@ + cell_of(entry_place(e)) + " | "@ + cell_of(e.outcome.evidence.deep_view())
        + " |"@
}

fn opt_str(s: &Option<String>) -> (r: Option<&str>)
    ensures
        match r {
            Some(x) => s.deep_view() == Some(x@),
            None => s is None,
        },
{
    match s {
        Some(x) => Some(x.as_str()),
        None => None,
    }
}

pub open spec fn row_left(e: HistoryEntry) -> Seq<char> {
    "| "@ + cell_of(e.command.deep_view()) + " | "@ + cell_text(e.outcome.status@) + " | "@
        + (if e.outcome.changed {
        "true"@
    } else {
        "false"@
    })
}

pub open spec fn row_right(e: HistoryEntry) -> Seq<char> {
    " | "@ + cell_of(entry_place(e)) + " | "@ + cell_of(e.outcome.evidence.deep_view()) + " |"@
}

fn push_row_left(out: &mut Vec<char>, entry: &HistoryEntry)
    ensures
        final(out)@ == old(out)@ + row_left(*entry),
{
    let ghost start = out@;
    push_str(out, "| ");
    push_cell(out, opt_str(&entry.command));
    push_str(out, " | ");
    let ghost mid = out@;
    push_cell(out, Some(entry.outcome.status));
    push_str(out, " | ");
    if entry.outcome.changed {
        push_str(out, "true");
    } else {
        push_str(out, "false");
    }
    assert(out@ =~= start + row_left(*entry));
}

fn push_row_right(out: &mut Vec<char>, entry: &HistoryEntry)
    ensures
        final(out)@ == old(out)@ + row_right(*entry),
{
    let ghost start = out@;
    push_str(out, " | ");
    let place = match &entry.operation {
        Some(op) => if op.target.is_some() {
            opt_str(&op.target)
        } else {
            opt_str(&op.source)
        },
        None => None,
    };
    assert(match place {
        Some(v) => Some(v@),
        None => None,
    } == entry_place(*entry));
    push_cell(out, place);
    push_str(out, " | ");
    push_cell(out, opt_str(&entry.outcome.evidence));
    push_str(out, " |");
    assert(out@ =~= start + row_right(*entry));
}

fn push_row(out: &mut Vec<char>, entry: &HistoryEntry)
    ensures
        final(out)@ == old(out)@ + markdown_row(*entry),
{
    let ghost start = out@;
    push_row_left(out, entry);
    push_row_right(out, entry);
    assert(out@ =~= start + markdown_row(*entry));
}

/// One entry as a table row (see `markdown_row`).
pub fn shell_history_markdown_row(entry: &HistoryEntry) -> (r: String)
    ensures
        r@ == markdown_row(*entry),
{
    let mut out: Vec<char> = Vec::new();
    push_row(&mut out, entry);
    assert(out@ =~= markdown_row(*entry));
    string_from_chars(out.as_slice())
}

pub open spec fn markdown_head() -> Seq<char> {
    "# Wanix qjs Shell Command History\n\nSchema: `wanix.qjs-shell.command-history.v1`\nJSONL: `/.wanix/qjs-shell/commands.jsonl`\nLatest JSON: `/.wanix/qjs-shell/latest.json`\n\n## Latest Commands\n\n| Command | Status | Changed | Target | Evidence |\n| --- | --- | --- | --- | --- |"@
}

pub open spec fn markdown_foot() -> Seq<char> {
    "\n\nThe JSONL file is append-only for agents; this Markdown file shows the latest batch from the served qjs-shell.\n"@
}

pub open spec fn markdown_rows(entries: Seq<HistoryEntry>) -> Seq<char>
    decreases entries.len(),
{
    if entries.len() == 0 {
        Seq::empty()
    } else {
        markdown_rows(entries.drop_last()) + "\n"@ + markdown_row(entries.last())
    }
}

/// The Markdown page of the latest batch: a title, where the files are,
/// and one table row per entry.
pub fn shell_history_markdown(entries: &[HistoryEntry]) -> (r: String)
    ensures
        r@ == markdown_head() + markdown_rows(entries@) + markdown_foot(),
{
    let mut out: Vec<char> = Vec::new();
    push_str(
        &mut out,
        "# Wanix qjs Shell Command History\n\nSchema: `wanix.qjs-shell.command-history.v1`\nJSONL: `/.wanix/qjs-shell/commands.jsonl`\nLatest JSON: `/.wanix/qjs-shell/latest.json`\n\n## Latest Commands\n\n| Command | Status | Changed | Target | Evidence |\n| --- | --- | --- | --- | --- |",
    );
    let ghost head = out@;
    let mut i: usize = 0;
    assert(out@ =~= head + markdown_rows(entries@.take(0)));
    while i < entries.len()
        invariant
            i <= entries.len(),
            head == markdown_head(),
            out@ == head + markdown_rows(entries@.take(i as int)),
        decreases entries.len() - i,
    {
        assert(entries@.take(i + 1).drop_last() =~= entries@.take(i as int));
        assert(entries@.take(i + 1).last() == entries@[i as int]);
        push_str(&mut out, "\n");
        push_row(&mut out, &entries[i]);
        assert(out@ =~= head + markdown_rows(entries@.take(i + 1)));
        i = i + 1;
    }
    assert(entries@.take(i as int) =~= entries@);
    push_str(
        &mut out,
        "\n\nThe JSONL file is append-only for agents; this Markdown file shows the latest batch from the served qjs-shell.\n",
    );
    string_from_chars(out.as_slice())
}

} // verus!
