//! The decisions around one run of a configured host program: the argv it
//! gets, when the supervisor kills it, how its streams are capped and split
//! into event lines, and the verdict on how it ended. Spawning, waiting and
//! reading are the caller's.

use vstd::prelude::*;
use crate::text::{str_chars, string_from_chars, push_str, push_decimal, decimal, push_i32_text, signed_text};
use crate::seqs::chars_eq;
use super::config::ProcOutputMode;

verus! {

/// Why the supervisor killed the child.
#[derive(Debug, Clone, Copy, PartialEq, Eq, Structural)]
pub enum Kill {
    Aborted,
    Timeout,
    OutCap,
    ErrCap,
}

/// The first reason to kill, checked in this order: an abort, a passed
/// deadline, a full stdout capture, a full stderr capture.
pub open spec fn trigger_of(aborted: bool, deadline: Option<u64>, now: u64, out_full: bool, err_full: bool) -> Option<Kill> {
    if aborted {
        Some(Kill::Aborted)
    } else if deadline matches Some(d) && now > d {
        Some(Kill::Timeout)
    } else if out_full {
        Some(Kill::OutCap)
    } else if err_full {
        Some(Kill::ErrCap)
    } else {
        None
    }
}

/// The reasons to kill a running child, in the order they win: an abort
/// always; else a passed deadline; else a full stdout capture; else a full
/// stderr capture; with none of these the child keeps running.
pub proof fn lemma_kill_reasons(aborted: bool, deadline: Option<u64>, now: u64, out_full: bool, err_full: bool)
    ensures
        ({
            let late = deadline matches Some(d) && now > d;
            let r = trigger_of(aborted, deadline, now, out_full, err_full);
            &&& aborted ==> r == Some(Kill::Aborted)
            &&& !aborted && late ==> r == Some(Kill::Timeout)
            &&& !aborted && !late && out_full ==> r == Some(Kill::OutCap)
            &&& !aborted && !late && !out_full && err_full ==> r == Some(Kill::ErrCap)
            &&& r is None <==> (!aborted && !late && !out_full && !err_full)
        }),
{
}

/// Why to kill the child now, if at all (see `trigger_of`).
pub fn kill_trigger(aborted: bool, deadline: Option<u64>, now_ms: u64, out_full: bool, err_full: bool) -> (r: Option<Kill>)
    ensures
        r == trigger_of(aborted, deadline, now_ms, out_full, err_full),
{
    let late = match deadline {
        Some(d) => now_ms > d,
        None => false,
    };
    if aborted {
        Some(Kill::Aborted)
    } else if late {
        Some(Kill::Timeout)
    } else if out_full {
        Some(Kill::OutCap)
    } else if err_full {
        Some(Kill::ErrCap)
    } else {
        None
    }
}

/// The kinds of job failure a process run reports.
#[derive(Debug, Clone, Copy, PartialEq, Eq, Structural)]
pub enum ErrorKind {
    Aborted,
    Timeout,
    RunnerFailed,
    Internal,
    Unavailable,
}

/// A job failure: its kind and message.
#[derive(Debug, Clone, PartialEq, Eq)]
pub struct JobError {
    pub kind: ErrorKind,
    pub message: String,
}

/// How the child ended, when waiting on it worked: whether it succeeded and
/// its exit code (none when a signal ended it).
#[derive(Debug, Clone, Copy, PartialEq, Eq, Structural)]
pub struct ProcessExit {
    pub success: bool,
    pub code: Option<i32>,
}

/// The failure of a run: a kill names its reason (with the cap for the
/// capture caps); otherwise an unsuccessful exit, or a failed wait.
pub open spec fn failure_of(status: Option<ProcessExit>, kill: Option<Kill>, max_out_bytes: u64, max_err_bytes: u64) -> Option<(ErrorKind, Seq<char>)> {
    match kill {
        Some(Kill::Aborted) => Some((ErrorKind::Aborted, "aborted by caller; process killed"@)),
        Some(Kill::Timeout) => Some((ErrorKind::Timeout, "run deadline exceeded; process killed"@)),
        Some(Kill::OutCap) => Some(
            (
                ErrorKind::RunnerFailed,
                "output exceeded maxOutBytes ("@ + decimal(max_out_bytes as nat) + "); process killed"@,
            ),
        ),
        Some(Kill::ErrCap) => Some(
            (
                ErrorKind::RunnerFailed,
                "diagnostics exceeded maxErrBytes ("@ + decimal(max_err_bytes as nat)
                    + "); process killed"@,
            ),
        ),
        None => match status {
            Some(s) => if s.success {
                None
            } else {
                Some(
                    (
                        ErrorKind::RunnerFailed,
                        match s.code {
                            Some(c) => "process exited with status "@ + signed_text(c as int),
                            None => "process terminated by a signal"@,
                        },
                    ),
                )
            },
            None => Some((ErrorKind::Internal, "wait on child failed"@)),
        },
    }
}

fn job_error(kind: ErrorKind, parts: &Vec<char>) -> (e: JobError)
    ensures
        e.kind == kind,
        e.message@ == parts@,
{
    JobError { kind, message: string_from_chars(parts.as_slice()) }
}

/// The failure of a run, if it failed (see `failure_of`); the exit code the
/// job reports is the process's own either way.
pub fn run_failure(
    status: Option<ProcessExit>,
    kill: Option<Kill>,
    max_out_bytes: u64,
    max_err_bytes: u64,
) -> (r: Option<JobError>)
    ensures
        match failure_of(status, kill, max_out_bytes, max_err_bytes) {
            Some((kind, message)) => r matches Some(e) && e.kind == kind && e.message@ == message,
            None => r is None,
        },
{
    let mut m: Vec<char> = Vec::new();
    match kill {
        Some(Kill::Aborted) => {
            push_str(&mut m, "aborted by caller; process killed");
            Some(job_error(ErrorKind::Aborted, &m))
        },
        Some(Kill::Timeout) => {
            push_str(&mut m, "run deadline exceeded; process killed");
            Some(job_error(ErrorKind::Timeout, &m))
        },
        Some(Kill::OutCap) => {
            push_str(&mut m, "output exceeded maxOutBytes (");
            push_decimal(&mut m, max_out_bytes);
            push_str(&mut m, "); process killed");
            Some(job_error(ErrorKind::RunnerFailed, &m))
        },
        Some(Kill::ErrCap) => {
            push_str(&mut m, "diagnostics exceeded maxErrBytes (");
            push_decimal(&mut m, max_err_bytes);
            push_str(&mut m, "); process killed");
            Some(job_error(ErrorKind::RunnerFailed, &m))
        },
        None => match status {
            Some(s) => if s.success {
                None
            } else {
                match s.code {
                    Some(c) => {
                        push_str(&mut m, "process exited with status ");
                        push_i32_text(&mut m, c);
                    },
                    None => {
                        push_str(&mut m, "process terminated by a signal");
                    },
                }
                Some(job_error(ErrorKind::RunnerFailed, &m))
            },
            None => {
                push_str(&mut m, "wait on child failed");
                Some(job_error(ErrorKind::Internal, &m))
            },
        },
    }
}

/// What a finished run reports: the job output, the captured diagnostics,
/// the exit code and the failure, if any.
#[derive(Debug, Clone, PartialEq, Eq)]
pub struct RunOutcome {
    pub out: Vec<u8>,
    pub err: Vec<u8>,
    pub exit_code: Option<i32>,
    pub error: Option<JobError>,
}

/// Whether the verdict on a run needs its output file read: only when the
/// run itself did not fail and the tool writes its output to a file.
pub fn reads_output_file(
    output: ProcOutputMode,
    status: Option<ProcessExit>,
    kill: Option<Kill>,
    max_out_bytes: u64,
    max_err_bytes: u64,
) -> (r: bool)
    ensures
        r == (failure_of(status, kill, max_out_bytes, max_err_bytes) is None && output
            == ProcOutputMode::Tempfile),
{
    run_failure(status, kill, max_out_bytes, max_err_bytes).is_none() && match output {
        ProcOutputMode::Tempfile => true,
        ProcOutputMode::Stdout => false,
    }
}

/// The verdict on a supervised run. A failed run (see `failure_of`) keeps
/// its captured streams; otherwise the output is the captured stdout, or in
/// tempfile mode what reading the output file gave (`output_file`, read when
/// `reads_output_file` says so), a failed read leaving no output.
pub fn run_outcome(
    output: ProcOutputMode,
    status: Option<ProcessExit>,
    kill: Option<Kill>,
    max_out_bytes: u64,
    max_err_bytes: u64,
    out: Vec<u8>,
    err: Vec<u8>,
    output_file: Option<Result<Vec<u8>, JobError>>,
) -> (r: RunOutcome)
    requires
        failure_of(status, kill, max_out_bytes, max_err_bytes) is None && output
            == ProcOutputMode::Tempfile ==> output_file is Some,
    ensures
        r.exit_code == (match status {
            Some(s) => s.code,
            None => None,
        }),
        r.err@ == err@,
        match failure_of(status, kill, max_out_bytes, max_err_bytes) {
            Some((kind, message)) => r.out@ == out@ && (r.error matches Some(e) && e.kind == kind
                && e.message@ == message),
            None => match output {
                ProcOutputMode::Stdout => r.out@ == out@ && r.error is None,
                ProcOutputMode::Tempfile => match output_file {
                    Some(Ok(bytes)) => r.out@ == bytes@ && r.error is None,
                    Some(Err(e)) => r.out@.len() == 0 && r.error == Some(e),
                    None => true,
                },
            },
        },
{
    let exit_code = match status {
        Some(s) => s.code,
        None => None,
    };
    let failure = run_failure(status, kill, max_out_bytes, max_err_bytes);
    if failure.is_some() {
        return RunOutcome { out, err, exit_code, error: failure };
    }
    match output {
        ProcOutputMode::Stdout => RunOutcome { out, err, exit_code, error: None },
        ProcOutputMode::Tempfile => match output_file {
            Some(Ok(bytes)) => RunOutcome { out: bytes, err, exit_code, error: None },
            Some(Err(e)) => RunOutcome { out: Vec::new(), err, exit_code, error: Some(e) },
            None => RunOutcome { out, err, exit_code, error: None },
        },
    }
}

/// The failure when the output file is larger than the cap.
pub fn output_file_error(len: u64, cap: u64) -> (r: Option<JobError>)
    ensures
        len > cap ==> (r matches Some(e) && e.kind == ErrorKind::RunnerFailed && e.message@
            == "output file exceeded maxOutBytes ("@ + decimal(cap as nat) + ")"@),
        len <= cap ==> r is None,
{
    if len > cap {
        let mut m: Vec<char> = Vec::new();
        push_str(&mut m, "output file exceeded maxOutBytes (");
        push_decimal(&mut m, cap);
        push_str(&mut m, ")");
        Some(job_error(ErrorKind::RunnerFailed, &m))
    } else {
        None
    }
}

// ---------------------------------------------------------------------------
// The child's argv
// ---------------------------------------------------------------------------

/// An argument as the child gets it: the placeholders become the workdir's
/// input and output file paths.
pub open spec fn child_arg(a: Seq<char>, input_path: Seq<char>, output_path: Seq<char>) -> Seq<char> {
    if a == "{input}"@ {
        input_path
    } else if a == "{output}"@ {
        output_path
    } else {
        a
    }
}

/// The child's arguments: the configured ones with placeholders replaced.
pub fn child_argv(args: &[String], input_path: &str, output_path: &str) -> (r: Vec<String>)
    ensures
        r.len() == args.len(),
        forall|i: int|
            0 <= i < args.len() ==> (#[trigger] r@[i])@ == child_arg(args@[i]@, input_path@, output_path@),
{
    let mut r: Vec<String> = Vec::new();
    let mut i: usize = 0;
    while i < args.len()
        invariant
            i <= args.len(),
            r.len() == i,
            forall|j: int| 0 <= j < i ==> (#[trigger] r@[j])@ == child_arg(args@[j]@, input_path@, output_path@),
        decreases args.len() - i,
    {
        let a = str_chars(args[i].as_str());
        let v = if chars_eq(a.as_slice(), str_chars("{input}").as_slice()) {
            input_path.to_owned()
        } else if chars_eq(a.as_slice(), str_chars("{output}").as_slice()) {
            output_path.to_owned()
        } else {
            args[i].clone()
        };
        r.push(v);
        i = i + 1;
    }
    r
}

// ---------------------------------------------------------------------------
// Bounded capture and event lines
// ---------------------------------------------------------------------------

/// Adds one read chunk to a capture bounded by `cap`: once the capture is
/// full nothing more is kept; a chunk that does not fit is cut at the cap and
/// marks the capture full.
pub fn capture_chunk(captured: &mut Vec<u8>, full: &mut bool, cap: usize, chunk: &[u8])
    requires
        old(captured)@.len() <= cap,
    ensures
        final(captured)@.len() <= cap,
        *old(full) ==> final(captured)@ == old(captured)@ && *final(full),
        !*old(full) ==> final(captured)@ == old(captured)@ + chunk@.take(
            if chunk.len() <= cap - old(captured)@.len() {
                chunk.len() as int
            } else {
                cap - old(captured)@.len()
            },
        ) && *final(full) == (chunk.len() > cap - old(captured)@.len()),
{
    if *full {
        return;
    }
    let room = cap - captured.len();
    let n = if chunk.len() <= room {
        chunk.len()
    } else {
        room
    };
    let ghost start = captured@;
    let mut k: usize = 0;
    while k < n
        invariant
            k <= n <= chunk.len(),
            captured@ == start + chunk@.take(k as int),
        decreases n - k,
    {
        captured.push(chunk[k]);
        assert(captured@ =~= start + chunk@.take(k + 1));
        k = k + 1;
    }
    if chunk.len() > room {
        *full = true;
    }
}

/// The longest partial line kept before it is sent anyway.
pub const MAX_PENDING_LINE: usize = 8192;

/// The event lines to send after a chunk: every completed line, with its
/// newline, in order; a partial line longer than the limit is sent too, with
/// a newline added.
pub open spec fn line_split(pending: Seq<u8>) -> (Seq<Seq<u8>>, Seq<u8>)
    decreases pending.len(),
{
    let k = first_newline(pending, 0);
    if k < pending.len() {
        proof {
            lemma_first_newline(pending, 0);
        }
        let rest = line_split(pending.skip(k + 1));
        (seq![pending.take(k + 1)] + rest.0, rest.1)
    } else {
        (Seq::empty(), pending)
    }
}

pub open spec fn first_newline(b: Seq<u8>, from: int) -> int
    decreases b.len() - from,
{
    if from < 0 || from >= b.len() {
        b.len() as int
    } else if b[from] == 10u8 {
        from
    } else {
        first_newline(b, from + 1)
    }
}

pub proof fn lemma_first_newline(b: Seq<u8>, from: int)
    requires
        0 <= from,
    ensures
        first_newline(b, from) <= b.len(),
        from <= b.len() ==> from <= first_newline(b, from),
        first_newline(b, from) < b.len() ==> b[first_newline(b, from)] == 10u8,
        forall|j: int| from <= j < first_newline(b, from) ==> b[j] != 10u8,
    decreases b.len() - from,
{
    if from < b.len() && b[from] != 10u8 {
        lemma_first_newline(b, from + 1);
    }
}

pub open spec fn stream_step(pending: Seq<u8>, chunk: Seq<u8>) -> (Seq<Seq<u8>>, Seq<u8>) {
    let (lines, rest) = line_split(pending + chunk);
    if rest.len() > MAX_PENDING_LINE {
        (lines.push(rest.push(10u8)), Seq::empty())
    } else {
        (lines, rest)
    }
}

/// Takes the completed lines out of the pending bytes plus `chunk` (see
/// `stream_step`) and returns them.
pub fn stream_lines(pending: &mut Vec<u8>, chunk: &[u8]) -> (lines: Vec<Vec<u8>>)
    ensures
        (lines.deep_view(), final(pending)@) == stream_step(old(pending)@, chunk@),
{
    let ghost all = old(pending)@ + chunk@;
    let mut buf: Vec<u8> = Vec::new();
    let mut k: usize = 0;
    while k < pending.len()
        invariant
            k <= pending.len(),
            buf@ == pending@.take(k as int),
        decreases pending.len() - k,
    {
        buf.push(pending[k]);
        assert(buf@ =~= pending@.take(k + 1));
        k = k + 1;
    }
    assert(pending@.take(k as int) =~= pending@);
    let mut c: usize = 0;
    let ghost head = buf@;
    while c < chunk.len()
        invariant
            c <= chunk.len(),
            buf@ == head + chunk@.take(c as int),
        decreases chunk.len() - c,
    {
        buf.push(chunk[c]);
        assert(buf@ =~= head + chunk@.take(c + 1));
        c = c + 1;
    }
    assert(chunk@.take(c as int) =~= chunk@);
    assert(buf@ =~= all);
    let mut lines: Vec<Vec<u8>> = Vec::new();
    let mut start: usize = 0;
    assert(all.skip(0) =~= all);
    loop
        invariant
            start <= buf.len(),
            buf@ == all,
            all == old(pending)@ + chunk@,
            line_split(all) == (lines.deep_view() + line_split(all.skip(start as int)).0, line_split(
                all.skip(start as int),
            ).1),
        decreases buf.len() - start,
    {
        let ghost rest = all.skip(start as int);
        let mut i = start;
        while i < buf.len() && buf[i] != 10
            invariant
                start <= i <= buf.len(),
                forall|j: int| start <= j < i ==> buf@[j] != 10u8,
            decreases buf.len() - i,
        {
            i = i + 1;
        }
        proof {
            lemma_first_newline(rest, 0);
            assert forall|j: int| 0 <= j < i - start implies rest[j] != 10u8 by {
                assert(rest[j] == buf@[start + j]);
            }
            if i < buf.len() {
                assert(rest[i - start] == 10u8);
            }
            lemma_first_newline_is(rest, i - start);
        }
        if i >= buf.len() {
            let mut left: Vec<u8> = Vec::new();
            let mut k2 = start;
            while k2 < buf.len()
                invariant
                    start <= k2 <= buf.len(),
                    left@ == buf@.subrange(start as int, k2 as int),
                decreases buf.len() - k2,
            {
                left.push(buf[k2]);
                assert(left@ =~= buf@.subrange(start as int, k2 + 1));
                k2 = k2 + 1;
            }
            assert(left@ =~= rest);
            assert(first_newline(rest, 0) == rest.len());
            assert(line_split(rest) == (Seq::<Seq<u8>>::empty(), rest));
            assert(lines.deep_view() + Seq::<Seq<u8>>::empty() =~= lines.deep_view());
            assert(line_split(old(pending)@ + chunk@) == (lines.deep_view(), rest));
            if left.len() > MAX_PENDING_LINE {
                let ghost before = lines.deep_view();
                left.push(10);
                assert(left.deep_view() =~= left@);
                lines.push(left);
                assert(lines.deep_view() =~= before.push(rest.push(10u8)));
                *pending = Vec::new();
            } else {
                *pending = left;
            }
            return lines;
        }
        let mut line: Vec<u8> = Vec::new();
        let mut k3 = start;
        while k3 <= i
            invariant
                start <= k3 <= i + 1,
                i < buf.len(),
                line@ == buf@.subrange(start as int, k3 as int),
            decreases i + 1 - k3,
        {
            line.push(buf[k3]);
            assert(line@ =~= buf@.subrange(start as int, k3 + 1));
            k3 = k3 + 1;
        }
        assert(line@ =~= rest.take(i - start + 1));
        assert(rest.skip(i - start + 1) =~= all.skip(i + 1));
        let ghost before = lines.deep_view();
        assert(line.deep_view() =~= line@);
        lines.push(line);
        assert(lines.deep_view() =~= before.push(rest.take(i - start + 1)));
        assert(before + (seq![rest.take(i - start + 1)] + line_split(all.skip(i + 1)).0)
            =~= lines.deep_view() + line_split(all.skip(i + 1)).0);
        start = i + 1;
    }
}

proof fn lemma_first_newline_is(b: Seq<u8>, k: int)
    requires
        0 <= k <= b.len(),
        forall|j: int| 0 <= j < k ==> b[j] != 10u8,
        k < b.len() ==> b[k] == 10u8,
    ensures
        first_newline(b, 0) == k,
{
    lemma_first_newline_from(b, 0, k);
}

proof fn lemma_first_newline_from(b: Seq<u8>, from: int, k: int)
    requires
        0 <= from <= k <= b.len(),
        forall|j: int| from <= j < k ==> b[j] != 10u8,
        k < b.len() ==> b[k] == 10u8,
    ensures
        first_newline(b, from) == k,
    decreases k - from,
{
    if from < k {
        lemma_first_newline_from(b, from + 1, k);
    }
}

/// Every event line ends with a newline, and the pending bytes never grow
/// past the limit: the capture of diagnostics stays bounded.
pub proof fn lemma_stream_lines_bounded(pending: Seq<u8>, chunk: Seq<u8>)
    ensures
        stream_step(pending, chunk).1.len() <= MAX_PENDING_LINE,
{
}

} // verus!
