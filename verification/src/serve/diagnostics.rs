//! What the server writes to its error stream between connections.

use vstd::prelude::*;
use vstd::utf8::encode_utf8;

verus! {

fn push_bytes(out: &mut Vec<u8>, s: &str)
    ensures
        final(out)@ == old(out)@ + encode_utf8(s@),
{
    let mut b = vstd::slice::slice_to_vec(s.as_bytes());
    out.append(&mut b);
}

/// After a failed 9P connection (a non-zero exit code) the raw 9P server
/// notes that it goes on; after a good one it writes nothing.
pub fn write_continue_after_error(exit_code: i32, process_stderr: &mut Vec<u8>)
    ensures
        exit_code == 0 ==> final(process_stderr)@ == old(process_stderr)@,
        exit_code != 0 ==> final(process_stderr)@ == old(process_stderr)@ + encode_utf8(
            "wanix-rust serve --p9: continuing after connection error\n"@,
        ),
{
    if exit_code == 0 {
        return;
    }
    push_bytes(process_stderr, "wanix-rust serve --p9: continuing after connection error\n");
}

/// Each reported connection error followed by the note that serving goes on.
pub open spec fn drained_text(messages: Seq<Seq<char>>) -> Seq<u8>
    decreases messages.len(),
{
    if messages.len() == 0 {
        Seq::empty()
    } else {
        drained_text(messages.drop_last()) + encode_utf8(messages.last()) + encode_utf8(
            "wanix serve: continuing after connection error\n"@,
        )
    }
}

/// Writes out the connection errors reported since the last call, each with
/// the note that serving goes on; says whether there was any.
pub fn drain_connection_errors(messages: &[String], process_stderr: &mut Vec<u8>) -> (had_error:
    bool)
    ensures
        had_error == (messages.len() > 0),
        final(process_stderr)@ == old(process_stderr)@ + drained_text(messages.deep_view()),
{
    let ghost start = process_stderr@;
    let ghost mv = messages.deep_view();
    let mut i: usize = 0;
    assert(process_stderr@ =~= start + drained_text(mv.take(0)));
    while i < messages.len()
        invariant
            i <= messages.len(),
            mv == messages.deep_view(),
            process_stderr@ == start + drained_text(mv.take(i as int)),
        decreases messages.len() - i,
    {
        assert(mv.take(i + 1).drop_last() =~= mv.take(i as int));
        assert(mv.take(i + 1).last() == messages@[i as int]@);
        push_bytes(process_stderr, messages[i].as_str());
        push_bytes(process_stderr, "wanix serve: continuing after connection error\n");
        assert(process_stderr@ =~= start + drained_text(mv.take(i + 1)));
        i = i + 1;
    }
    assert(mv.take(i as int) =~= mv);
    messages.len() > 0
}

/// The line the raw 9P server prints once it listens on `addr`.
pub fn raw9p_startup_message(addr: &str) -> (r: String)
    ensures
        r@ == "wanix-rust serve: raw 9P listening on tcp://"@ + addr@ + "/\n"@,
{
    let mut out: Vec<char> = Vec::new();
    crate::text::push_str(&mut out, "wanix-rust serve: raw 9P listening on tcp://");
    crate::text::push_str(&mut out, addr);
    crate::text::push_str(&mut out, "/\n");
    crate::text::string_from_chars(out.as_slice())
}

} // verus!
