//! Framing of streamed bodies: chunked-transfer frames, and Server-Sent
//! Events made from newline-terminated lines of a byte stream.

use vstd::prelude::*;
use crate::text::{hex_lower, push_hex};

verus! {

/// `data: <line>\n\n`, the line losing one trailing carriage return.
pub open spec fn sse_event_of(line: Seq<u8>) -> Seq<u8> {
    let trimmed = if line.len() > 0 && line.last() == 13u8 {
        line.drop_last()
    } else {
        line
    };
    seq![100u8, 97, 116, 97, 58, 32] + trimmed + seq![10u8, 10]
}

/// The pending partial line and the events after reading `bytes` with
/// `pending` left over from before: each newline completes one event.
pub open spec fn sse_scan(pending: Seq<u8>, bytes: Seq<u8>) -> (Seq<u8>, Seq<u8>)
    decreases bytes.len(),
{
    if bytes.len() == 0 {
        (pending, Seq::empty())
    } else {
        let (p, events) = sse_scan(pending, bytes.drop_last());
        if bytes.last() == 10u8 {
            (Seq::empty(), events + sse_event_of(p))
        } else {
            (p.push(bytes.last()), events)
        }
    }
}

/// One SSE event for a line.
pub fn sse_event(line: &[u8]) -> (r: Vec<u8>)
    ensures
        r@ == sse_event_of(line@),
{
    let end = if line.len() > 0 && line[line.len() - 1] == 13 {
        line.len() - 1
    } else {
        line.len()
    };
    let mut event: Vec<u8> = vec![100u8, 97, 116, 97, 58, 32];
    let mut i: usize = 0;
    let ghost head = event@;
    while i < end
        invariant
            i <= end <= line.len(),
            event@ == head + line@.take(i as int),
        decreases end - i,
    {
        event.push(line[i]);
        assert(event@ =~= head + line@.take(i + 1));
        i = i + 1;
    }
    event.push(10);
    event.push(10);
    assert(line@.take(end as int) =~= (if line@.len() > 0 && line@.last() == 13u8 {
        line@.drop_last()
    } else {
        line@
    }));
    assert(event@ =~= sse_event_of(line@));
    event
}

/// Re-frames stream bytes as SSE events, one per completed line; bytes after
/// the last newline stay in `pending_line` for the next read.
pub fn sse_events(pending_line: &mut Vec<u8>, bytes: &[u8]) -> (events: Vec<u8>)
    ensures
        (final(pending_line)@, events@) == sse_scan(old(pending_line)@, bytes@),
{
    let ghost start = pending_line@;
    let mut events: Vec<u8> = Vec::new();
    let mut i: usize = 0;
    assert(bytes@.take(0) =~= Seq::<u8>::empty());
    while i < bytes.len()
        invariant
            i <= bytes.len(),
            sse_scan(start, bytes@.take(i as int)) == (pending_line@, events@),
        decreases bytes.len() - i,
    {
        assert(bytes@.take(i + 1).drop_last() =~= bytes@.take(i as int));
        let byte = bytes[i];
        if byte == 10 {
            let mut event = sse_event(pending_line.as_slice());
            events.append(&mut event);
            pending_line.clear();
        } else {
            pending_line.push(byte);
        }
        i = i + 1;
    }
    assert(bytes@.take(i as int) =~= bytes@);
    events
}

/// Reading a stream in two pieces gives the same events, and leaves the same
/// partial line, as reading it at once: how reads split the stream does not
/// matter.
pub proof fn lemma_sse_split_reads(pending: Seq<u8>, a: Seq<u8>, b: Seq<u8>)
    ensures
        ({
            let (p1, e1) = sse_scan(pending, a);
            let (p2, e2) = sse_scan(p1, b);
            sse_scan(pending, a + b) == (p2, e1 + e2)
        }),
    decreases b.len(),
{
    let (p1, e1) = sse_scan(pending, a);
    if b.len() == 0 {
        assert(a + b =~= a);
        assert(e1 + Seq::<u8>::empty() =~= e1);
    } else {
        lemma_sse_split_reads(pending, a, b.drop_last());
        assert((a + b).drop_last() =~= a + b.drop_last());
        assert((a + b).last() == b.last());
        let (q, e2) = sse_scan(p1, b.drop_last());
        if b.last() == 10u8 {
            assert(e1 + e2 + sse_event_of(q) =~= e1 + (e2 + sse_event_of(q)));
        }
    }
}

/// What is left pending after a read is exactly the bytes after the last
/// newline of what was read, or everything pending plus everything read when
/// the read holds no newline (so the pending line itself never holds one).
pub proof fn lemma_sse_pending_is_tail(pending: Seq<u8>, bytes: Seq<u8>)
    requires
        forall|i: int| 0 <= i < pending.len() ==> #[trigger] pending[i] != 10u8,
    ensures
        (forall|i: int| 0 <= i < bytes.len() ==> #[trigger] bytes[i] != 10u8) ==> sse_scan(
            pending,
            bytes,
        ).0 == pending + bytes,
        forall|k: int|
            0 <= k < bytes.len() && #[trigger] bytes[k] == 10u8 && (forall|j: int|
                k < j < bytes.len() ==> #[trigger] bytes[j] != 10u8) ==> sse_scan(pending, bytes).0
                == bytes.skip(k + 1),
    decreases bytes.len(),
{
    if bytes.len() == 0 {
        assert(pending + bytes =~= pending);
    } else {
        let front = bytes.drop_last();
        let n = bytes.len() - 1;
        lemma_sse_pending_is_tail(pending, front);
        if bytes.last() == 10u8 {
            assert forall|k: int|
                0 <= k < bytes.len() && #[trigger] bytes[k] == 10u8 && (forall|j: int|
                    k < j < bytes.len() ==> #[trigger] bytes[j] != 10u8) implies sse_scan(
                pending,
                bytes,
            ).0 == bytes.skip(k + 1) by {
                if k < n {
                    assert(bytes[n] != 10u8);
                }
                assert(bytes.skip(k + 1) =~= Seq::<u8>::empty());
            }
            assert(bytes[n] == 10u8);
        } else {
            if forall|i: int| 0 <= i < bytes.len() ==> #[trigger] bytes[i] != 10u8 {
                assert forall|i: int| 0 <= i < front.len() implies #[trigger] front[i] != 10u8 by {
                    assert(front[i] == bytes[i]);
                }
                assert(pending + front.push(bytes.last()) =~= pending + bytes);
                assert(front.push(bytes.last()) =~= bytes);
            }
            assert forall|k: int|
                0 <= k < bytes.len() && #[trigger] bytes[k] == 10u8 && (forall|j: int|
                    k < j < bytes.len() ==> #[trigger] bytes[j] != 10u8) implies sse_scan(
                pending,
                bytes,
            ).0 == bytes.skip(k + 1) by {
                assert(k < n);
                assert(front[k] == 10u8);
                assert forall|j: int| k < j < front.len() implies #[trigger] front[j] != 10u8 by {
                    assert(front[j] == bytes[j]);
                }
                assert(front.skip(k + 1).push(bytes.last()) =~= bytes.skip(k + 1));
            }
        }
    }
}

/// One chunked-transfer frame: the length in lowercase hex, CRLF, the
/// payload, CRLF; an empty payload gives no frame (it would end the body).
pub open spec fn chunk_frame_of(payload: Seq<u8>) -> Seq<u8> {
    if payload.len() == 0 {
        Seq::empty()
    } else {
        hex_lower(payload.len()).map_values(|c: char| c as u8) + seq![13u8, 10] + payload + seq![
            13u8,
            10,
        ]
    }
}

/// The frame that carries `payload` in a chunked body.
pub fn chunk_frame(payload: &[u8]) -> (r: Vec<u8>)
    ensures
        r@ == chunk_frame_of(payload@),
{
    if payload.len() == 0 {
        return Vec::new();
    }
    let mut digits: Vec<char> = Vec::new();
    push_hex(&mut digits, payload.len() as u64);
    assert(digits@ =~= hex_lower(payload.len() as nat));
    let mut frame: Vec<u8> = Vec::new();
    let mut i: usize = 0;
    while i < digits.len()
        invariant
            i <= digits.len(),
            frame@ == digits@.take(i as int).map_values(|c: char| c as u8),
        decreases digits.len() - i,
    {
        frame.push(digits[i] as u8);
        assert(frame@ =~= digits@.take(i + 1).map_values(|c: char| c as u8));
        i = i + 1;
    }
    assert(digits@.take(i as int) =~= digits@);
    frame.push(13);
    frame.push(10);
    let ghost head = frame@;
    let mut k: usize = 0;
    while k < payload.len()
        invariant
            k <= payload.len(),
            frame@ == head + payload@.take(k as int),
        decreases payload.len() - k,
    {
        frame.push(payload[k]);
        assert(frame@ =~= head + payload@.take(k + 1));
        k = k + 1;
    }
    assert(payload@.take(k as int) =~= payload@);
    frame.push(13);
    frame.push(10);
    assert(frame@ =~= chunk_frame_of(payload@));
    frame
}

} // verus!
