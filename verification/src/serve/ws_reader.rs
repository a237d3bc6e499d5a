//! The byte stream a websocket carries for the 9P session: the payloads of
//! its binary messages, in order. Reading messages off the socket and
//! answering pings are the caller's; this reader keeps what a message
//! brought beyond what the last read wanted, and says what to do next.

use vstd::prelude::*;

verus! {

/// A message (or the end) read off the websocket.
#[derive(Debug, Clone, PartialEq, Eq)]
pub enum WsEvent {
    /// A binary message and its payload.
    Binary(Vec<u8>),
    /// A keepalive ping and its payload.
    Ping(Vec<u8>),
    /// A close message, or the connection already closed.
    Close,
    /// A text, pong or raw frame message: not part of the stream.
    Ignored,
}

/// What a read does next.
#[derive(Debug, Clone, PartialEq, Eq)]
pub enum WsReadStep {
    /// Hand these bytes to the reader.
    Deliver(Vec<u8>),
    /// Read the next message off the socket.
    NeedMessage,
    /// Answer a ping with a pong carrying this payload, then go on.
    Pong(Vec<u8>),
    /// The stream has ended.
    End,
}

/// The bytes received and not yet read.
#[derive(Debug)]
pub struct WsReader {
    pending: Vec<u8>,
}

impl View for WsReader {
    type V = Seq<u8>;

    closed spec fn view(&self) -> Seq<u8> {
        self.pending@
    }
}

fn take_front(v: &Vec<u8>, n: usize) -> (r: (Vec<u8>, Vec<u8>))
    requires
        n <= v.len(),
    ensures
        r.0@ == v@.take(n as int),
        r.1@ == v@.skip(n as int),
{
    let mut front: Vec<u8> = Vec::new();
    let mut back: Vec<u8> = Vec::new();
    let mut i: usize = 0;
    while i < v.len()
        invariant
            i <= v.len(),
            n <= v.len(),
            front@ == v@.take(if i < n { i as int } else { n as int }),
            back@ == (if i <= n { Seq::<u8>::empty() } else { v@.subrange(n as int, i as int) }),
        decreases v.len() - i,
    {
        if i < n {
            front.push(v[i]);
            assert(front@ =~= v@.take(i + 1));
        } else {
            back.push(v[i]);
            assert(back@ =~= v@.subrange(n as int, i + 1));
        }
        i = i + 1;
    }
    assert(back@ =~= v@.skip(n as int));
    (front, back)
}

impl WsReader {
    /// A reader with nothing received yet.
    pub fn new() -> (r: Self)
        ensures
            r@ == Seq::<u8>::empty(),
    {
        WsReader { pending: Vec::new() }
    }

    /// The next step of a read that wants up to `want` bytes: what is
    /// pending first (as much of it as fits), else the next message.
    pub fn read_step(&mut self, want: usize) -> (r: WsReadStep)
        ensures
            old(self)@.len() == 0 ==> r == WsReadStep::NeedMessage && final(self)@ == old(self)@,
            old(self)@.len() > 0 ==> ({
                let n = if want < old(self)@.len() {
                    want as int
                } else {
                    old(self)@.len() as int
                };
                r matches WsReadStep::Deliver(bytes) && bytes@ == old(self)@.take(n)
                    && final(self)@ == old(self)@.skip(n)
            }),
    {
        if self.pending.len() == 0 {
            return WsReadStep::NeedMessage;
        }
        let n = if want < self.pending.len() {
            want
        } else {
            self.pending.len()
        };
        let (front, back) = take_front(&self.pending, n);
        self.pending = back;
        WsReadStep::Deliver(front)
    }

    /// Takes in a message read off the socket: a binary payload joins the
    /// stream (an empty one changes nothing); a ping is to be answered; a
    /// close ends the stream; anything else is passed over.
    pub fn on_event(&mut self, event: WsEvent) -> (r: Option<WsReadStep>)
        ensures
            match event {
                WsEvent::Binary(bytes) => r is None && final(self)@ == old(self)@ + bytes@,
                WsEvent::Ping(bytes) => (r matches Some(WsReadStep::Pong(p)) && p@ == bytes@)
                    && final(self)@ == old(self)@,
                WsEvent::Close => r == Some(WsReadStep::End) && final(self)@ == old(self)@,
                WsEvent::Ignored => r is None && final(self)@ == old(self)@,
            },
    {
        match event {
            WsEvent::Binary(mut bytes) => {
                let ghost b = bytes@;
                self.pending.append(&mut bytes);
                None
            },
            WsEvent::Ping(bytes) => Some(WsReadStep::Pong(bytes)),
            WsEvent::Close => Some(WsReadStep::End),
            WsEvent::Ignored => None,
        }
    }
}

} // verus!
