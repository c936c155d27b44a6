//! Deciding when a printer's reply has ended.
//!
//! The printer's protocol carries no length and no terminator. A reply is
//! judged complete when it holds two or more double quotes and no newline or
//! tab, or when the line has been idle for the configured time, or when the
//! printer closes the connection.

use vstd::prelude::*;
use vstd::utf8::{decode_utf8, valid_utf8};

verus! {

pub const QUOTE: u8 = 34;

pub const NEWLINE: u8 = 10;

pub const TAB: u8 = 9;

/// Number of double quotes in `b`.
pub open spec fn quote_count(b: Seq<u8>) -> nat
    decreases b.len(),
{
    if b.len() == 0 {
        0
    } else {
        quote_count(b.drop_last()) + if b.last() == QUOTE { 1nat } else { 0nat }
    }
}

/// Number of newlines and tabs in `b`.
pub open spec fn ws_count(b: Seq<u8>) -> nat
    decreases b.len(),
{
    if b.len() == 0 {
        0
    } else {
        ws_count(b.drop_last()) + if b.last() == NEWLINE || b.last() == TAB {
            1nat
        } else {
            0nat
        }
    }
}

/// The early-exit rule: a reply with two or more quotes and no newline or
/// tab is taken to be a single complete value.
pub open spec fn looks_complete(b: Seq<u8>) -> bool {
    quote_count(b) >= 2 && ws_count(b) == 0
}

/// Whether the bytes received so far look like a complete reply.
pub fn return_early(payload: &[u8]) -> (r: bool)
    ensures
        r == looks_complete(payload@),
{
    let mut quotes: usize = 0;
    let mut ws: usize = 0;
    let mut i: usize = 0;
    while i < payload.len()
        invariant
            i <= payload@.len(),
            quotes == quote_count(payload@.take(i as int)),
            ws == ws_count(payload@.take(i as int)),
            quotes <= i,
            ws <= i,
        decreases payload.len() - i,
    {
        let b = payload[i];
        proof {
            assert(payload@.take(i + 1).drop_last() =~= payload@.take(i as int));
        }
        if b == QUOTE {
            quotes += 1;
        }
        if b == NEWLINE || b == TAB {
            ws += 1;
        }
        i += 1;
    }
    proof {
        assert(payload@.take(i as int) =~= payload@);
    }
    quotes >= 2 && ws == 0
}

/// What a command's reply is read for.
#[derive(PartialEq, Eq, Debug, Clone, Copy, Structural)]
pub enum Mode {
    /// A set/get/do command: the reply is kept, shown as it arrives, and may
    /// end early.
    SGD,
    /// A print job: the reply is drained and ignored until the line is idle.
    Print,
}

/// One thing observed on the connection by a single read.
#[derive(Debug)]
pub enum Event {
    /// One chunk of bytes, as the stream delivered it.
    Data(Vec<u8>),
    /// No byte arrived within the idle time.
    TimedOut,
    /// The printer closed the connection.
    Closed,
    /// The read failed for another reason.
    ReadFailed,
}

/// Where a framer stands after an event.
#[derive(PartialEq, Eq, Debug, Clone, Copy, Structural)]
pub enum Frame {
    /// The reply may go on: read again.
    Pending,
    /// The reply is complete.
    Done,
    /// The read failed before the reply looked complete.
    Failed,
}

/// The state of reading one reply: the bytes received so far, and whether
/// the reply has ended.
pub struct Framer {
    mode: Mode,
    buffer: Vec<u8>,
    status: Frame,
}

/// The bytes kept after `ev`, given the bytes kept before it.
pub open spec fn buffer_after(mode: Mode, buffer: Seq<u8>, ev: Event) -> Seq<u8> {
    match ev {
        Event::Data(chunk) => if mode == Mode::SGD {
            buffer + chunk@
        } else {
            buffer
        },
        _ => buffer,
    }
}

/// Where the reply stands after `ev`, given the bytes kept before it.
pub open spec fn frame_after(mode: Mode, buffer: Seq<u8>, ev: Event) -> Frame {
    match ev {
        Event::Data(chunk) => if mode == Mode::SGD && looks_complete(buffer + chunk@) {
            Frame::Done
        } else {
            Frame::Pending
        },
        Event::TimedOut => Frame::Done,
        Event::Closed => Frame::Done,
        Event::ReadFailed => if quote_count(buffer) >= 2 {
            Frame::Done
        } else {
            Frame::Failed
        },
    }
}

impl Framer {
    pub closed spec fn mode(&self) -> Mode {
        self.mode
    }

    /// The bytes of the reply kept so far.
    pub closed spec fn buffer(&self) -> Seq<u8> {
        self.buffer@
    }

    pub closed spec fn status(&self) -> Frame {
        self.status
    }

    /// A framer that has received nothing yet.
    pub fn new(mode: Mode) -> (r: Framer)
        ensures
            r.mode() == mode,
            r.buffer() == Seq::<u8>::empty(),
            r.status() == Frame::Pending,
    {
        Framer { mode, buffer: Vec::new(), status: Frame::Pending }
    }

    pub fn get_mode(&self) -> (r: Mode)
        ensures
            r == self.mode(),
    {
        self.mode
    }

    pub fn get_status(&self) -> (r: Frame)
        ensures
            r == self.status(),
    {
        self.status
    }

    /// Take one event into account and say whether the reply has ended.
    pub fn feed(&mut self, ev: Event) -> (r: Frame)
        requires
            old(self).status() == Frame::Pending,
        ensures
            r == frame_after(old(self).mode(), old(self).buffer(), ev),
            final(self).buffer() == buffer_after(old(self).mode(), old(self).buffer(), ev),
            final(self).mode() == old(self).mode(),
            final(self).status() == r,
    {
        let r = match ev {
            Event::Data(chunk) => {
                if self.mode == Mode::SGD {
                    let mut chunk = chunk;
                    self.buffer.append(&mut chunk);
                    if return_early(self.buffer.as_slice()) {
                        Frame::Done
                    } else {
                        Frame::Pending
                    }
                } else {
                    Frame::Pending
                }
            },
            Event::TimedOut => Frame::Done,
            Event::Closed => Frame::Done,
            Event::ReadFailed => {
                if quote_count_of(self.buffer.as_slice()) >= 2 {
                    Frame::Done
                } else {
                    Frame::Failed
                }
            },
        };
        self.status = r;
        r
    }

    /// The reply as text, or `None` where its bytes are not valid UTF-8.
    pub fn text(&self) -> (r: Option<String>)
        ensures
            r is Some <==> valid_utf8(self.buffer()),
            r is Some ==> r->Some_0@ == decode_utf8(self.buffer()),
    {
        string_from_utf8(copy_bytes(&self.buffer))
    }
}

/// Number of double quotes in `payload`.
pub fn quote_count_of(payload: &[u8]) -> (r: usize)
    ensures
        r == quote_count(payload@),
{
    let mut quotes: usize = 0;
    let mut i: usize = 0;
    while i < payload.len()
        invariant
            i <= payload@.len(),
            quotes == quote_count(payload@.take(i as int)),
            quotes <= i,
        decreases payload.len() - i,
    {
        proof {
            assert(payload@.take(i + 1).drop_last() =~= payload@.take(i as int));
        }
        if payload[i] == QUOTE {
            quotes += 1;
        }
        i += 1;
    }
    proof {
        assert(payload@.take(i as int) =~= payload@);
    }
    quotes
}

/// A copy of `b`.
pub fn copy_bytes(b: &Vec<u8>) -> (r: Vec<u8>)
    ensures
        r@ == b@,
{
    let mut out: Vec<u8> = Vec::new();
    let mut i: usize = 0;
    while i < b.len()
        invariant
            i <= b@.len(),
            out@ == b@.take(i as int),
        decreases b.len() - i,
    {
        out.push(b[i]);
        proof {
            assert(b@.take(i + 1) =~= b@.take(i as int).push(b@[i as int]));
        }
        i += 1;
    }
    proof {
        assert(b@.take(i as int) =~= b@);
    }
    out
}

/// Relies on `String::from_utf8`: it returns the string whose bytes these
/// are, and an error exactly when the bytes are not valid UTF-8.
#[verifier::external_body]
fn string_from_utf8(bytes: Vec<u8>) -> (r: Option<String>)
    ensures
        r is Some <==> valid_utf8(bytes@),
        r is Some ==> r->Some_0@ == decode_utf8(bytes@),
{
    String::from_utf8(bytes).ok()
}

/// Counting newlines and tabs distributes over concatenation.
proof fn lemma_ws_count_concat(a: Seq<u8>, b: Seq<u8>)
    ensures
        ws_count(a + b) == ws_count(a) + ws_count(b),
    decreases b.len(),
{
    if b.len() > 0 {
        assert((a + b).drop_last() =~= a + b.drop_last());
        lemma_ws_count_concat(a, b.drop_last());
    } else {
        assert(a + b =~= a);
    }
}

/// Once a newline or tab is among the bytes of a reply, no chunk of data
/// ends it early: only an idle time-out, a close or a failed read can.
pub proof fn lemma_whitespace_blocks_early_exit(mode: Mode, buffer: Seq<u8>, ev: Event)
    requires
        ev is Data,
        ws_count(buffer) + ws_count(ev->Data_0@) > 0,
    ensures
        frame_after(mode, buffer, ev) == Frame::Pending,
        mode == Mode::SGD ==> !looks_complete(buffer_after(mode, buffer, ev)),
{
    lemma_ws_count_concat(buffer, ev->Data_0@);
}

/// A close ends the reply whatever has been received, and keeps the bytes
/// received as they are; when nothing was received, the reply is the empty
/// text, not an error.
pub proof fn lemma_close_ends_reply(mode: Mode, buffer: Seq<u8>)
    ensures
        frame_after(mode, buffer, Event::Closed) == Frame::Done,
        buffer_after(mode, buffer, Event::Closed) == buffer,
        buffer.len() == 0 ==> valid_utf8(buffer) && decode_utf8(buffer) == Seq::<char>::empty(),
{
}

} // verus!
