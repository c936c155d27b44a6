//! Sending commands and print data to a printer's raw command port.
//!
//! Each send opens one connection, writes the payload, reads the reply until
//! the framer says it has ended, and closes the connection. The decisions are
//! made by a [`Session`]; the caller performs each [`Action`] it asks for and
//! hands back what came of it as an [`Input`].

use crate::framer::{buffer_after, copy_bytes, frame_after, Event, Frame, Framer};
pub use crate::framer::Mode;
use crate::sgd::SGDCommands;
use vstd::prelude::*;
use vstd::utf8::{decode_utf8, encode_utf8, valid_utf8};

verus! {

/// Idle time, in nanoseconds, after which a get or do reply is taken as
/// complete.
pub const QUERY_TIMEOUT_NANOS: u64 = 2_000_000_000;

/// Idle time, in nanoseconds, for a set command, which expects no reply.
pub const SET_TIMEOUT_NANOS: u64 = 100;

/// Idle time, in nanoseconds, for print data and files.
pub const PRINT_TIMEOUT_NANOS: u64 = 2_000_000_000;

/// The idle time that ends the reply to `cmd`: a set command expects no
/// reply and waits least.
pub open spec fn spec_idle_timeout(cmd: SGDCommands) -> u64 {
    match cmd {
        SGDCommands::Setvar { .. } => SET_TIMEOUT_NANOS,
        _ => QUERY_TIMEOUT_NANOS,
    }
}

/// The idle time that ends the reply to `cmd`.
pub fn idle_timeout(cmd: &SGDCommands) -> (r: u64)
    ensures
        r == spec_idle_timeout(*cmd),
{
    match cmd {
        SGDCommands::Setvar { .. } => SET_TIMEOUT_NANOS,
        _ => QUERY_TIMEOUT_NANOS,
    }
}

/// How the connection to the printer is made.
#[derive(PartialEq, Eq, Debug, Clone, Copy, Structural)]
pub enum Transport {
    /// Through a telnet client.
    Telnet,
    /// Through a plain TCP socket.
    Raw,
}

/// Why a send failed.
#[derive(PartialEq, Eq, Debug, Clone, Copy, Structural)]
pub enum SendError {
    /// The connection could not be made.
    Connection,
    /// The payload could not be written.
    Write,
    /// A read failed before the reply looked complete.
    Read,
    /// The reply is not valid UTF-8.
    Encoding,
}

/// A printer reachable on its raw command port.
pub struct Jetdirect {
    pub addr: String,
    port: u16,
}

impl Jetdirect {
    pub fn new(addr: String, port: u16) -> (r: Jetdirect)
        ensures
            r.address() == addr@,
            r.port() == port,
    {
        Jetdirect { addr, port }
    }

    pub closed spec fn address(&self) -> Seq<char> {
        self.addr@
    }

    pub closed spec fn port(&self) -> u16 {
        self.port
    }

    pub fn get_port(&self) -> (r: u16)
        ensures
            r == self.port(),
    {
        self.port
    }

    /// The session that sends `cmd` over `transport` and reads its reply.
    pub fn sgd_session(&self, cmd: &SGDCommands, transport: Transport) -> (r: Session)
        ensures
            r.wf(),
            r.phase() == Phase::Idle,
            r.addr() == self.address(),
            r.port() == self.port(),
            r.transport() == transport,
            r.payload() == encode_utf8(cmd.payload()),
            r.timeout() == spec_idle_timeout(*cmd),
            r.mode() == Mode::SGD,
            r.reply() == Seq::<u8>::empty(),
    {
        let text = cmd.build_cmd();
        let payload = text.as_str().as_bytes_vec();
        Session::new(self.addr.clone(), self.port, transport, payload, idle_timeout(cmd), Mode::SGD)
    }

    /// The session that sends `data` (print data, or the contents of a
    /// file) over telnet and reads the reply in `mode`.
    pub fn data_session(&self, data: &String, mode: Mode) -> (r: Session)
        ensures
            r.wf(),
            r.phase() == Phase::Idle,
            r.addr() == self.address(),
            r.port() == self.port(),
            r.transport() == Transport::Telnet,
            r.payload() == encode_utf8(data@),
            r.timeout() == PRINT_TIMEOUT_NANOS,
            r.mode() == mode,
            r.reply() == Seq::<u8>::empty(),
    {
        let payload = data.as_str().as_bytes_vec();
        Session::new(self.addr.clone(), self.port, Transport::Telnet, payload, PRINT_TIMEOUT_NANOS, mode)
    }
}

/// Where a session stands.
#[derive(PartialEq, Eq, Debug, Clone, Copy, Structural)]
pub enum Phase {
    /// Nothing done yet.
    Idle,
    /// Waiting for the connection.
    Connecting,
    /// Waiting for the payload to be written.
    Writing,
    /// Waiting for the next read.
    Reading,
    /// Waiting for the connection to be closed.
    Closing,
    /// The send is over.
    Finished,
}

/// What came of the last action.
#[derive(Debug)]
pub enum Input {
    /// Begin the send.
    Start,
    /// The connection was made.
    Connected,
    /// The connection could not be made.
    ConnectFailed,
    /// The payload was written.
    Wrote,
    /// Writing the payload failed.
    WriteFailed,
    /// A read returned this event.
    Received(Event),
    /// The connection was closed.
    Disconnected,
}

/// What the caller is to do next.
#[derive(Debug)]
pub enum Action {
    /// Open a connection to this address and port.
    Connect { addr: String, port: u16, transport: Transport },
    /// Write these bytes on the connection.
    Write(Vec<u8>),
    /// Read once, waiting at most this many nanoseconds.
    Read { timeout_nanos: u64 },
    /// Close the connection.
    Disconnect,
    /// The send is over, with this result.
    Finish(Result<String, SendError>),
}

/// One answer of a session: bytes to show as they arrived (empty when
/// nothing is to be shown), and the next action.
#[derive(Debug)]
pub struct Step {
    pub show: Vec<u8>,
    pub action: Action,
}

/// The state of one send: one connection, one payload, one reply.
pub struct Session {
    addr: String,
    port: u16,
    transport: Transport,
    payload: Vec<u8>,
    timeout_nanos: u64,
    framer: Framer,
    phase: Phase,
    error: Option<SendError>,
    connects: Ghost<nat>,
    disconnects: Ghost<nat>,
    connected: Ghost<bool>,
}

/// Whether `input` answers the action that a session in `phase` asked for.
pub open spec fn spec_accepts(phase: Phase, input: Input) -> bool {
    match phase {
        Phase::Idle => input is Start,
        Phase::Connecting => input is Connected || input is ConnectFailed,
        Phase::Writing => input is Wrote || input is WriteFailed,
        Phase::Reading => input is Received,
        Phase::Closing => input is Disconnected,
        Phase::Finished => false,
    }
}

/// The bytes shown when `ev` is received.
pub open spec fn shown(mode: Mode, ev: Event) -> Seq<u8> {
    match ev {
        Event::Data(chunk) => if mode == Mode::SGD {
            chunk@
        } else {
            Seq::empty()
        },
        _ => Seq::empty(),
    }
}

/// The result that ends a send, given the failure recorded (if any) and the
/// bytes of the reply.
pub open spec fn outcome(r: Result<String, SendError>, error: Option<SendError>, reply: Seq<u8>) -> bool {
    match error {
        Some(e) => r == Err::<String, SendError>(e),
        None => if valid_utf8(reply) {
            r is Ok && r->Ok_0@ == decode_utf8(reply)
        } else {
            r == Err::<String, SendError>(SendError::Encoding)
        },
    }
}

impl Session {
    pub closed spec fn addr(&self) -> Seq<char> {
        self.addr@
    }

    pub closed spec fn port(&self) -> u16 {
        self.port
    }

    pub closed spec fn transport(&self) -> Transport {
        self.transport
    }

    /// The bytes still to be written.
    pub closed spec fn payload(&self) -> Seq<u8> {
        self.payload@
    }

    pub closed spec fn timeout(&self) -> u64 {
        self.timeout_nanos
    }

    pub closed spec fn mode(&self) -> Mode {
        self.framer.mode()
    }

    /// The bytes of the reply kept so far.
    pub closed spec fn reply(&self) -> Seq<u8> {
        self.framer.buffer()
    }

    pub closed spec fn phase(&self) -> Phase {
        self.phase
    }

    /// The failure recorded, if any.
    pub closed spec fn error(&self) -> Option<SendError> {
        self.error
    }

    /// How many `Connect` actions this session has asked for.
    pub closed spec fn connects(&self) -> nat {
        self.connects@
    }

    /// How many `Disconnect` actions this session has asked for.
    pub closed spec fn disconnects(&self) -> nat {
        self.disconnects@
    }

    /// Whether a connection was made.
    pub closed spec fn connected(&self) -> bool {
        self.connected@
    }

    /// The session's invariant: the actions asked for so far match its phase.
    pub closed spec fn wf(&self) -> bool {
        match self.phase {
            Phase::Idle => self.connects@ == 0 && self.disconnects@ == 0 && !self.connected@
                && self.error is None && self.framer.status() == Frame::Pending,
            Phase::Connecting => self.connects@ == 1 && self.disconnects@ == 0 && !self.connected@
                && self.error is None && self.framer.status() == Frame::Pending,
            Phase::Writing => self.connects@ == 1 && self.disconnects@ == 0 && self.connected@
                && self.error is None && self.framer.status() == Frame::Pending,
            Phase::Reading => self.connects@ == 1 && self.disconnects@ == 0 && self.connected@
                && self.error is None && self.framer.status() == Frame::Pending,
            Phase::Closing => self.connects@ == 1 && self.disconnects@ == 1 && self.connected@,
            Phase::Finished => self.connects@ == 1 && self.disconnects@ == (if self.connected@ {
                1nat
            } else {
                0nat
            }),
        }
    }

    /// A session that has done nothing yet.
    pub fn new(addr: String, port: u16, transport: Transport, payload: Vec<u8>, timeout_nanos: u64, mode: Mode) -> (r: Session)
        ensures
            r.wf(),
            r.phase() == Phase::Idle,
            r.addr() == addr@,
            r.port() == port,
            r.transport() == transport,
            r.payload() == payload@,
            r.timeout() == timeout_nanos,
            r.mode() == mode,
            r.reply() == Seq::<u8>::empty(),
            r.connects() == 0,
            r.disconnects() == 0,
            !r.connected(),
    {
        Session {
            addr,
            port,
            transport,
            payload,
            timeout_nanos,
            framer: Framer::new(mode),
            phase: Phase::Idle,
            error: None,
            connects: Ghost(0),
            disconnects: Ghost(0),
            connected: Ghost(false),
        }
    }

    pub fn get_phase(&self) -> (r: Phase)
        ensures
            r == self.phase(),
    {
        self.phase
    }

    pub fn get_mode(&self) -> (r: Mode)
        ensures
            r == self.mode(),
    {
        self.framer.get_mode()
    }

    /// Whether `input` answers the action that this session asked for last.
    pub fn accepts(&self, input: &Input) -> (r: bool)
        ensures
            r == spec_accepts(self.phase(), *input),
    {
        match self.phase {
            Phase::Idle => matches!(input, Input::Start),
            Phase::Connecting => matches!(input, Input::Connected | Input::ConnectFailed),
            Phase::Writing => matches!(input, Input::Wrote | Input::WriteFailed),
            Phase::Reading => matches!(input, Input::Received(_)),
            Phase::Closing => matches!(input, Input::Disconnected),
            Phase::Finished => false,
        }
    }

    /// Take what came of the last action and say what to do next.
    pub fn step(&mut self, input: Input) -> (r: Step)
        requires
            old(self).wf(),
            spec_accepts(old(self).phase(), input),
        ensures
            final(self).wf(),
            final(self).addr() == old(self).addr(),
            final(self).port() == old(self).port(),
            final(self).transport() == old(self).transport(),
            final(self).timeout() == old(self).timeout(),
            final(self).mode() == old(self).mode(),
            !(input is Connected) ==> final(self).payload() == old(self).payload(),
            counted(*old(self), *final(self), r.action),
            final(self).reply() == (if input is Received {
                buffer_after(old(self).mode(), old(self).reply(), input->Received_0)
            } else {
                old(self).reply()
            }),
            r.show@ == (if input is Received {
                shown(old(self).mode(), input->Received_0)
            } else {
                Seq::<u8>::empty()
            }),
            final(self).connected() == (old(self).connected() || input is Connected),
            transition(*old(self), input, *final(self), r.action),
    {
        match input {
            Input::Start => {
                self.phase = Phase::Connecting;
                self.connects = Ghost(1);
                Step {
                    show: Vec::new(),
                    action: Action::Connect {
                        addr: self.addr.clone(),
                        port: self.port,
                        transport: self.transport,
                    },
                }
            },
            Input::Connected => {
                let mut bytes: Vec<u8> = Vec::new();
                core::mem::swap(&mut bytes, &mut self.payload);
                self.phase = Phase::Writing;
                self.connected = Ghost(true);
                Step { show: Vec::new(), action: Action::Write(bytes) }
            },
            Input::ConnectFailed => {
                self.phase = Phase::Finished;
                self.error = Some(SendError::Connection);
                Step { show: Vec::new(), action: Action::Finish(Err(SendError::Connection)) }
            },
            Input::Wrote => {
                self.phase = Phase::Reading;
                Step { show: Vec::new(), action: Action::Read { timeout_nanos: self.timeout_nanos } }
            },
            Input::WriteFailed => {
                self.phase = Phase::Closing;
                self.error = Some(SendError::Write);
                self.disconnects = Ghost(1);
                Step { show: Vec::new(), action: Action::Disconnect }
            },
            Input::Received(ev) => {
                let show = match &ev {
                    Event::Data(chunk) => {
                        if self.framer.get_mode() == Mode::SGD {
                            copy_bytes(chunk)
                        } else {
                            Vec::new()
                        }
                    },
                    _ => Vec::new(),
                };
                let frame = self.framer.feed(ev);
                match frame {
                    Frame::Pending => Step {
                        show,
                        action: Action::Read { timeout_nanos: self.timeout_nanos },
                    },
                    Frame::Done => {
                        self.phase = Phase::Closing;
                        self.disconnects = Ghost(1);
                        Step { show, action: Action::Disconnect }
                    },
                    Frame::Failed => {
                        self.phase = Phase::Closing;
                        self.error = Some(SendError::Read);
                        self.disconnects = Ghost(1);
                        Step { show, action: Action::Disconnect }
                    },
                }
            },
            Input::Disconnected => {
                self.phase = Phase::Finished;
                let result = match self.error {
                    Some(e) => Err(e),
                    None => match self.framer.text() {
                        Some(text) => Ok(text),
                        None => Err(SendError::Encoding),
                    },
                };
                Step { show: Vec::new(), action: Action::Finish(result) }
            },
        }
    }
}

/// How a session moves on `input`: its next phase, the failure it records,
/// and the action it asks for.
pub open spec fn transition(s: Session, input: Input, t: Session, a: Action) -> bool {
    match input {
        Input::Start => t.phase() == Phase::Connecting && t.error() is None && (a matches Action::Connect {
            addr,
            port,
            transport,
        } && addr@ == s.addr() && port == s.port() && transport == s.transport()),
        Input::Connected => t.phase() == Phase::Writing && t.error() is None && (a matches Action::Write(
            bytes,
        ) && bytes@ == s.payload()),
        Input::ConnectFailed => t.phase() == Phase::Finished && t.error() == Some(
            SendError::Connection,
        ) && a == Action::Finish(Err(SendError::Connection)),
        Input::Wrote => t.phase() == Phase::Reading && t.error() is None && a == Action::Read {
            timeout_nanos: s.timeout(),
        },
        Input::WriteFailed => t.phase() == Phase::Closing && t.error() == Some(SendError::Write)
            && a is Disconnect,
        Input::Received(ev) => match frame_after(s.mode(), s.reply(), ev) {
            Frame::Pending => t.phase() == Phase::Reading && t.error() is None && a == Action::Read {
                timeout_nanos: s.timeout(),
            },
            Frame::Done => t.phase() == Phase::Closing && t.error() is None && a is Disconnect,
            Frame::Failed => t.phase() == Phase::Closing && t.error() == Some(SendError::Read)
                && a is Disconnect,
        },
        Input::Disconnected => t.phase() == Phase::Finished && (a matches Action::Finish(res)
            && outcome(res, s.error(), s.reply())),
    }
}

/// One connection per send. A session, in every state it reaches from a new
/// one, has asked for at most one connection and has closed at most the one
/// that was made. Once the send is over it has asked for exactly one
/// connection, and has closed it exactly once if it was made (and never if
/// it could not be made).
pub proof fn lemma_one_connection_per_send(s: Session)
    requires
        s.wf(),
    ensures
        s.connects() <= 1,
        s.disconnects() <= s.connects(),
        s.disconnects() == 1 ==> s.connected(),
        s.phase() == Phase::Finished ==> s.connects() == 1 && s.disconnects() == (if s.connected() {
            1nat
        } else {
            0nat
        }),
{
}

/// How a step moves the counts of connections asked for and closed.
pub open spec fn counted(s: Session, t: Session, a: Action) -> bool {
    &&& t.connects() == s.connects() + (if a is Connect {
        1nat
    } else {
        0nat
    })
    &&& t.disconnects() == s.disconnects() + (if a is Disconnect {
        1nat
    } else {
        0nat
    })
}

/// Number of `Connect` actions in `actions`.
pub open spec fn count_connects(actions: Seq<Action>) -> nat
    decreases actions.len(),
{
    if actions.len() == 0 {
        0
    } else {
        count_connects(actions.drop_last()) + if actions.last() is Connect {
            1nat
        } else {
            0nat
        }
    }
}

/// Number of `Disconnect` actions in `actions`.
pub open spec fn count_disconnects(actions: Seq<Action>) -> nat
    decreases actions.len(),
{
    if actions.len() == 0 {
        0
    } else {
        count_disconnects(actions.drop_last()) + if actions.last() is Disconnect {
            1nat
        } else {
            0nat
        }
    }
}

/// What the counting law needs of a run: `states` starts as a new session
/// (well formed, nothing asked for yet) and each `states[i + 1]` is well
/// formed and counts `actions[i]` on top of `states[i]`. Every run of `step`
/// from a new session has this shape, as `step` ensures both; other parts of
/// its contract (phases, payload, reply) are not checked here.
pub open spec fn is_run(states: Seq<Session>, actions: Seq<Action>) -> bool {
    &&& states.len() == actions.len() + 1
    &&& states[0].wf()
    &&& states[0].connects() == 0
    &&& states[0].disconnects() == 0
    &&& forall|i: int|
        0 <= i < actions.len() ==> #[trigger] states[i + 1].wf() && counted(
            states[i],
            states[i + 1],
            actions[i],
        )
}

/// One connection per send, over a whole run: a session asks for at most
/// one connection and closes at most the one it asked for; once it has
/// finished it has asked for exactly one connection, and has closed it
/// exactly once if it was made (and never if it could not be made).
pub proof fn lemma_run_opens_and_closes_once(states: Seq<Session>, actions: Seq<Action>)
    requires
        is_run(states, actions),
    ensures
        count_connects(actions) <= 1,
        count_disconnects(actions) <= count_connects(actions),
        states.last().phase() == Phase::Finished ==> count_connects(actions) == 1
            && count_disconnects(actions) == (if states.last().connected() {
            1nat
        } else {
            0nat
        }),
{
    let n = actions.len() as int;
    lemma_counts_follow_run(states, actions, n);
    assert(actions.take(n) =~= actions);
    lemma_one_connection_per_send(states.last());
}

/// Along a run, the counts that a session keeps are those of the actions
/// asked for so far.
proof fn lemma_counts_follow_run(states: Seq<Session>, actions: Seq<Action>, k: int)
    requires
        is_run(states, actions),
        0 <= k <= actions.len(),
    ensures
        states[k].wf(),
        states[k].connects() == count_connects(actions.take(k)),
        states[k].disconnects() == count_disconnects(actions.take(k)),
    decreases k,
{
    if k > 0 {
        lemma_counts_follow_run(states, actions, k - 1);
        assert(actions.take(k).drop_last() =~= actions.take(k - 1));
        assert(states[(k - 1) + 1].wf());
    } else {
        assert(actions.take(0) =~= Seq::<Action>::empty());
    }
}

} // verus!
