//! Decision logic of the transport pump.
//!
//! The pump owns the socket for its lifetime and bridges it to the two
//! in-process queues: frames read from the socket go to the inbound
//! queue, frames pulled from the outbound queue go to the socket. The
//! pump here is the pure decision core: the embedding drives it with one
//! input at a time — a frame read, a queue item, a closure signal — and
//! performs the action it returns. The run-level law at the bottom of
//! this module states the ordering guarantee: outbound items are written
//! to the wire exactly in the order they were accepted.

use vstd::prelude::*;

verus! {

/// One frame as the transport presents it.
#[derive(Debug, PartialEq, Eq)]
pub enum Frame {
    /// A text frame: one wire message.
    Text(String),
    /// A binary frame: a protocol violation for this client.
    Binary(Vec<u8>),
    /// A keepalive ping with its payload.
    Ping(Vec<u8>),
    /// A keepalive pong with its payload.
    Pong(Vec<u8>),
    /// The peer's close notification.
    Close,
}

/// A failure that is fatal to the pump.
#[derive(Debug, PartialEq, Eq, Structural, Clone, Copy)]
pub enum TransportError {
    /// The peer sent a frame class this client does not support.
    UnsupportedFrame,
    /// The socket failed while reading or writing.
    Io,
}

/// What the pump is doing.
#[derive(Debug, PartialEq, Eq, Structural, Clone, Copy)]
pub enum PumpStatus {
    /// Still bridging the socket and the queues.
    Running,
    /// Finished cleanly: the outbound producers are gone and the
    /// connection was closed in an orderly way.
    Done,
    /// Stopped by a fatal error.
    Failed(TransportError),
}

/// One input the embedding hands the pump.
#[derive(Debug, PartialEq, Eq)]
pub enum PumpInput {
    /// A frame arrived from the socket.
    FrameRead(Frame),
    /// The socket's read side ended.
    ReadEnded,
    /// The inbound queue's consumer is gone.
    InboundGone,
    /// The outbound queue yielded a frame and the socket can accept a
    /// write.
    OutboundItem(String),
    /// All outbound producers are gone.
    OutboundClosed,
    /// The socket failed.
    IoFailed,
}

/// What the embedding must do after a step.
#[derive(Debug, PartialEq, Eq)]
pub enum PumpAction {
    /// Hand the text frame to the inbound queue.
    Surface(String),
    /// Answer a ping with a pong carrying the same payload.
    AnswerPong(Vec<u8>),
    /// Write the frame to the socket.
    Write(String),
    /// Flush buffered output, then close the connection.
    FlushAndClose,
    /// Close the inbound queue so the dispatch loop winds down.
    CloseInbound,
    /// Nothing to do for this input.
    Ignore,
}

/// Spec model of the pump's control state.
#[verifier::ext_equal]
pub struct SPump {
    /// Still running, finished, or failed.
    pub status: PumpStatus,
    /// Whether frames read from the socket are still surfaced.
    pub reading: bool,
}

/// The transport pump's control state.
#[derive(Debug, PartialEq, Eq)]
pub struct Pump {
    status: PumpStatus,
    reading: bool,
}

impl View for Pump {
    type V = SPump;

    closed spec fn view(&self) -> SPump {
        SPump { status: self.status, reading: self.reading }
    }
}

/// Next control state after one input. The status only ever moves from
/// running to done or failed, and the read side only ever closes.
pub open spec fn pump_next(s: SPump, input: PumpInput) -> SPump {
    if s.status != PumpStatus::Running {
        s
    } else {
        match input {
            PumpInput::FrameRead(Frame::Binary(b)) => SPump {
                status: PumpStatus::Failed(TransportError::UnsupportedFrame),
                reading: s.reading,
            },
            PumpInput::FrameRead(Frame::Close) => SPump { status: s.status, reading: false },
            PumpInput::ReadEnded => SPump { status: s.status, reading: false },
            PumpInput::InboundGone => SPump { status: s.status, reading: false },
            PumpInput::OutboundClosed => SPump { status: PumpStatus::Done, reading: s.reading },
            PumpInput::IoFailed => SPump {
                status: PumpStatus::Failed(TransportError::Io),
                reading: s.reading,
            },
            _ => s,
        }
    }
}

/// The text the pump writes to the wire for one input: the outbound
/// item itself while the pump is running, and nothing otherwise.
pub open spec fn pump_writes(s: SPump, input: PumpInput) -> Seq<Seq<char>> {
    if s.status == PumpStatus::Running {
        match input {
            PumpInput::OutboundItem(t) => seq![t@],
            _ => Seq::<Seq<char>>::empty(),
        }
    } else {
        Seq::<Seq<char>>::empty()
    }
}

/// The outbound items the pump accepts for one input: exactly those
/// offered while it is running.
pub open spec fn pump_accepts(s: SPump, input: PumpInput) -> Seq<Seq<char>> {
    if s.status == PumpStatus::Running {
        match input {
            PumpInput::OutboundItem(t) => seq![t@],
            _ => Seq::<Seq<char>>::empty(),
        }
    } else {
        Seq::<Seq<char>>::empty()
    }
}

/// Control states over a run, folded from the left.
pub open spec fn pump_run(s: SPump, inputs: Seq<PumpInput>) -> SPump
    decreases inputs.len(),
{
    if inputs.len() == 0 {
        s
    } else {
        pump_run(pump_next(s, inputs[0]), inputs.drop_first())
    }
}

/// All texts written over a run, in order.
pub open spec fn pump_run_writes(s: SPump, inputs: Seq<PumpInput>) -> Seq<Seq<char>>
    decreases inputs.len(),
{
    if inputs.len() == 0 {
        Seq::<Seq<char>>::empty()
    } else {
        pump_writes(s, inputs[0]) + pump_run_writes(pump_next(s, inputs[0]), inputs.drop_first())
    }
}

/// All outbound items accepted over a run, in order.
pub open spec fn pump_run_accepts(s: SPump, inputs: Seq<PumpInput>) -> Seq<Seq<char>>
    decreases inputs.len(),
{
    if inputs.len() == 0 {
        Seq::<Seq<char>>::empty()
    } else {
        pump_accepts(s, inputs[0]) + pump_run_accepts(
            pump_next(s, inputs[0]),
            inputs.drop_first(),
        )
    }
}

impl Pump {
    /// A pump for a freshly established connection.
    pub fn new() -> (r: Pump)
        ensures
            r@ == (SPump { status: PumpStatus::Running, reading: true }),
    {
        Pump { status: PumpStatus::Running, reading: true }
    }

    /// The pump's status.
    pub fn status(&self) -> (r: PumpStatus)
        ensures
            r == self@.status,
    {
        self.status
    }

    /// Advances the pump by one input and returns the action the
    /// embedding must perform. While the pump runs: a text frame is
    /// surfaced to the inbound queue while its consumer lives; a ping
    /// is answered with a pong carrying the same payload; a binary
    /// frame is a fatal protocol error; a clean close or the end of the
    /// read side stops reading without error; an outbound item is
    /// written to the wire at once, in acceptance order; the close of
    /// the outbound queue flushes and closes the connection; an I/O
    /// failure is fatal. Every failure closes the inbound queue, which
    /// is the shutdown signal for the dispatch loop downstream.
    pub fn step(&mut self, input: PumpInput) -> (act: PumpAction)
        ensures
            final(self)@ == pump_next(old(self)@, input),
            old(self)@.status == PumpStatus::Running ==> match input {
                PumpInput::FrameRead(Frame::Text(t)) => if old(self)@.reading {
                    act matches PumpAction::Surface(s) && s@ == t@
                } else {
                    act == PumpAction::Ignore
                },
                PumpInput::FrameRead(Frame::Binary(b)) => act == PumpAction::CloseInbound
                    && final(self)@.status == PumpStatus::Failed(
                    TransportError::UnsupportedFrame,
                ),
                PumpInput::FrameRead(Frame::Ping(p)) => act matches PumpAction::AnswerPong(q)
                    && q@ == p@,
                PumpInput::FrameRead(Frame::Pong(p)) => act == PumpAction::Ignore,
                PumpInput::FrameRead(Frame::Close) => act == PumpAction::CloseInbound
                    && !final(self)@.reading,
                PumpInput::ReadEnded => act == PumpAction::CloseInbound && !final(self)@.reading,
                PumpInput::InboundGone => act == PumpAction::Ignore && !final(self)@.reading,
                PumpInput::OutboundItem(t) => act matches PumpAction::Write(s) && s@ == t@,
                PumpInput::OutboundClosed => act == PumpAction::FlushAndClose
                    && final(self)@.status == PumpStatus::Done,
                PumpInput::IoFailed => act == PumpAction::CloseInbound && final(self)@.status
                    == PumpStatus::Failed(TransportError::Io),
            },
            old(self)@.status != PumpStatus::Running ==> act == PumpAction::Ignore && final(self)@
                == old(self)@,
    {
        if !matches!(self.status, PumpStatus::Running) {
            return PumpAction::Ignore;
        }
        match input {
            PumpInput::FrameRead(frame) => match frame {
                Frame::Text(t) => {
                    if self.reading {
                        PumpAction::Surface(t)
                    } else {
                        PumpAction::Ignore
                    }
                },
                Frame::Binary(_) => {
                    self.status = PumpStatus::Failed(TransportError::UnsupportedFrame);
                    PumpAction::CloseInbound
                },
                Frame::Ping(p) => PumpAction::AnswerPong(p),
                Frame::Pong(_) => PumpAction::Ignore,
                Frame::Close => {
                    self.reading = false;
                    PumpAction::CloseInbound
                },
            },
            PumpInput::ReadEnded => {
                self.reading = false;
                PumpAction::CloseInbound
            },
            PumpInput::InboundGone => {
                self.reading = false;
                PumpAction::Ignore
            },
            PumpInput::OutboundItem(t) => PumpAction::Write(t),
            PumpInput::OutboundClosed => {
                self.status = PumpStatus::Done;
                PumpAction::FlushAndClose
            },
            PumpInput::IoFailed => {
                self.status = PumpStatus::Failed(TransportError::Io);
                PumpAction::CloseInbound
            },
        }
    }
}

/// Send ordering: over any run of the pump, the frames written to the
/// wire are exactly the outbound items the pump accepted, in the exact
/// order they were accepted. The outbound queue presents the items of
/// all session handle clones in submission order, so frames appear on
/// the wire in the order the send calls enqueued them.
pub proof fn lemma_pump_write_order(s: SPump, inputs: Seq<PumpInput>)
    ensures
        pump_run_writes(s, inputs) == pump_run_accepts(s, inputs),
    decreases inputs.len(),
{
    if inputs.len() > 0 {
        lemma_pump_write_order(pump_next(s, inputs[0]), inputs.drop_first());
        assert(pump_run_writes(s, inputs) =~= pump_run_accepts(s, inputs));
    }
}

/// Once the pump has left its running state it stays stopped: no later
/// input restarts it, and no frame is written or accepted after that.
pub proof fn lemma_pump_stops(s: SPump, inputs: Seq<PumpInput>)
    requires
        s.status != PumpStatus::Running,
    ensures
        pump_run(s, inputs) == s,
        pump_run_writes(s, inputs) == Seq::<Seq<char>>::empty(),
    decreases inputs.len(),
{
    if inputs.len() > 0 {
        assert(pump_next(s, inputs[0]) == s);
        lemma_pump_stops(s, inputs.drop_first());
        assert(pump_run_writes(s, inputs) =~= Seq::<Seq<char>>::empty());
    }
}

} // verus!
