//! The decisions of one connection's duplex pump. The task that owns the
//! stream waits on cancellation, the outbound queue and the socket at once,
//! hands whatever happened first to `Pump::step`, and does what it returns.

use vstd::prelude::*;
use crate::buffer::{bytes_as_slice, bytes_view};
use crate::decoder::{bytes_wanted, DecodeStep, FrameDecoder};
use crate::frame::{decode_stream, header_len, FrameModel, RawPacket};

verus! {

/// Where the sender stands.
enum TxState {
    /// No frame is being written: the next one may be taken from the queue.
    Idle,
    /// `sent` bytes of `packet` have been written.
    Sending { packet: bytes::Bytes, sent: usize },
    /// Every sender of the outbound queue is gone.
    Dropped,
}

/// What happened, as seen by the task that owns the stream.
pub enum PumpEvent {
    /// The stop signal fired.
    Cancelled,
    /// The outbound queue gave a frame, or `None` once all its senders are gone.
    Outbound(Option<bytes::Bytes>),
    /// The stream took this many bytes of the frame in flight.
    Written(usize),
    /// The stream gave these bytes.
    Read(Vec<u8>),
}

/// Why the pump ended.
#[derive(PartialEq, Eq, Structural, Clone, Copy, Debug)]
pub enum PumpExit {
    /// The stop signal fired.
    Cancelled,
    /// A read or a write moved no bytes: the stream was closed in order.
    Closed,
    /// A header declared a payload of this length, which the protocol refuses.
    Oversized(u16),
}

/// What the task is to do next.
pub enum PumpStep {
    /// Wait for the next event.
    Continue,
    /// Hand this frame to the inbound queue, then wait for the next event.
    Deliver(RawPacket),
    /// Stop.
    Exit(PumpExit),
}

/// The state of one connection's pump: a sender state and a receiver state,
/// with the history of what has passed through each.
pub struct Pump {
    tx: TxState,
    rx: FrameDecoder,
    finished: bool,
    taken: Ghost<Seq<Seq<u8>>>,
    written: Ghost<Seq<u8>>,
    received: Ghost<Seq<u8>>,
    delivered: Ghost<Seq<FrameModel>>,
}

/// The frames that a step hands to the inbound queue.
pub open spec fn delivered_by(r: PumpStep) -> Seq<FrameModel> {
    match r {
        PumpStep::Deliver(f) => seq![f@],
        _ => Seq::empty(),
    }
}

impl Pump {
    /// The frames taken from the outbound queue, in the order taken.
    pub closed spec fn taken(&self) -> Seq<Seq<u8>> {
        self.taken@
    }

    /// The bytes written to the stream, in order.
    pub closed spec fn written(&self) -> Seq<u8> {
        self.written@
    }

    /// The bytes read from the stream, in order.
    pub closed spec fn received(&self) -> Seq<u8> {
        self.received@
    }

    /// The frames handed to the inbound queue, in order.
    pub closed spec fn delivered(&self) -> Seq<FrameModel> {
        self.delivered@
    }

    /// Whether the pump has ended.
    pub closed spec fn finished(&self) -> bool {
        self.finished
    }

    /// Whether the pump may take the next outbound frame.
    pub closed spec fn idle(&self) -> bool {
        self.tx is Idle
    }

    /// Whether a frame is in flight.
    pub closed spec fn sending(&self) -> bool {
        self.tx is Sending
    }

    /// Whether the outbound queue has lost all its senders.
    pub closed spec fn dropped(&self) -> bool {
        self.tx is Dropped
    }

    /// What remains to be written of the frame in flight.
    pub closed spec fn unsent(&self) -> Seq<u8> {
        match &self.tx {
            TxState::Sending { packet, sent } => {
                bytes_view(*packet).subrange(*sent as int, bytes_view(*packet).len() as int)
            },
            _ => Seq::empty(),
        }
    }

    /// The bytes of the incomplete inbound frame.
    pub closed spec fn pending_in(&self) -> Seq<u8> {
        self.rx.pending()
    }

    pub closed spec fn wf(&self) -> bool {
        &&& self.written@ + self.unsent() == self.taken@.flatten()
        &&& (self.tx matches TxState::Sending { packet, sent } ==> sent < bytes_view(packet).len())
        &&& !self.finished ==> {
            &&& self.rx.wf()
            &&& decode_stream(self.received@) == Some((self.delivered@, self.rx.pending()))
        }
    }

    /// A pump for a fresh connection: nothing taken, written, read or handed on.
    pub fn new() -> (r: Self)
        ensures
            r.wf(),
            !r.finished(),
            r.idle(),
            r.taken() == Seq::<Seq<u8>>::empty(),
            r.written() == Seq::<u8>::empty(),
            r.received() == Seq::<u8>::empty(),
            r.delivered() == Seq::<FrameModel>::empty(),
            r.pending_in() == Seq::<u8>::empty(),
    {
        let r = Pump {
            tx: TxState::Idle,
            rx: FrameDecoder::new(),
            finished: false,
            taken: Ghost(Seq::empty()),
            written: Ghost(Seq::empty()),
            received: Ghost(Seq::empty()),
            delivered: Ghost(Seq::empty()),
        };
        assert(r.written@ + r.unsent() =~= Seq::<u8>::empty());
        r
    }

    /// Whether the task should wait on the outbound queue.
    pub fn wants_outbound(&self) -> (r: bool)
        ensures
            r == self.idle(),
    {
        match &self.tx {
            TxState::Idle => true,
            _ => false,
        }
    }

    /// The bytes that the task should try to write, if a frame is in flight.
    pub fn outgoing(&self) -> (r: Option<&[u8]>)
        requires
            self.wf(),
        ensures
            r is Some <==> self.sending(),
            r matches Some(s) ==> s@ == self.unsent() && s@.len() > 0,
    {
        match &self.tx {
            TxState::Sending { packet, sent } => {
                let all = bytes_as_slice(packet);
                Some(vstd::slice::slice_subrange(all, *sent, all.len()))
            },
            _ => None,
        }
    }

    /// The most bytes the next read may bring.
    pub fn read_limit(&self) -> (r: usize)
        requires
            self.wf(),
            !self.finished(),
        ensures
            r == bytes_wanted(self.pending_in()),
            r > 0,
    {
        self.rx.wanted()
    }

    /// Whether `event` can happen in this state: a frame is taken only when
    /// none is in flight, a write moves no more than what is left of the frame
    /// in flight, and a read brings no more than `read_limit()`.
    pub open spec fn allows(&self, event: PumpEvent) -> bool {
        match event {
            PumpEvent::Cancelled => true,
            PumpEvent::Outbound(_) => self.idle(),
            PumpEvent::Written(n) => self.sending() && n <= self.unsent().len(),
            PumpEvent::Read(d) => d@.len() <= bytes_wanted(self.pending_in()),
        }
    }

    /// Decides what follows `event`.
    pub fn step(&mut self, event: PumpEvent) -> (r: PumpStep)
        requires
            old(self).wf(),
            !old(self).finished(),
            old(self).allows(event),
        ensures
            final(self).wf(),
            final(self).finished() <==> r is Exit,
            !(r is Deliver) ==> final(self).delivered() == old(self).delivered(),
            match event {
                PumpEvent::Cancelled => {
                    &&& r == PumpStep::Exit(PumpExit::Cancelled)
                    &&& final(self).taken() == old(self).taken()
                    &&& final(self).written() == old(self).written()
                    &&& final(self).received() == old(self).received()
                },
                PumpEvent::Outbound(None) => {
                    &&& r is Continue
                    &&& final(self).dropped()
                    &&& final(self).taken() == old(self).taken()
                    &&& final(self).written() == old(self).written()
                    &&& final(self).received() == old(self).received()
                    &&& final(self).pending_in() == old(self).pending_in()
                },
                PumpEvent::Outbound(Some(b)) => {
                    &&& r is Continue
                    &&& final(self).taken() == old(self).taken().push(bytes_view(b))
                    &&& final(self).written() == old(self).written()
                    &&& final(self).unsent() == bytes_view(b)
                    &&& (final(self).sending() <==> bytes_view(b).len() > 0)
                    &&& (final(self).idle() <==> bytes_view(b).len() == 0)
                    &&& final(self).received() == old(self).received()
                    &&& final(self).pending_in() == old(self).pending_in()
                },
                PumpEvent::Written(n) => {
                    &&& (n == 0 ==> r == PumpStep::Exit(PumpExit::Closed))
                    &&& (n > 0 ==> {
                        &&& r is Continue
                        &&& final(self).taken() == old(self).taken()
                        &&& final(self).written() == old(self).written() + old(self).unsent().subrange(0, n as int)
                        &&& final(self).unsent() == old(self).unsent().subrange(n as int, old(self).unsent().len() as int)
                        &&& (final(self).idle() <==> n == old(self).unsent().len())
                        &&& final(self).received() == old(self).received()
                        &&& final(self).pending_in() == old(self).pending_in()
                    })
                },
                PumpEvent::Read(d) => {
                    &&& (d@.len() == 0 ==> r == PumpStep::Exit(PumpExit::Closed))
                    &&& (d@.len() > 0 ==> {
                        &&& final(self).taken() == old(self).taken()
                        &&& final(self).written() == old(self).written()
                        &&& final(self).unsent() == old(self).unsent()
                        &&& final(self).received() == old(self).received() + d@
                        &&& (r is Exit <==> decode_stream(old(self).pending_in() + d@) is None)
                        &&& (r matches PumpStep::Exit(e) ==> e == PumpExit::Oversized(header_len(old(self).pending_in() + d@) as u16))
                        &&& (!(r is Exit) ==> {
                            &&& decode_stream(old(self).pending_in() + d@) == Some((delivered_by(r), final(self).pending_in()))
                            &&& final(self).delivered() == old(self).delivered() + delivered_by(r)
                        })
                    })
                },
            },
    {
        match event {
            PumpEvent::Cancelled => {
                self.finished = true;
                PumpStep::Exit(PumpExit::Cancelled)
            },
            PumpEvent::Outbound(None) => {
                self.tx = TxState::Dropped;
                PumpStep::Continue
            },
            PumpEvent::Outbound(Some(packet)) => {
                let ghost old_taken = self.taken@;
                proof {
                    old_taken.lemma_flatten_push(bytes_view(packet));
                    assert(self.unsent() == Seq::<u8>::empty());
                    assert(self.written@ =~= self.written@ + Seq::<u8>::empty());
                }
                self.taken = Ghost(old_taken.push(bytes_view(packet)));
                let len = bytes_as_slice(&packet).len();
                if len == 0 {
                    assert(self.taken@.flatten() =~= self.written@ + Seq::<u8>::empty());
                    self.tx = TxState::Idle;
                } else {
                    self.tx = TxState::Sending { packet, sent: 0 };
                    assert(bytes_view(packet).subrange(0, bytes_view(packet).len() as int) =~= bytes_view(packet));
                }
                PumpStep::Continue
            },
            PumpEvent::Written(n) => {
                if n == 0 {
                    self.finished = true;
                    return PumpStep::Exit(PumpExit::Closed);
                }
                let ghost u = self.unsent();
                let ghost w = self.written@;
                let mut tx = TxState::Idle;
                std::mem::swap(&mut tx, &mut self.tx);
                match tx {
                    TxState::Sending { packet, sent } => {
                        let total = bytes_as_slice(&packet).len();
                        let sent = sent + n;
                        self.written = Ghost(w + u.subrange(0, n as int));
                        if sent == total {
                            assert(u.subrange(0, n as int) =~= u);
                            assert(self.written@ + Seq::<u8>::empty() =~= w + u);
                        } else {
                            self.tx = TxState::Sending { packet, sent };
                            assert(self.unsent() =~= u.subrange(n as int, u.len() as int));
                            assert(self.written@ + self.unsent() =~= w + u);
                        }
                    },
                    _ => {},
                }
                PumpStep::Continue
            },
            PumpEvent::Read(data) => {
                if data.len() == 0 {
                    self.finished = true;
                    return PumpStep::Exit(PumpExit::Closed);
                }
                let ghost before = self.received@;
                proof {
                    crate::frame::lemma_decode_extend(before, data@);
                }
                self.received = Ghost(before + data@);
                match self.rx.push(data.as_slice()) {
                    DecodeStep::Pending => {
                        assert(self.delivered@ + Seq::<FrameModel>::empty() =~= self.delivered@);
                        PumpStep::Continue
                    },
                    DecodeStep::Frame(f) => {
                        self.delivered = Ghost(self.delivered@ + seq![f@]);
                        PumpStep::Deliver(f)
                    },
                    DecodeStep::Oversized(len) => {
                        self.finished = true;
                        PumpStep::Exit(PumpExit::Oversized(len))
                    },
                }
            },
        }
    }
}

/// Bytes reach the peer in the order in which their frames were taken from
/// the outbound queue: what has been written, followed by what is left of the
/// frame in flight, is the taken frames one after another; with no frame in
/// flight, it is exactly what has been written.
pub proof fn lemma_outbound_order(p: &Pump)
    requires
        p.wf(),
    ensures
        p.written() + p.unsent() == p.taken().flatten(),
        !p.sending() ==> p.written() == p.taken().flatten(),
{
    if !p.sending() {
        assert(p.written() + p.unsent() =~= p.written());
    }
}

/// Frames reach the inbound queue in the order in which they came on the
/// wire: until the pump ends, the frames handed on are those that the bytes
/// read so far hold, and the receiver keeps the bytes of the incomplete frame
/// that follows them.
pub proof fn lemma_inbound_order(p: &Pump)
    requires
        p.wf(),
        !p.finished(),
    ensures
        decode_stream(p.received()) == Some((p.delivered(), p.pending_in())),
{
}

} // verus!
