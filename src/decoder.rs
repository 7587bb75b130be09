//! The receive side of a connection: frames assembled from reads of any size,
//! down to one byte at a time.

use vstd::prelude::*;
use crate::buffer::{append, bytes_mut_view, new_buffer};
use crate::frame::{
    decode_stream, header_code, header_len, partial_frame, FrameModel, RawPacket,
    HEADER_LEN, MAX_PAYLOAD,
};

verus! {

/// How many more bytes the incomplete frame `p` needs before the receiver has
/// something to act on: the rest of the header, or the rest of the payload.
pub open spec fn bytes_wanted(p: Seq<u8>) -> nat {
    if p.len() < HEADER_LEN {
        (HEADER_LEN - p.len()) as nat
    } else {
        (HEADER_LEN + header_len(p) - p.len()) as nat
    }
}

/// What the frames of one step of decoding are, as a sequence.
pub open spec fn step_frames(r: DecodeStep) -> Seq<FrameModel> {
    match r {
        DecodeStep::Frame(f) => seq![f@],
        _ => Seq::empty(),
    }
}

/// Where the receiver stands inside the current frame.
enum RxState {
    /// Some of the header's bytes have come.
    ReceivingHeader { header: Vec<u8> },
    /// The header has come; the payload is being filled.
    ReceivingPayload { header: Vec<u8>, code: u16, declared: u16, payload: bytes::BytesMut, filled: usize },
}

/// The outcome of handing the receiver some bytes.
pub enum DecodeStep {
    /// The frame is not complete yet.
    Pending,
    /// A frame is complete.
    Frame(RawPacket),
    /// The header declared this payload length, which exceeds `MAX_PAYLOAD`.
    Oversized(u16),
}

/// Assembles inbound frames.
pub struct FrameDecoder {
    state: RxState,
}

impl FrameDecoder {
    /// The bytes of the incomplete frame held so far.
    pub closed spec fn pending(&self) -> Seq<u8> {
        match &self.state {
            RxState::ReceivingHeader { header } => header@,
            RxState::ReceivingPayload { header, payload, .. } => header@ + bytes_mut_view(*payload),
        }
    }

    pub closed spec fn wf(&self) -> bool {
        match &self.state {
            RxState::ReceivingHeader { header } => header@.len() < HEADER_LEN,
            RxState::ReceivingPayload { header, code, declared, payload, filled } => {
                &&& header@.len() == HEADER_LEN
                &&& *code == header_code(header@)
                &&& *declared as nat == header_len(header@)
                &&& *declared <= MAX_PAYLOAD
                &&& *filled == bytes_mut_view(*payload).len()
                &&& *filled < *declared
            },
        }
    }

    /// A well-formed receiver holds an incomplete frame that the stream
    /// decoder would leave over as it is.
    pub proof fn lemma_pending_is_partial(&self)
        requires
            self.wf(),
        ensures
            partial_frame(self.pending()),
            decode_stream(self.pending()) == Some((Seq::<FrameModel>::empty(), self.pending())),
    {
        let p = self.pending();
        match &self.state {
            RxState::ReceivingHeader { header } => {},
            RxState::ReceivingPayload { header, .. } => {
                assert(p[0] == header@[0] && p[1] == header@[1]);
                assert(p[2] == header@[2] && p[3] == header@[3]);
            },
        }
    }

    /// A receiver that waits for the first header.
    pub fn new() -> (r: Self)
        ensures
            r.wf(),
            r.pending() == Seq::<u8>::empty(),
    {
        FrameDecoder { state: RxState::ReceivingHeader { header: Vec::new() } }
    }

    /// How many bytes the next read may bring: never more than completes
    /// the header or the payload in progress, so one read holds at most the
    /// end of one frame.
    pub fn wanted(&self) -> (r: usize)
        requires
            self.wf(),
        ensures
            r == bytes_wanted(self.pending()),
            r > 0,
    {
        proof { self.lemma_pending_is_partial(); }
        match &self.state {
            RxState::ReceivingHeader { header } => HEADER_LEN - header.len(),
            RxState::ReceivingPayload { header, declared, filled, .. } => {
                proof {
                    let p = self.pending();
                    assert(p[2] == header@[2] && p[3] == header@[3]);
                }
                *declared as usize - *filled
            },
        }
    }

    /// Takes the next bytes of the stream, no more than `wanted()`.
    pub fn push(&mut self, data: &[u8]) -> (r: DecodeStep)
        requires
            old(self).wf(),
            0 < data@.len() <= bytes_wanted(old(self).pending()),
        ensures
            (r is Oversized) <==> decode_stream(old(self).pending() + data@) is None,
            r is Oversized ==> r->Oversized_0 as nat == header_len(old(self).pending() + data@),
            !(r is Oversized) ==> {
                &&& final(self).wf()
                &&& decode_stream(old(self).pending() + data@) == Some((step_frames(r), final(self).pending()))
            },
    {
        proof { self.lemma_pending_is_partial(); }
        let ghost q = self.pending() + data@;
        let mut state = RxState::ReceivingHeader { header: Vec::new() };
        std::mem::swap(&mut state, &mut self.state);
        match state {
            RxState::ReceivingHeader { mut header } => {
                let ghost h0 = header@;
                let mut i: usize = 0;
                while i < data.len()
                    invariant
                        0 <= i <= data@.len(),
                        h0.len() + data@.len() <= HEADER_LEN,
                        header@ == h0 + data@.subrange(0, i as int),
                    decreases data@.len() - i,
                {
                    header.push(data[i]);
                    i = i + 1;
                    assert(header@ =~= h0 + data@.subrange(0, i as int));
                }
                assert(header@ =~= q);
                if header.len() < HEADER_LEN {
                    self.state = RxState::ReceivingHeader { header };
                    return DecodeStep::Pending;
                }
                let code = ((header[0] as u16) << 8u16) | (header[1] as u16);
                let declared = ((header[2] as u16) << 8u16) | (header[3] as u16);
                assert(code == header_code(q) && declared as nat == header_len(q));
                if declared as usize > MAX_PAYLOAD {
                    self.state = RxState::ReceivingHeader { header: Vec::new() };
                    return DecodeStep::Oversized(declared);
                }
                if declared == 0 {
                    proof {
                        let rest = q.subrange(HEADER_LEN as int, q.len() as int);
                        assert(rest =~= Seq::<u8>::empty());
                        assert(decode_stream(rest) == Some((Seq::<FrameModel>::empty(), Seq::<u8>::empty())));
                    }
                    let payload = new_buffer(0);
                    let frame = RawPacket::from_buffer(code, payload);
                    self.state = RxState::ReceivingHeader { header: Vec::new() };
                    proof {
                        assert(q.subrange(HEADER_LEN as int, HEADER_LEN as int) =~= Seq::<u8>::empty());
                        assert(seq![(code, Seq::<u8>::empty())] + Seq::<FrameModel>::empty() =~= seq![(code, Seq::<u8>::empty())]);
                    }
                    return DecodeStep::Frame(frame);
                }
                let payload = new_buffer(declared as usize);
                self.state = RxState::ReceivingPayload { header, code, declared, payload, filled: 0 };
                assert(self.pending() =~= q);
                DecodeStep::Pending
            },
            RxState::ReceivingPayload { header, code, declared, mut payload, filled } => {
                let ghost b0 = bytes_mut_view(payload);
                append(&mut payload, data);
                let filled = filled + data.len();
                assert(header@ + bytes_mut_view(payload) =~= q);
                assert(q[0] == header@[0] && q[1] == header@[1] && q[2] == header@[2] && q[3] == header@[3]);
                if filled < declared as usize {
                    self.state = RxState::ReceivingPayload { header, code, declared, payload, filled };
                    return DecodeStep::Pending;
                }
                let frame = RawPacket::from_buffer(code, payload);
                self.state = RxState::ReceivingHeader { header: Vec::new() };
                proof {
                    let end = q.len() as int;
                    assert(q.subrange(HEADER_LEN as int, end) =~= bytes_mut_view(payload));
                    let rest = q.subrange(end, end);
                    assert(rest =~= Seq::<u8>::empty());
                    assert(decode_stream(rest) == Some((Seq::<FrameModel>::empty(), Seq::<u8>::empty())));
                    assert(seq![frame@] + Seq::<FrameModel>::empty() =~= seq![frame@]);
                }
                DecodeStep::Frame(frame)
            },
        }
    }
}

} // verus!
