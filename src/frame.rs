//! Wire framing: a 2-byte big-endian code, a 2-byte big-endian payload length,
//! then exactly that many payload bytes.

use vstd::prelude::*;
use crate::buffer::{append, bytes_mut_view, bytes_view, freeze, new_buffer};

verus! {

/// Bytes in a frame header.
pub const HEADER_LEN: usize = 4;

/// The largest payload length that a receiver accepts.
pub const MAX_PAYLOAD: usize = 2048;

/// The largest payload length that a header can declare.
pub const MAX_DECLARABLE: usize = 65535;

/// A frame as the model sees it: its code and its payload.
pub type FrameModel = (u16, Seq<u8>);

/// The two bytes of `v`, most significant first.
pub open spec fn be16(v: u16) -> Seq<u8> {
    seq![(v >> 8u16) as u8, v as u8]
}

/// The value of two bytes, most significant first.
pub open spec fn from_be16(hi: u8, lo: u8) -> u16 {
    ((hi as u16) << 8u16) | (lo as u16)
}

/// The four bytes of `v`, least significant first.
pub open spec fn le_u32(v: u32) -> Seq<u8> {
    seq![v as u8, (v >> 8u32) as u8, (v >> 16u32) as u8, (v >> 24u32) as u8]
}

/// The eight bytes of `v`, least significant first.
pub open spec fn le_u64(v: u64) -> Seq<u8> {
    seq![
        v as u8,
        (v >> 8u64) as u8,
        (v >> 16u64) as u8,
        (v >> 24u64) as u8,
        (v >> 32u64) as u8,
        (v >> 40u64) as u8,
        (v >> 48u64) as u8,
        (v >> 56u64) as u8,
    ]
}

/// The encoding of a frame on the wire.
pub open spec fn frame_bytes(code: u16, payload: Seq<u8>) -> Seq<u8> {
    be16(code) + be16(payload.len() as u16) + payload
}

/// The code that a complete header declares.
pub open spec fn header_code(s: Seq<u8>) -> u16 {
    from_be16(s[0], s[1])
}

/// The payload length that a complete header declares.
pub open spec fn header_len(s: Seq<u8>) -> nat {
    from_be16(s[2], s[3]) as nat
}

/// Splits a byte stream into the frames it holds, in order, and the bytes of
/// the incomplete frame at its end; `None` where a header declares a payload
/// longer than `MAX_PAYLOAD`.
pub open spec fn decode_stream(s: Seq<u8>) -> Option<(Seq<FrameModel>, Seq<u8>)>
    decreases s.len(),
{
    if s.len() < HEADER_LEN {
        Some((Seq::empty(), s))
    } else if header_len(s) > MAX_PAYLOAD {
        None
    } else if s.len() < HEADER_LEN + header_len(s) {
        Some((Seq::empty(), s))
    } else {
        let end = HEADER_LEN + header_len(s);
        match decode_stream(s.subrange(end as int, s.len() as int)) {
            Some(r) => Some((seq![(header_code(s), s.subrange(HEADER_LEN as int, end as int))] + r.0, r.1)),
            None => None,
        }
    }
}

/// The bytes of an incomplete frame that a receiver can hold while it waits
/// for the rest: a partial header, or a header that declares an acceptable
/// length followed by fewer payload bytes than declared.
pub open spec fn partial_frame(p: Seq<u8>) -> bool {
    p.len() < HEADER_LEN || (header_len(p) <= MAX_PAYLOAD && p.len() < HEADER_LEN + header_len(p))
}

/// A header's two big-endian bytes give back the value they encode.
pub proof fn lemma_be16_round_trip(v: u16)
    ensures
        from_be16(be16(v)[0], be16(v)[1]) == v,
{
    assert(((((v >> 8u16) as u8) as u16) << 8u16) | (((v as u8) as u16)) == v) by (bit_vector);
}

/// Every frame whose payload a receiver accepts decodes back to itself, with
/// nothing left over.
pub proof fn lemma_frame_round_trip(code: u16, payload: Seq<u8>)
    requires
        payload.len() <= MAX_PAYLOAD,
    ensures
        decode_stream(frame_bytes(code, payload)) == Some((seq![(code, payload)], Seq::<u8>::empty())),
{
    let s = frame_bytes(code, payload);
    let n = payload.len() as u16;
    lemma_be16_round_trip(code);
    lemma_be16_round_trip(n);
    assert(s[0] == be16(code)[0] && s[1] == be16(code)[1]);
    assert(s[2] == be16(n)[0] && s[3] == be16(n)[1]);
    assert(header_code(s) == code);
    assert(header_len(s) == payload.len());
    let rest = s.subrange(s.len() as int, s.len() as int);
    assert(rest =~= Seq::<u8>::empty());
    assert(decode_stream(rest) == Some((Seq::<FrameModel>::empty(), Seq::<u8>::empty())));
    assert(s.subrange(HEADER_LEN as int, s.len() as int) =~= payload);
    assert(seq![(code, payload)] + Seq::<FrameModel>::empty() =~= seq![(code, payload)]);
}

/// A header that declares more than `MAX_PAYLOAD` bytes ends decoding,
/// whatever follows it: no frame of it is ever produced.
pub proof fn lemma_oversize_rejected(code: u16, declared: u16, rest: Seq<u8>)
    requires
        declared > MAX_PAYLOAD,
    ensures
        decode_stream(be16(code) + be16(declared) + rest) is None,
{
    let s = be16(code) + be16(declared) + rest;
    lemma_be16_round_trip(declared);
    assert(s[2] == be16(declared)[0] && s[3] == be16(declared)[1]);
}

/// A stream of bytes can be decoded in pieces: what follows the frames that a
/// prefix holds decodes as the prefix's leftover bytes followed by the rest.
pub proof fn lemma_decode_extend(r: Seq<u8>, d: Seq<u8>)
    requires
        decode_stream(r) is Some,
    ensures
        decode_stream(r + d) == (match decode_stream(decode_stream(r).unwrap().1 + d) {
            Some(x) => Some((decode_stream(r).unwrap().0 + x.0, x.1)),
            None => None,
        }),
    decreases r.len(),
{
    let rd = r + d;
    if r.len() < HEADER_LEN {
        assert(decode_stream(r).unwrap().0 =~= Seq::<FrameModel>::empty());
        assert(decode_stream(r).unwrap().1 == r);
        match decode_stream(rd) {
            Some(x) => {
                assert(Seq::<FrameModel>::empty() + x.0 =~= x.0);
            },
            None => {},
        }
    } else {
        assert(rd[0] == r[0] && rd[1] == r[1] && rd[2] == r[2] && rd[3] == r[3]);
        assert(header_len(rd) == header_len(r));
        assert(header_code(rd) == header_code(r));
        if r.len() < HEADER_LEN + header_len(r) {
            assert(decode_stream(r).unwrap().0 =~= Seq::<FrameModel>::empty());
            assert(decode_stream(r).unwrap().1 == r);
            match decode_stream(rd) {
                Some(x) => {
                    assert(Seq::<FrameModel>::empty() + x.0 =~= x.0);
                },
                None => {},
            }
        } else {
            let end = HEADER_LEN + header_len(r);
            let tail = r.subrange(end as int, r.len() as int);
            assert(rd.subrange(end as int, rd.len() as int) =~= tail + d);
            assert(rd.subrange(HEADER_LEN as int, end as int) =~= r.subrange(HEADER_LEN as int, end as int));
            lemma_decode_extend(tail, d);
            let f = seq![(header_code(r), r.subrange(HEADER_LEN as int, end as int))];
            let t = decode_stream(tail).unwrap();
            assert(decode_stream(r).unwrap().1 == t.1);
            match decode_stream(t.1 + d) {
                Some(x) => {
                    assert(f + (t.0 + x.0) =~= (f + t.0) + x.0);
                },
                None => {},
            }
        }
    }
}

/// One frame of the protocol, as delivered to the application.
#[derive(Debug)]
pub struct RawPacket {
    code: u16,
    payload: bytes::BytesMut,
}

impl View for RawPacket {
    type V = FrameModel;

    closed spec fn view(&self) -> FrameModel {
        (self.code, bytes_mut_view(self.payload))
    }
}

impl RawPacket {
    /// A frame with a copy of `payload`.
    pub fn new(code: u16, payload: &[u8]) -> (r: Self)
        requires
            payload@.len() <= isize::MAX,
        ensures
            r@ == (code, payload@),
    {
        let mut bytes = new_buffer(payload.len());
        append(&mut bytes, payload);
        assert(Seq::<u8>::empty() + payload@ =~= payload@);
        RawPacket { code, payload: bytes }
    }

    /// A frame that takes over a filled buffer.
    pub fn from_buffer(code: u16, payload: bytes::BytesMut) -> (r: Self)
        ensures
            r@ == (code, bytes_mut_view(payload)),
    {
        RawPacket { code, payload }
    }

    pub fn code(&self) -> (r: u16)
        ensures
            r == self@.0,
    {
        self.code
    }

    /// The code and the payload, which can no longer change.
    pub fn freeze(self) -> (r: (u16, bytes::Bytes))
        ensures
            r.0 == self@.0,
            bytes_view(r.1) == self@.1,
    {
        (self.code, freeze(self.payload))
    }
}

/// Builds one outbound frame: the header first, then the payload appended
/// piece by piece.
pub struct PacketBuilder {
    packet: bytes::BytesMut,
}

impl View for PacketBuilder {
    type V = Seq<u8>;

    closed spec fn view(&self) -> Seq<u8> {
        bytes_mut_view(self.packet)
    }
}

impl PacketBuilder {
    /// A frame of the given code whose header declares `payload_size` bytes.
    pub fn new(code: u16, payload_size: usize) -> (r: Self)
        requires
            payload_size <= MAX_DECLARABLE,
        ensures
            r@ == be16(code) + be16(payload_size as u16),
    {
        let mut packet = new_buffer(HEADER_LEN + payload_size);
        let size = payload_size as u16;
        let header = vec![(code >> 8u16) as u8, code as u8, (size >> 8u16) as u8, size as u8];
        append(&mut packet, header.as_slice());
        assert(Seq::<u8>::empty() + header@ =~= be16(code) + be16(size));
        PacketBuilder { packet }
    }

    pub fn put_u8(&mut self, v: u8)
        requires
            old(self)@.len() + 1 <= isize::MAX,
        ensures
            final(self)@ == old(self)@.push(v),
    {
        let b = vec![v];
        append(&mut self.packet, b.as_slice());
        assert(old(self)@ + b@ =~= old(self)@.push(v));
    }

    pub fn put_u32_le(&mut self, v: u32)
        requires
            old(self)@.len() + 4 <= isize::MAX,
        ensures
            final(self)@ == old(self)@ + le_u32(v),
    {
        let b = vec![v as u8, (v >> 8u32) as u8, (v >> 16u32) as u8, (v >> 24u32) as u8];
        append(&mut self.packet, b.as_slice());
        assert(b@ =~= le_u32(v));
    }

    pub fn put_i32_le(&mut self, v: i32)
        requires
            old(self)@.len() + 4 <= isize::MAX,
        ensures
            final(self)@ == old(self)@ + le_u32(v as u32),
    {
        self.put_u32_le(v as u32);
    }

    pub fn put_u64_le(&mut self, v: u64)
        requires
            old(self)@.len() + 8 <= isize::MAX,
        ensures
            final(self)@ == old(self)@ + le_u64(v),
    {
        let b = vec![
            v as u8,
            (v >> 8u64) as u8,
            (v >> 16u64) as u8,
            (v >> 24u64) as u8,
            (v >> 32u64) as u8,
            (v >> 40u64) as u8,
            (v >> 48u64) as u8,
            (v >> 56u64) as u8,
        ];
        append(&mut self.packet, b.as_slice());
        assert(b@ =~= le_u64(v));
    }

    pub fn extend_from_slice(&mut self, data: &[u8])
        requires
            old(self)@.len() + data@.len() <= isize::MAX,
        ensures
            final(self)@ == old(self)@ + data@,
    {
        append(&mut self.packet, data);
    }

    /// The finished frame.
    pub fn into_packet(self) -> (r: bytes::Bytes)
        ensures
            bytes_view(r) == self@,
    {
        freeze(self.packet)
    }
}

/// Encodes one frame for the wire.
pub fn encode_frame(code: u16, payload: &[u8]) -> (r: bytes::Bytes)
    requires
        payload@.len() <= MAX_DECLARABLE,
    ensures
        bytes_view(r) == frame_bytes(code, payload@),
{
    let mut builder = PacketBuilder::new(code, payload.len());
    builder.extend_from_slice(payload);
    builder.into_packet()
}

} // verus!
