//! Reassembly of length-prefixed frames from a byte stream that arrives in
//! arbitrary pieces.
//!
//! A frame is `VarInt(length) ++ id ++ payload` where `length` counts the id
//! byte and the payload. The reader keeps what has arrived in a `BytesMut`;
//! once a length prefix is decoded its bytes are dropped from the buffer and
//! the length is remembered, so it is not decoded twice.

use bytes::BytesMut;
use vstd::prelude::*;

use crate::bytes_buf::{buffered, buffered_slice};
use crate::errors::PacketError;
use crate::varint::{
    decode_varint, decode_within, lemma_decode_bounds, lemma_varint_len, lemma_varint_round_trip,
    varint_bytes, varint_decode, VarIntDecode, MAX_VARINT_LEN,
};

verus! {

/// The wire form of one frame.
pub open spec fn frame_bytes(id: u8, payload: Seq<u8>) -> Seq<u8> {
    varint_bytes((payload.len() + 1) as nat) + seq![id] + payload
}

/// What the head of a stream holds, seen as a frame.
pub enum FrameHead {
    /// A whole frame: its id, payload, and the bytes it takes in the stream.
    Frame { id: u8, payload: Seq<u8>, size: nat },
    /// A proper prefix of a frame: more bytes are needed.
    Partial,
    /// Bytes that no continuation can turn into a frame.
    Malformed(PacketError),
}

/// The frame at the head of `s`, if all of it is there.
pub open spec fn frame_head(s: Seq<u8>) -> FrameHead {
    match varint_decode(s) {
        VarIntDecode::Incomplete => FrameHead::Partial,
        VarIntDecode::Invalid => FrameHead::Malformed(PacketError::InvalidVarInt),
        VarIntDecode::Complete { value, len } => {
            if value == 0 {
                FrameHead::Malformed(PacketError::EmptyFrame)
            } else if s.len() < len + value {
                FrameHead::Partial
            } else {
                FrameHead::Frame {
                    id: s[len as int],
                    payload: s.subrange(len + 1, len + value),
                    size: (len + value) as nat,
                }
            }
        },
    }
}

/// One frame taken off the stream.
#[derive(Debug, Clone, PartialEq, Eq)]
pub struct RawFrame {
    pub id: u8,
    pub payload: Vec<u8>,
}

/// A completed decoding depends only on the bytes it read.
proof fn lemma_decode_prefix(s: Seq<u8>, t: Seq<u8>, budget: nat)
    requires
        budget <= MAX_VARINT_LEN,
        decode_within(s, budget) is Complete,
        decode_within(s, budget)->Complete_len <= t.len(),
        t.take(decode_within(s, budget)->Complete_len as int) == s.take(
            decode_within(s, budget)->Complete_len as int,
        ),
    ensures
        decode_within(t, budget) == decode_within(s, budget),
    decreases budget,
{
    lemma_decode_bounds(s, budget);
    if let VarIntDecode::Complete { len, .. } = decode_within(s, budget) {
        assert(t[0] == t.take(len as int)[0]);
        assert(s[0] == s.take(len as int)[0]);
        if s[0] >= 128 {
            let ds = s.drop_first();
            let dt = t.drop_first();
            lemma_decode_bounds(ds, (budget - 1) as nat);
            if let VarIntDecode::Complete { len: l2, .. } = decode_within(ds, (budget - 1) as nat) {
                assert(dt.take(l2 as int) =~= ds.take(l2 as int)) by {
                    assert forall|i: int| 0 <= i < l2 implies dt[i] == ds[i] by {
                        assert(t.take(len as int)[i + 1] == s.take(len as int)[i + 1]);
                    }
                }
                lemma_decode_prefix(ds, dt, (budget - 1) as nat);
            }
        }
    }
}

/// Reassembles frames from stream bytes.
pub struct FrameReader {
    buffer: BytesMut,
    /// The length decoded from the prefix of the frame in progress.
    pending: Option<u64>,
    /// The number of prefix bytes already taken off `buffer` for that frame.
    header_len: usize,
    /// Those bytes.
    header: Ghost<Seq<u8>>,
}

impl FrameReader {
    /// The stream bytes received and not yet returned as frames.
    pub closed spec fn stream(&self) -> Seq<u8> {
        self.header@ + buffered(self.buffer)
    }

    pub closed spec fn wf(&self) -> bool {
        &&& self.header_len == self.header@.len()
        &&& self.header@.len() + buffered(self.buffer).len() <= usize::MAX
        &&& match self.pending {
            None => self.header@.len() == 0,
            Some(v) => {
                &&& v > 0
                &&& self.header@.len() <= MAX_VARINT_LEN
                &&& varint_decode(self.header@) == (VarIntDecode::Complete {
                    value: v,
                    len: self.header@.len() as usize,
                })
            },
        }
    }

    /// A reader with nothing received.
    pub fn new() -> (r: FrameReader)
        ensures
            r.wf(),
            r.stream() == Seq::<u8>::empty(),
    {
        let r = FrameReader {
            buffer: BytesMut::new(),
            pending: None,
            header_len: 0,
            header: Ghost(Seq::empty()),
        };
        proof {
            assert(r.stream() =~= Seq::<u8>::empty());
        }
        r
    }

    /// Appends bytes read from the stream.
    pub fn push(&mut self, bytes: &[u8])
        requires
            old(self).wf(),
            old(self).stream().len() + bytes@.len() <= usize::MAX,
        ensures
            final(self).wf(),
            final(self).stream() == old(self).stream() + bytes@,
    {
        self.buffer.extend_from_slice(bytes);
        proof {
            assert(self.stream() =~= old(self).stream() + bytes@);
        }
    }

    /// The number of bytes received and not yet returned as frames.
    pub fn len(&self) -> (r: usize)
        requires
            self.wf(),
        ensures
            r == self.stream().len(),
    {
        self.header_len + self.buffer.len()
    }

    /// Whether no byte of a frame is waiting.
    pub fn is_empty(&self) -> (r: bool)
        requires
            self.wf(),
        ensures
            r == (self.stream().len() == 0),
    {
        self.pending.is_none() && self.buffer.len() == 0
    }

    /// What the end of the stream means here: a clean close when no frame
    /// has begun, a truncated frame otherwise.
    pub fn finish(&self) -> (r: Result<(), PacketError>)
        requires
            self.wf(),
        ensures
            r == (if self.stream().len() == 0 {
                Ok(())
            } else {
                Err(PacketError::TruncatedFrame)
            }),
    {
        if self.is_empty() {
            Ok(())
        } else {
            Err(PacketError::TruncatedFrame)
        }
    }

    /// Takes the next whole frame off the stream, if it has arrived.
    pub fn next_frame(&mut self) -> (r: Result<Option<RawFrame>, PacketError>)
        requires
            old(self).wf(),
        ensures
            final(self).wf(),
            match frame_head(old(self).stream()) {
                FrameHead::Frame { id, payload, size } => {
                    &&& r matches Ok(Some(f)) && f.id == id && f.payload@ == payload
                    &&& final(self).stream() == old(self).stream().skip(size as int)
                },
                FrameHead::Partial => r == Ok::<Option<RawFrame>, PacketError>(None)
                    && final(self).stream() == old(self).stream(),
                FrameHead::Malformed(e) => r == Err::<Option<RawFrame>, PacketError>(e)
                    && final(self).stream() == old(self).stream(),
            },
    {
        let ghost s = self.stream();
        if self.pending.is_none() {
            proof {
                assert(s =~= buffered(self.buffer));
            }
            match decode_varint(buffered_slice(&self.buffer)) {
                VarIntDecode::Incomplete => {
                    return Ok(None);
                },
                VarIntDecode::Invalid => {
                    return Err(PacketError::InvalidVarInt);
                },
                VarIntDecode::Complete { value, len } => {
                    if value == 0 {
                        return Err(PacketError::EmptyFrame);
                    }
                    let _prefix = self.buffer.split_to(len);
                    proof {
                        assert(s.take(len as int).take(len as int) =~= s.take(len as int));
                        lemma_decode_prefix(s, s.take(len as int), MAX_VARINT_LEN as nat);
                    }
                    self.pending = Some(value);
                    self.header_len = len;
                    self.header = Ghost(s.take(len as int));
                    proof {
                        assert(self.stream() =~= s);
                    }
                },
            }
        }
        let value = match self.pending {
            Some(v) => v,
            None => {
                return Ok(None);
            },
        };
        let ghost hlen: int = self.header@.len() as int;
        proof {
            lemma_decode_bounds(self.header@, MAX_VARINT_LEN as nat);
            assert(s.take(hlen) =~= self.header@);
            assert(self.header@.take(hlen) =~= self.header@);
            lemma_decode_prefix(self.header@, s, MAX_VARINT_LEN as nat);
        }
        if (self.buffer.len() as u64) < value {
            return Ok(None);
        }
        let body = self.buffer.split_to(value as usize);
        self.pending = None;
        self.header_len = 0;
        self.header = Ghost(Seq::empty());
        proof {
            assert(self.stream() =~= s.skip(hlen + value as int));
        }
        let bytes = buffered_slice(&body);
        let id = bytes[0];
        let mut payload: Vec<u8> = Vec::new();
        let mut i: usize = 1;
        while i < bytes.len()
            invariant
                1 <= i <= bytes@.len(),
                payload@ == bytes@.subrange(1, i as int),
            decreases bytes@.len() - i,
        {
            payload.push(bytes[i]);
            i = i + 1;
            proof {
                assert(payload@ =~= bytes@.subrange(1, i as int));
            }
        }
        proof {
            assert(payload@ =~= s.subrange(hlen + 1, hlen + value as int));
        }
        Ok(Some(RawFrame { id, payload }))
    }
}

/// A frame's bytes, followed by anything, read back as that frame; any proper
/// prefix of them reads as a partial frame, and so does an empty stream. So
/// however the bytes are cut into reads, the reader holds them until the last
/// one arrives and then yields exactly this frame.
pub proof fn lemma_frame_chunking(id: u8, payload: Seq<u8>, rest: Seq<u8>, k: nat)
    requires
        payload.len() + 1 <= u32::MAX,
    ensures
        frame_head(frame_bytes(id, payload) + rest) == (FrameHead::Frame {
            id,
            payload,
            size: frame_bytes(id, payload).len(),
        }),
        k < frame_bytes(id, payload).len() ==> frame_head(frame_bytes(id, payload).take(k as int))
            == FrameHead::Partial,
        frame_head(Seq::<u8>::empty()) == FrameHead::Partial,
{
    let n = (payload.len() + 1) as u32;
    let h = varint_bytes(n as nat);
    let body = seq![id] + payload;
    let f = frame_bytes(id, payload);
    assert(f =~= h + body);
    lemma_varint_round_trip(n, body + rest);
    assert(f + rest =~= h + (body + rest));
    let s = f + rest;
    assert(s[h.len() as int] == id);
    assert(s.subrange(h.len() as int + 1, h.len() + n as int) =~= payload);
    crate::varint::lemma_varint_incomplete_and_invalid(Seq::<u8>::empty());
    if k < f.len() {
        let t = f.take(k as int);
        if k < h.len() {
            assert(t =~= h.take(k as int));
            crate::varint::lemma_pow128_small();
            lemma_varint_len(n as nat, MAX_VARINT_LEN as nat);
            crate::varint::lemma_varint_prefix_incomplete(n as nat, k, MAX_VARINT_LEN as nat);
        } else {
            assert(t =~= h + body.take(k - h.len() as int));
            lemma_varint_round_trip(n, body.take(k - h.len() as int));
        }
    }
}

} // verus!
