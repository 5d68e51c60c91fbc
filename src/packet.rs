//! The packet capability and the framing of an outgoing packet.

use bytes::BytesMut;
use vstd::prelude::*;

use crate::bytes_buf::{buffered, buffered_slice};
use crate::errors::PacketError;
use crate::frame::frame_bytes;
use crate::varint::{decode_varint, varint_decode, write_varint, VarIntDecode, MAX_VARINT_LEN};

verus! {

/// A protocol phase: it scopes the meaning of a packet id.
#[derive(Debug, Clone, Copy, PartialEq, Eq, Structural)]
pub enum Phase {
    Handshake,
    Status,
    Login,
    Play,
}

/// A typed payload with a packet id, a byte form and a way back from it.
///
/// Every implementation proves that reading its own byte form gives the value
/// back.
pub trait Packet: Sized + View {
    /// The packet id of a value.
    spec fn packet_id(v: Self::V) -> u8;

    /// The payload bytes of a value.
    spec fn wire(v: Self::V) -> Seq<u8>;

    /// The value that payload bytes stand for, if they have the right shape.
    spec fn parse(data: Seq<u8>) -> Option<Self::V>;

    /// The values whose byte form this type can produce.
    spec fn encodable(v: Self::V) -> bool;

    fn id(&self) -> (r: u8)
        ensures
            r == Self::packet_id(self@),
    ;

    fn serialize(&self) -> (r: Vec<u8>)
        ensures
            r@ == Self::wire(self@),
    ;

    fn deserialize(data: Vec<u8>) -> (r: Option<Self>)
        ensures
            match r {
                Some(p) => Self::parse(data@) == Some(p@),
                None => Self::parse(data@) is None,
            },
    ;

    proof fn lemma_wire_round_trip(v: Self::V)
        requires
            Self::encodable(v),
        ensures
            Self::parse(Self::wire(v)) == Some(v),
    ;
}

/// Builds frames around packet payloads.
#[derive(Debug, Clone, Copy)]
pub struct PacketFormatter;

impl PacketFormatter {
    /// The frame of a packet with the given id and payload, or the error for
    /// a payload whose length prefix would not fit in 32 bits.
    pub open spec fn format_spec(id: u8, payload: Seq<u8>) -> Result<Seq<u8>, PacketError> {
        if payload.len() + 1 > u32::MAX {
            Err(PacketError::ErrorFormattingPacket)
        } else {
            Ok(frame_bytes(id, payload))
        }
    }

    /// Serializes `packet` and wraps it into a frame:
    /// `VarInt(len(payload) + 1) ++ id ++ payload`.
    pub fn format_data<P: Packet>(packet: &P) -> (r: Result<Vec<u8>, PacketError>)
        ensures
            match Self::format_spec(P::packet_id(packet@), P::wire(packet@)) {
                Ok(w) => r matches Ok(v) && v@ == w,
                Err(e) => r == Err::<Vec<u8>, PacketError>(e),
            },
    {
        let mut data = packet.serialize();
        if data.len() >= u32::MAX as usize {
            return Err(PacketError::ErrorFormattingPacket);
        }
        let mut out: Vec<u8> = Vec::new();
        write_varint(&mut out, (data.len() + 1) as u32);
        out.push(packet.id());
        out.append(&mut data);
        proof {
            assert(out@ =~= frame_bytes(P::packet_id(packet@), P::wire(packet@)));
        }
        Ok(out)
    }

    /// Reads the VarInt at the head of `buffer`. A complete one is taken off
    /// the buffer; an incomplete or invalid one leaves the buffer as it was.
    pub fn read_varint(buffer: &mut BytesMut) -> (r: VarIntDecode)
        ensures
            r == varint_decode(buffered(*old(buffer))),
            r matches VarIntDecode::Complete { len, .. } ==> {
                &&& 1 <= len <= MAX_VARINT_LEN
                &&& len <= buffered(*old(buffer)).len()
                &&& buffered(*final(buffer)) == buffered(*old(buffer)).skip(len as int)
            },
            !(r is Complete) ==> buffered(*final(buffer)) == buffered(*old(buffer)),
    {
        let r = decode_varint(buffered_slice(buffer));
        if let VarIntDecode::Complete { len, .. } = r {
            let _prefix = buffer.split_to(len);
        }
        r
    }
}

} // verus!
