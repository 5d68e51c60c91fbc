//! The handshake packet, which opens every connection and selects the next
//! protocol phase. Its payload is the bincode form of its fields in order:
//! little-endian `u16`, a string as a `u64` byte length and its UTF-8 bytes,
//! little-endian `u16`, one byte.

use vstd::bytes::{
    lemma_auto_spec_u16_to_from_le_bytes, lemma_auto_spec_u64_to_from_le_bytes,
    spec_u16_from_le_bytes, spec_u16_to_le_bytes, spec_u64_from_le_bytes, spec_u64_to_le_bytes,
};
use vstd::prelude::*;
use vstd::utf8::{decode_utf8, encode_utf8, encode_utf8_decode_utf8, encode_utf8_valid_utf8, valid_utf8};

use crate::packet::Packet;

verus! {

/// The packet id of the handshake.
pub const HANDSHAKE_ID: u8 = 0x00;

/// The protocol version this server speaks.
pub const PROTOCOL_VERSION: u16 = 764;

/// The `next_state` value that selects the status phase.
pub const NEXT_STATE_STATUS: u8 = 0x01;

/// The `next_state` value that selects the login phase.
pub const NEXT_STATE_LOGIN: u8 = 0x02;

/// The fields of a handshake as mathematical values.
pub struct HandshakeView {
    pub protocol_version: u16,
    pub server_address: Seq<char>,
    pub server_port: u16,
    pub next_state: u8,
}

/// The payload bytes of a handshake.
pub open spec fn handshake_wire(v: HandshakeView) -> Seq<u8> {
    spec_u16_to_le_bytes(v.protocol_version) + spec_u64_to_le_bytes(
        encode_utf8(v.server_address).len() as u64,
    ) + encode_utf8(v.server_address) + spec_u16_to_le_bytes(v.server_port) + seq![v.next_state]
}

/// The handshake at the head of `d`, if the bytes there have its shape;
/// bytes after it are ignored.
pub open spec fn handshake_parse(d: Seq<u8>) -> Option<HandshakeView> {
    if d.len() < 10 {
        None
    } else {
        let n = spec_u64_from_le_bytes(d.subrange(2, 10)) as int;
        if d.len() < 13 + n || !valid_utf8(d.subrange(10, 10 + n)) {
            None
        } else {
            Some(
                HandshakeView {
                    protocol_version: spec_u16_from_le_bytes(d.subrange(0, 2)),
                    server_address: decode_utf8(d.subrange(10, 10 + n)),
                    server_port: spec_u16_from_le_bytes(d.subrange(10 + n, 12 + n)),
                    next_state: d[12 + n],
                },
            )
        }
    }
}

/// Relies on `bincode::serialize` (1.x defaults: fixed-width little-endian
/// integers, a string as its `u64` byte length then its UTF-8 bytes, tuple
/// fields in order, no size limit), which does not fail on these fields.
#[verifier::external_body]
fn bincode_handshake_bytes(
    protocol_version: u16,
    server_address: &str,
    server_port: u16,
    next_state: u8,
) -> (r: Option<Vec<u8>>)
    ensures
        r is Some,
        r.unwrap()@ == handshake_wire(
            (HandshakeView {
                protocol_version,
                server_address: server_address@,
                server_port,
                next_state,
            }),
        ),
{
    bincode::serialize(&(protocol_version, server_address, server_port, next_state)).ok()
}

/// Relies on `bincode::deserialize` (1.x defaults, trailing bytes allowed):
/// it reads the same layout back and fails when the bytes run out or the
/// string is not UTF-8.
#[verifier::external_body]
fn bincode_handshake_fields(data: &[u8]) -> (r: Option<(u16, String, u16, u8)>)
    ensures
        match handshake_parse(data@) {
            None => r is None,
            Some(v) => r matches Some(t) && t.0 == v.protocol_version && t.1@ == v.server_address
                && t.2 == v.server_port && t.3 == v.next_state,
        },
{
    bincode::deserialize::<(u16, String, u16, u8)>(data).ok()
}

/// The first packet a client sends.
#[derive(Debug, Clone)]
pub struct HandshakePacket {
    pub protocol_version: u16,
    pub server_address: String,
    pub server_port: u16,
    pub next_state: u8,
}

impl View for HandshakePacket {
    type V = HandshakeView;

    open spec fn view(&self) -> HandshakeView {
        HandshakeView {
            protocol_version: self.protocol_version,
            server_address: self.server_address@,
            server_port: self.server_port,
            next_state: self.next_state,
        }
    }
}

impl PartialEq for HandshakePacket {
    fn eq(&self, other: &HandshakePacket) -> (r: bool) {
        self.protocol_version == other.protocol_version && self.server_address
            == other.server_address && self.server_port == other.server_port && self.next_state
            == other.next_state
    }
}

impl vstd::std_specs::cmp::PartialEqSpecImpl for HandshakePacket {
    open spec fn obeys_eq_spec() -> bool {
        true
    }

    open spec fn eq_spec(&self, other: &HandshakePacket) -> bool {
        self@ == other@
    }
}

impl HandshakePacket {
    /// The handshake a connection to `address:port` opens with: this server's
    /// protocol version, asking for the login phase next.
    pub fn for_login(address: &str, port: u16) -> (r: HandshakePacket)
        ensures
            r@ == (HandshakeView {
                protocol_version: PROTOCOL_VERSION,
                server_address: address@,
                server_port: port,
                next_state: NEXT_STATE_LOGIN,
            }),
    {
        HandshakePacket {
            protocol_version: PROTOCOL_VERSION,
            server_address: address.to_owned(),
            server_port: port,
            next_state: NEXT_STATE_LOGIN,
        }
    }
}

impl Packet for HandshakePacket {
    open spec fn packet_id(v: HandshakeView) -> u8 {
        HANDSHAKE_ID
    }

    open spec fn wire(v: HandshakeView) -> Seq<u8> {
        handshake_wire(v)
    }

    open spec fn parse(data: Seq<u8>) -> Option<HandshakeView> {
        handshake_parse(data)
    }

    open spec fn encodable(v: HandshakeView) -> bool {
        encode_utf8(v.server_address).len() <= u64::MAX
    }

    fn id(&self) -> (r: u8) {
        HANDSHAKE_ID
    }

    fn serialize(&self) -> (r: Vec<u8>) {
        match bincode_handshake_bytes(
            self.protocol_version,
            self.server_address.as_str(),
            self.server_port,
            self.next_state,
        ) {
            Some(v) => v,
            None => Vec::new(),
        }
    }

    fn deserialize(data: Vec<u8>) -> (r: Option<HandshakePacket>) {
        match bincode_handshake_fields(data.as_slice()) {
            Some((protocol_version, server_address, server_port, next_state)) => Some(
                HandshakePacket { protocol_version, server_address, server_port, next_state },
            ),
            None => None,
        }
    }

    proof fn lemma_wire_round_trip(v: HandshakeView) {
        lemma_auto_spec_u16_to_from_le_bytes();
        lemma_auto_spec_u64_to_from_le_bytes();
        let b = encode_utf8(v.server_address);
        let n = b.len() as u64;
        encode_utf8_valid_utf8(v.server_address);
        encode_utf8_decode_utf8(v.server_address);
        let d = handshake_wire(v);
        let p16 = spec_u16_to_le_bytes(v.protocol_version);
        let l64 = spec_u64_to_le_bytes(n);
        let q16 = spec_u16_to_le_bytes(v.server_port);
        assert(d.subrange(0, 2) =~= p16);
        assert(d.subrange(2, 10) =~= l64);
        assert(d.subrange(10, 10 + n as int) =~= b);
        assert(d.subrange(10 + n as int, 12 + n as int) =~= q16);
        assert(d[12 + n as int] == v.next_state);
    }
}

} // verus!
