//! The packet registry: which deserializer stands behind each phase and
//! packet id. It is built once before connections are accepted, then only
//! read.

use std::collections::HashMap;
use vstd::prelude::*;

use crate::errors::PacketError;
use crate::handshake::{handshake_parse, HandshakePacket, HandshakeView, HANDSHAKE_ID};
use crate::packet::{Packet, Phase};

verus! {

broadcast use vstd::std_specs::hash::group_hash_axioms;

/// The packet types the engine can deserialize.
#[derive(Debug, Clone, Copy, PartialEq, Eq, Structural)]
pub enum PacketKind {
    Handshake,
}

/// A deserialized packet of any known type.
#[derive(Debug, Clone, PartialEq)]
pub enum AnyPacket {
    Handshake(HandshakePacket),
}

/// A packet of any known type as mathematical values.
pub enum AnyPacketView {
    Handshake(HandshakeView),
}

impl View for AnyPacket {
    type V = AnyPacketView;

    open spec fn view(&self) -> AnyPacketView {
        match self {
            AnyPacket::Handshake(h) => AnyPacketView::Handshake(h@),
        }
    }
}

/// The type of a packet.
pub open spec fn kind_of(v: AnyPacketView) -> PacketKind {
    match v {
        AnyPacketView::Handshake(_) => PacketKind::Handshake,
    }
}

/// The packet id a packet carries.
pub open spec fn id_of(v: AnyPacketView) -> u8 {
    match v {
        AnyPacketView::Handshake(h) => HandshakePacket::packet_id(h),
    }
}

/// The payload bytes of a packet.
pub open spec fn wire_of(v: AnyPacketView) -> Seq<u8> {
    match v {
        AnyPacketView::Handshake(h) => HandshakePacket::wire(h),
    }
}

/// Whether a packet's payload can be produced.
pub open spec fn encodable_any(v: AnyPacketView) -> bool {
    match v {
        AnyPacketView::Handshake(h) => HandshakePacket::encodable(h),
    }
}

/// What the deserializer of `kind` makes of `data`.
pub open spec fn decode_kind(kind: PacketKind, data: Seq<u8>) -> Option<AnyPacketView> {
    match kind {
        PacketKind::Handshake => match handshake_parse(data) {
            Some(h) => Some(AnyPacketView::Handshake(h)),
            None => None,
        },
    }
}

/// A distinct number for each phase.
pub open spec fn phase_code(phase: Phase) -> u16 {
    match phase {
        Phase::Handshake => 0,
        Phase::Status => 1,
        Phase::Login => 2,
        Phase::Play => 3,
    }
}

/// The table key of a phase and packet id.
pub open spec fn registry_key(phase: Phase, id: u8) -> u16 {
    (phase_code(phase) * 256 + id) as u16
}

/// The outcome of resolving `data` received under `phase` with packet id `id`.
pub open spec fn resolve_spec(
    table: Map<u16, PacketKind>,
    phase: Phase,
    id: u8,
    data: Seq<u8>,
) -> Result<AnyPacketView, PacketError> {
    if !table.contains_key(registry_key(phase, id)) {
        Err(PacketError::UnknownPacketID)
    } else {
        match decode_kind(table[registry_key(phase, id)], data) {
            Some(v) => Ok(v),
            None => Err(PacketError::DeserializeError),
        }
    }
}

fn key_of(phase: Phase, id: u8) -> (r: u16)
    ensures
        r == registry_key(phase, id),
{
    let code: u16 = match phase {
        Phase::Handshake => 0,
        Phase::Status => 1,
        Phase::Login => 2,
        Phase::Play => 3,
    };
    code * 256 + id as u16
}

/// Maps each registered phase and packet id to its packet type.
pub struct PacketByteConverter {
    table: HashMap<u16, PacketKind>,
}

impl View for PacketByteConverter {
    type V = Map<u16, PacketKind>;

    closed spec fn view(&self) -> Map<u16, PacketKind> {
        self.table@
    }
}

impl PacketByteConverter {
    /// A registry with nothing registered.
    pub fn new() -> (r: PacketByteConverter)
        ensures
            r@ == Map::<u16, PacketKind>::empty(),
    {
        PacketByteConverter { table: HashMap::new() }
    }

    /// A registry with the packets the engine ships: the handshake, under the
    /// handshake phase.
    pub fn with_core_packets() -> (r: PacketByteConverter)
        ensures
            r@ == map![registry_key(Phase::Handshake, HANDSHAKE_ID) => PacketKind::Handshake],
    {
        let mut r = PacketByteConverter::new();
        let _ = r.register_packet(Phase::Handshake, HANDSHAKE_ID, PacketKind::Handshake);
        proof {
            assert(r@ =~= map![registry_key(Phase::Handshake, HANDSHAKE_ID) => PacketKind::Handshake]);
        }
        r
    }

    /// Registers `kind` as the packet type of `id` under `phase`. A pair that
    /// is already registered is refused and keeps its type.
    pub fn register_packet(&mut self, phase: Phase, id: u8, kind: PacketKind) -> (r: Result<
        (),
        PacketError,
    >)
        ensures
            old(self)@.contains_key(registry_key(phase, id)) ==> r == Err::<(), PacketError>(
                PacketError::DuplicateID,
            ) && final(self)@ == old(self)@,
            !old(self)@.contains_key(registry_key(phase, id)) ==> r == Ok::<(), PacketError>(())
                && final(self)@ == old(self)@.insert(registry_key(phase, id), kind),
    {
        let key = key_of(phase, id);
        if self.table.contains_key(&key) {
            return Err(PacketError::DuplicateID);
        }
        self.table.insert(key, kind);
        Ok(())
    }

    /// The packet type registered for `id` under `phase`.
    pub fn get_packet(&self, phase: Phase, id: u8) -> (r: Option<PacketKind>)
        ensures
            r == (if self@.contains_key(registry_key(phase, id)) {
                Some(self@[registry_key(phase, id)])
            } else {
                None
            }),
    {
        let key = key_of(phase, id);
        match self.table.get(&key) {
            Some(kind) => Some(*kind),
            None => None,
        }
    }

    /// Deserializes a payload received under `phase` with packet id `id`
    /// through the type registered for them.
    pub fn resolve(&self, phase: Phase, id: u8, payload: Vec<u8>) -> (r: Result<
        AnyPacket,
        PacketError,
    >)
        ensures
            match resolve_spec(self@, phase, id, payload@) {
                Ok(v) => r matches Ok(p) && p@ == v,
                Err(e) => r matches Err(e2) && e2 == e,
            },
    {
        match self.get_packet(phase, id) {
            None => Err(PacketError::UnknownPacketID),
            Some(PacketKind::Handshake) => match HandshakePacket::deserialize(payload) {
                Some(h) => Ok(AnyPacket::Handshake(h)),
                None => Err(PacketError::DeserializeError),
            },
        }
    }
}

/// A registered packet, serialized and resolved under its phase and id,
/// comes back as the same packet.
pub proof fn lemma_resolve_round_trip(table: Map<u16, PacketKind>, phase: Phase, v: AnyPacketView)
    requires
        table.contains_key(registry_key(phase, id_of(v))),
        table[registry_key(phase, id_of(v))] == kind_of(v),
        encodable_any(v),
    ensures
        resolve_spec(table, phase, id_of(v), wire_of(v)) == Ok::<AnyPacketView, PacketError>(v),
{
    match v {
        AnyPacketView::Handshake(h) => {
            HandshakePacket::lemma_wire_round_trip(h);
        },
    }
}

/// Resolving under a phase and id that nothing is registered for gives
/// `UnknownPacketID`, whatever the payload.
pub proof fn lemma_resolve_unknown(table: Map<u16, PacketKind>, phase: Phase, id: u8, data: Seq<u8>)
    requires
        !table.contains_key(registry_key(phase, id)),
    ensures
        resolve_spec(table, phase, id, data) == Err::<AnyPacketView, PacketError>(
            PacketError::UnknownPacketID,
        ),
{
}

} // verus!
