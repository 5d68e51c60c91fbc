//! The protocol side of one client connection: what to do with the bytes
//! that arrive, what to write for a packet, and when the connection is over.
//! The stream itself is driven by the caller, which hands in what it read and
//! writes what it is given.

use vstd::prelude::*;

use crate::errors::PacketError;
use crate::frame::{frame_bytes, frame_head, lemma_frame_chunking, FrameHead, FrameReader};
use crate::handshake::{NEXT_STATE_LOGIN, NEXT_STATE_STATUS};
use crate::packet::{Packet, PacketFormatter, Phase};
use crate::registry::{
    encodable_any, id_of, kind_of, lemma_resolve_round_trip, registry_key, resolve_spec, wire_of,
    AnyPacket, AnyPacketView, PacketByteConverter, PacketKind,
};

verus! {

/// The phase a connection is in after receiving `v` in `phase`: a handshake
/// received in the handshake phase moves to the phase its `next_state`
/// selects (1: status, 2: login); everything else leaves the phase alone.
pub open spec fn phase_after(phase: Phase, v: AnyPacketView) -> Phase {
    match v {
        AnyPacketView::Handshake(h) => {
            if phase == Phase::Handshake && h.next_state == NEXT_STATE_STATUS {
                Phase::Status
            } else if phase == Phase::Handshake && h.next_state == NEXT_STATE_LOGIN {
                Phase::Login
            } else {
                phase
            }
        },
    }
}

/// The result of taking every whole frame off a stream.
pub struct Drained {
    /// The resolved packets, in stream order.
    pub packets: Seq<AnyPacketView>,
    /// The ids of frames dropped because nothing is registered for them.
    pub dropped: Seq<u8>,
    /// The phase after the last packet.
    pub phase: Phase,
    /// The stream bytes left after the last frame taken.
    pub rest: Seq<u8>,
    /// The error that ended the connection, if one did.
    pub error: Option<PacketError>,
}

/// Takes frames off the head of `s` in order and resolves each under the
/// phase in force at that point. A frame with an unknown id is dropped and
/// reading goes on; any other error stops it.
pub open spec fn drain(table: Map<u16, PacketKind>, phase: Phase, s: Seq<u8>) -> Drained
    decreases s.len(),
{
    match frame_head(s) {
        FrameHead::Frame { id, payload, size } => {
            if size == 0 || size > s.len() {
                Drained { packets: seq![], dropped: seq![], phase, rest: s, error: None }
            } else {
                match resolve_spec(table, phase, id, payload) {
                    Ok(v) => {
                        let d = drain(table, phase_after(phase, v), s.skip(size as int));
                        Drained { packets: seq![v] + d.packets, ..d }
                    },
                    Err(PacketError::UnknownPacketID) => {
                        let d = drain(table, phase, s.skip(size as int));
                        Drained { dropped: seq![id] + d.dropped, ..d }
                    },
                    Err(e) => Drained {
                        packets: seq![],
                        dropped: seq![],
                        phase,
                        rest: s.skip(size as int),
                        error: Some(e),
                    },
                }
            }
        },
        FrameHead::Partial => Drained {
            packets: seq![],
            dropped: seq![],
            phase,
            rest: s,
            error: None,
        },
        FrameHead::Malformed(e) => Drained {
            packets: seq![],
            dropped: seq![],
            phase,
            rest: s,
            error: Some(e),
        },
    }
}

/// What one read produced.
#[derive(Debug)]
pub struct Received {
    /// The packets to dispatch, in the order their frames arrived.
    pub packets: Vec<AnyPacket>,
    /// The ids of frames that were dropped as unknown.
    pub dropped: Vec<u8>,
    /// The error that closed the connection, if any.
    pub error: Option<PacketError>,
}

/// The protocol state of one connection.
pub struct ClientConnection {
    reader: FrameReader,
    phase: Phase,
    closed: bool,
}


impl ClientConnection {
    pub closed spec fn wf(&self) -> bool {
        self.reader.wf()
    }

    /// The bytes received and not yet taken as frames.
    pub closed spec fn stream(&self) -> Seq<u8> {
        self.reader.stream()
    }

    pub closed spec fn spec_phase(&self) -> Phase {
        self.phase
    }

    pub closed spec fn is_closed(&self) -> bool {
        self.closed
    }

    /// A freshly accepted connection: open, in the handshake phase, with
    /// nothing received.
    pub fn new() -> (r: ClientConnection)
        ensures
            r.wf(),
            !r.is_closed(),
            r.spec_phase() == Phase::Handshake,
            r.stream() == Seq::<u8>::empty(),
    {
        ClientConnection { reader: FrameReader::new(), phase: Phase::Handshake, closed: false }
    }

    /// The number of bytes received and not yet taken as frames.
    pub fn pending_len(&self) -> (r: usize)
        requires
            self.wf(),
        ensures
            r == self.stream().len(),
    {
        self.reader.len()
    }

    pub fn phase(&self) -> (r: Phase)
        ensures
            r == self.spec_phase(),
    {
        self.phase
    }

    pub fn closed(&self) -> (r: bool)
        ensures
            r == self.is_closed(),
    {
        self.closed
    }

    /// Marks the connection closed. Closing twice is the same as closing once.
    pub fn disconnect(&mut self)
        requires
            old(self).wf(),
        ensures
            final(self).wf(),
            final(self).is_closed(),
            final(self).spec_phase() == old(self).spec_phase(),
            final(self).stream() == old(self).stream(),
    {
        self.closed = true;
    }

    /// The bytes to write for `packet`: one whole frame, to be written in one
    /// piece. A closed connection sends nothing.
    pub fn send_packet<P: Packet>(&self, packet: &P) -> (r: Result<Vec<u8>, PacketError>)
        ensures
            self.is_closed() ==> r == Err::<Vec<u8>, PacketError>(PacketError::Closed),
            !self.is_closed() ==> match PacketFormatter::format_spec(
                P::packet_id(packet@),
                P::wire(packet@),
            ) {
                Ok(w) => r matches Ok(v) && v@ == w,
                Err(e) => r == Err::<Vec<u8>, PacketError>(e),
            },
    {
        if self.closed {
            return Err(PacketError::Closed);
        }
        PacketFormatter::format_data(packet)
    }

    /// The end of the stream: the connection closes, cleanly when no frame
    /// had begun, with `TruncatedFrame` otherwise.
    pub fn end_of_stream(&mut self) -> (r: Result<(), PacketError>)
        requires
            old(self).wf(),
        ensures
            final(self).wf(),
            final(self).is_closed(),
            final(self).stream() == old(self).stream(),
            old(self).is_closed() ==> r == Err::<(), PacketError>(PacketError::Closed),
            !old(self).is_closed() ==> r == (if old(self).stream().len() == 0 {
                Ok::<(), PacketError>(())
            } else {
                Err(PacketError::TruncatedFrame)
            }),
    {
        if self.closed {
            return Err(PacketError::Closed);
        }
        self.closed = true;
        self.reader.finish()
    }

    /// Takes in `bytes` read from the stream and returns the packets that
    /// completed, resolved through `registry` in arrival order. An error
    /// other than an unknown packet id closes the connection.
    pub fn receive(&mut self, registry: &PacketByteConverter, bytes: &[u8]) -> (r: Received)
        requires
            old(self).wf(),
            old(self).stream().len() + bytes@.len() <= usize::MAX,
        ensures
            final(self).wf(),
            old(self).is_closed() ==> {
                &&& r.packets@.len() == 0
                &&& r.dropped@.len() == 0
                &&& r.error == Some(PacketError::Closed)
                &&& final(self).is_closed()
                &&& final(self).stream() == old(self).stream()
                &&& final(self).spec_phase() == old(self).spec_phase()
            },
            !old(self).is_closed() ==> {
                let d = drain(registry@, old(self).spec_phase(), old(self).stream() + bytes@);
                &&& r.packets@.map_values(|p: AnyPacket| p@) == d.packets
                &&& r.dropped@ == d.dropped
                &&& r.error == d.error
                &&& final(self).spec_phase() == d.phase
                &&& final(self).stream() == d.rest
                &&& final(self).is_closed() == d.error.is_some()
            },
    {
        if self.closed {
            return Received { packets: Vec::new(), dropped: Vec::new(), error: Some(PacketError::Closed) };
        }
        let ghost d0 = drain(registry@, self.phase, self.reader.stream() + bytes@);
        self.reader.push(bytes);
        let mut packets: Vec<AnyPacket> = Vec::new();
        let mut dropped: Vec<u8> = Vec::new();
        loop
            invariant
                self.reader.wf(),
                !self.closed,
                !old(self).is_closed(),
                d0 == drain(registry@, old(self).spec_phase(), old(self).stream() + bytes@),
                ({
                    let d = drain(registry@, self.phase, self.reader.stream());
                    &&& d0.packets == packets@.map_values(|p: AnyPacket| p@) + d.packets
                    &&& d0.dropped == dropped@ + d.dropped
                    &&& d0.phase == d.phase
                    &&& d0.rest == d.rest
                    &&& d0.error == d.error
                }),
            decreases self.reader.stream().len(),
        {
            let ghost s = self.reader.stream();
            let ghost ph = self.phase;
            let ghost pv = packets@.map_values(|p: AnyPacket| p@);
            match self.reader.next_frame() {
                Ok(None) => {
                    proof {
                        assert(pv + seq![] =~= pv);
                        assert(dropped@ + seq![] =~= dropped@);
                    }
                    return Received { packets, dropped, error: None };
                },
                Err(e) => {
                    self.closed = true;
                    proof {
                        assert(pv + seq![] =~= pv);
                        assert(dropped@ + seq![] =~= dropped@);
                    }
                    return Received { packets, dropped, error: Some(e) };
                },
                Ok(Some(frame)) => {
                    let id = frame.id;
                    match registry.resolve(self.phase, id, frame.payload) {
                        Ok(p) => {
                            self.phase = next_phase(self.phase, &p);
                            packets.push(p);
                            proof {
                                assert(packets@.map_values(|p: AnyPacket| p@) =~= pv.push(p@));
                                let d = drain(registry@, self.phase, self.reader.stream());
                                assert(pv.push(p@) + d.packets =~= pv + (seq![p@] + d.packets));
                            }
                        },
                        Err(PacketError::UnknownPacketID) => {
                            dropped.push(id);
                            proof {
                                let d = drain(registry@, self.phase, self.reader.stream());
                                assert(dropped@ + d.dropped =~= dropped@.drop_last() + (seq![id] + d.dropped));
                            }
                        },
                        Err(e) => {
                            self.closed = true;
                            proof {
                                assert(pv + seq![] =~= pv);
                                assert(dropped@ + seq![] =~= dropped@);
                            }
                            return Received { packets, dropped, error: Some(e) };
                        },
                    }
                },
            }
        }
    }
}

/// The frame of a registered packet, received in pieces: every proper prefix
/// of its bytes yields nothing and is kept whole, and the whole frame yields
/// exactly that packet and leaves nothing behind. So the packet comes out once,
/// however the bytes were cut into reads.
pub proof fn lemma_receive_chunked_frame(
    table: Map<u16, PacketKind>,
    phase: Phase,
    v: AnyPacketView,
    k: nat,
)
    requires
        table.contains_key(registry_key(phase, id_of(v))),
        table[registry_key(phase, id_of(v))] == kind_of(v),
        encodable_any(v),
        wire_of(v).len() + 1 <= u32::MAX,
    ensures
        k < frame_bytes(id_of(v), wire_of(v)).len() ==> drain(
            table,
            phase,
            frame_bytes(id_of(v), wire_of(v)).take(k as int),
        ) == (Drained {
            packets: seq![],
            dropped: seq![],
            phase,
            rest: frame_bytes(id_of(v), wire_of(v)).take(k as int),
            error: None,
        }),
        drain(table, phase, frame_bytes(id_of(v), wire_of(v))) == (Drained {
            packets: seq![v],
            dropped: seq![],
            phase: phase_after(phase, v),
            rest: Seq::<u8>::empty(),
            error: None,
        }),
{
    let f = frame_bytes(id_of(v), wire_of(v));
    lemma_frame_chunking(id_of(v), wire_of(v), Seq::<u8>::empty(), k);
    assert(f + Seq::<u8>::empty() =~= f);
    lemma_resolve_round_trip(table, phase, v);
    assert(f.skip(f.len() as int) =~= Seq::<u8>::empty());
    let d = drain(table, phase_after(phase, v), Seq::<u8>::empty());
    assert(seq![v] + d.packets =~= seq![v]);
}

/// The phase after receiving `p` in `phase`.
fn next_phase(phase: Phase, p: &AnyPacket) -> (r: Phase)
    ensures
        r == phase_after(phase, p@),
{
    match p {
        AnyPacket::Handshake(h) => {
            if phase == Phase::Handshake && h.next_state == NEXT_STATE_STATUS {
                Phase::Status
            } else if phase == Phase::Handshake && h.next_state == NEXT_STATE_LOGIN {
                Phase::Login
            } else {
                phase
            }
        },
    }
}

} // verus!
