//! The server context: its address, the packet registry built at startup,
//! and the directory of live sessions.

use vstd::prelude::*;

use crate::errors::{ConnectionError, PacketError};
use crate::handshake::{
    HandshakePacket, HandshakeView, HANDSHAKE_ID, NEXT_STATE_LOGIN, PROTOCOL_VERSION,
};
use crate::packet::{Packet, PacketFormatter, Phase};
use crate::registry::{registry_key, PacketByteConverter, PacketKind};
use crate::session::{DuplicatePolicy, Identity, Player, SessionDirectory, UUID};

verus! {

/// One frame to be sent, and the sessions to send it to.
pub struct Broadcast<C> {
    pub frame: Vec<u8>,
    pub targets: Vec<Player<C>>,
}

/// A server: where it listens, how it reads packets, who is connected.
pub struct MinecraftServer<C> {
    address: String,
    port: u16,
    registry: PacketByteConverter,
    players: SessionDirectory<C>,
}

impl<C> MinecraftServer<C> {
    pub closed spec fn wf(&self) -> bool {
        self.players.wf()
    }

    /// The address the server listens on.
    pub closed spec fn spec_address(&self) -> Seq<char> {
        self.address@
    }

    /// The port the server listens on.
    pub closed spec fn spec_port(&self) -> u16 {
        self.port
    }

    /// The live sessions' identities, in insertion order.
    pub closed spec fn sessions(&self) -> Seq<Identity> {
        self.players@
    }

    /// The registered packet types.
    pub closed spec fn packet_table(&self) -> Map<u16, PacketKind> {
        self.registry@
    }

    pub closed spec fn spec_policy(&self) -> DuplicatePolicy {
        self.players.spec_policy()
    }

    /// A server for `address:port` with the engine's packets registered,
    /// no session, and duplicate unique ids refused.
    pub fn new(address: &str, port: u16) -> (r: MinecraftServer<C>)
        ensures
            r.wf(),
            r.spec_address() == address@,
            r.spec_port() == port,
            r.sessions() == Seq::<Identity>::empty(),
            r.spec_policy() == DuplicatePolicy::Reject,
            r.packet_table() == map![registry_key(Phase::Handshake, HANDSHAKE_ID) => PacketKind::Handshake],
    {
        MinecraftServer::with_policy(address, port, DuplicatePolicy::Reject)
    }

    /// As `new`, with `policy` for duplicate unique ids.
    pub fn with_policy(address: &str, port: u16, policy: DuplicatePolicy) -> (r: MinecraftServer<C>)
        ensures
            r.wf(),
            r.spec_address() == address@,
            r.spec_port() == port,
            r.sessions() == Seq::<Identity>::empty(),
            r.spec_policy() == policy,
            r.packet_table() == map![registry_key(Phase::Handshake, HANDSHAKE_ID) => PacketKind::Handshake],
    {
        MinecraftServer {
            address: address.to_owned(),
            port,
            registry: PacketByteConverter::with_core_packets(),
            players: SessionDirectory::new(policy),
        }
    }

    pub fn address(&self) -> (r: &str)
        ensures
            r@ == self.spec_address(),
    {
        self.address.as_str()
    }

    pub fn port(&self) -> (r: u16)
        ensures
            r == self.spec_port(),
    {
        self.port
    }

    /// The registry, shared read-only with every connection.
    pub fn registry(&self) -> (r: &PacketByteConverter)
        ensures
            r@ == self.packet_table(),
    {
        &self.registry
    }

    /// The handshake a client of this server opens with.
    pub fn login_handshake(&self) -> (r: HandshakePacket)
        ensures
            r@ == (HandshakeView {
                protocol_version: PROTOCOL_VERSION,
                server_address: self.spec_address(),
                server_port: self.spec_port(),
                next_state: NEXT_STATE_LOGIN,
            }),
    {
        HandshakePacket::for_login(self.address.as_str(), self.port)
    }

    /// Adds the session of a player who completed login, under the server's
    /// duplicate policy.
    pub fn add_player(&mut self, player: Player<C>) -> (r: Result<Option<Player<C>>, ConnectionError>)
        requires
            old(self).wf(),
        ensures
            final(self).wf(),
            final(self).packet_table() == old(self).packet_table(),
            final(self).spec_policy() == old(self).spec_policy(),
            (forall|j: int|
                0 <= j < old(self).sessions().len() ==> old(self).sessions()[j].uuid != player.uuid)
                ==> {
                &&& r matches Ok(None)
                &&& final(self).sessions() == old(self).sessions().push(player.identity())
            },
            forall|i: int|
                0 <= i < old(self).sessions().len() && old(self).sessions()[i].uuid == player.uuid
                    ==> {
                    match old(self).spec_policy() {
                        DuplicatePolicy::Reject => r == Err::<Option<Player<C>>, ConnectionError>(
                            ConnectionError::DuplicateIdentity,
                        ) && final(self).sessions() == old(self).sessions(),
                        DuplicatePolicy::Replace => r matches Ok(Some(p)) && p.identity() == old(
                            self,
                        ).sessions()[i] && final(self).sessions() == old(self).sessions().remove(
                            i,
                        ).push(player.identity()),
                    }
                },
    {
        proof {
            assert(old(self).sessions() == old(self).players@);
        }
        let r = self.players.insert(player);
        proof {
            assert(self.sessions() == self.players@);
        }
        r
    }

    /// Removes the session of the player with unique id `uuid`.
    pub fn remove_player(&mut self, uuid: UUID) -> (r: Option<Player<C>>)
        requires
            old(self).wf(),
        ensures
            final(self).wf(),
            final(self).packet_table() == old(self).packet_table(),
            final(self).spec_policy() == old(self).spec_policy(),
            match r {
                Some(p) => exists|i: int|
                    0 <= i < old(self).sessions().len() && old(self).sessions()[i].uuid == uuid
                        && p.identity() == old(self).sessions()[i] && final(self).sessions() == old(
                        self,
                    ).sessions().remove(i),
                None => final(self).sessions() == old(self).sessions() && forall|j: int|
                    0 <= j < old(self).sessions().len() ==> old(self).sessions()[j].uuid != uuid,
            },
    {
        let r = self.players.remove(uuid);
        proof {
            assert(old(self).sessions() == old(self).players@);
            assert(self.sessions() == self.players@);
            if r is Some {
                let p = r->0;
                let i = choose|i: int|
                    0 <= i < old(self).players@.len() && old(self).players@[i].uuid == uuid
                        && p.identity() == old(self).players@[i] && self.players@ == old(
                        self,
                    ).players@.remove(i);
                assert(old(self).sessions()[i] == old(self).players@[i]);
            }
        }
        r
    }
}

impl<C: Clone> MinecraftServer<C> {
    /// A copy of the live sessions, in insertion order.
    pub fn get_players(&self) -> (r: Vec<Player<C>>)
        ensures
            r@.len() == self.sessions().len(),
            forall|i: int| 0 <= i < r@.len() ==> r@[i].identity() == self.sessions()[i],
    {
        self.players.snapshot()
    }

    /// The first session with username `username`.
    pub fn get_player_username(&self, username: &str) -> (r: Option<Player<C>>)
        ensures
            match r {
                Some(p) => exists|i: int|
                    0 <= i < self.sessions().len() && self.sessions()[i] == p.identity()
                        && p.username@ == username@ && forall|j: int|
                        0 <= j < i ==> self.sessions()[j].username != username@,
                None => forall|j: int|
                    0 <= j < self.sessions().len() ==> self.sessions()[j].username != username@,
            },
    {
        let r = self.players.find_by_name(username);
        proof {
            if r is Some {
                let p = r->0;
                let i = choose|i: int|
                    0 <= i < self.players@.len() && self.players@[i] == p.identity()
                        && p.username@ == username@ && forall|j: int|
                        0 <= j < i ==> self.players@[j].username != username@;
                assert(self.sessions()[i] == self.players@[i]);
            }
        }
        r
    }

    /// The session with unique id `uuid`.
    pub fn get_player_uuid(&self, uuid: UUID) -> (r: Option<Player<C>>)
        ensures
            match r {
                Some(p) => p.uuid == uuid && exists|i: int|
                    0 <= i < self.sessions().len() && self.sessions()[i] == p.identity(),
                None => forall|j: int|
                    0 <= j < self.sessions().len() ==> self.sessions()[j].uuid != uuid,
            },
    {
        let r = self.players.find_by_id(uuid);
        proof {
            if r is Some {
                let p = r->0;
                let i = choose|i: int| 0 <= i < self.players@.len() && self.players@[i] == p.identity();
                assert(self.sessions()[i] == self.players@[i]);
            }
        }
        r
    }

    /// The frame of `packet` and every live session to send it to; each send
    /// is independent of the others.
    pub fn broadcast_packet<P: Packet>(&self, packet: &P) -> (r: Result<Broadcast<C>, PacketError>)
        ensures
            match PacketFormatter::format_spec(P::packet_id(packet@), P::wire(packet@)) {
                Ok(w) => r matches Ok(b) && b.frame@ == w && b.targets@.len()
                    == self.sessions().len() && forall|i: int|
                    0 <= i < b.targets@.len() ==> b.targets@[i].identity() == self.sessions()[i],
                Err(e) => r matches Err(e2) && e2 == e,
            },
    {
        let frame = PacketFormatter::format_data(packet)?;
        Ok(Broadcast { frame, targets: self.players.snapshot() })
    }
}

} // verus!
