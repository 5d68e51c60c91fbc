use rustmc::errors::ConnectionError;
use rustmc::handshake::HandshakePacket;
use rustmc::packet::{PacketFormatter, Phase};
use rustmc::registry::PacketKind;
use rustmc::server::MinecraftServer;
use rustmc::session::{DuplicatePolicy, Player, UUID};

fn uuid(n: u8) -> UUID {
    UUID { data: [n; 16] }
}

#[test]
fn new_server_has_core_registry_and_no_players() {
    let server: MinecraftServer<u32> = MinecraftServer::new("127.0.0.1", 8080);
    assert_eq!(server.address(), "127.0.0.1");
    assert_eq!(server.port(), 8080);
    assert!(server.get_players().is_empty());
    assert_eq!(server.registry().get_packet(Phase::Handshake, 0x00), Some(PacketKind::Handshake));
}

#[test]
fn login_handshake_names_the_server() {
    let server: MinecraftServer<u32> = MinecraftServer::new("localhost", 25565);
    let expected = HandshakePacket {
        protocol_version: 764,
        server_address: String::from("localhost"),
        server_port: 25565,
        next_state: 2,
    };
    assert_eq!(server.login_handshake(), expected);
}

#[test]
fn players_are_found_by_name_and_uuid() {
    let mut server: MinecraftServer<u32> = MinecraftServer::new("127.0.0.1", 8080);
    server.add_player(Player::new(1, "alice", uuid(1))).unwrap();
    server.add_player(Player::new(2, "bob", uuid(2))).unwrap();
    assert_eq!(server.get_player_username("bob").unwrap().uuid, uuid(2));
    assert_eq!(server.get_player_uuid(uuid(1)).unwrap().username, "alice");
    assert!(matches!(
        server.add_player(Player::new(3, "mallory", uuid(1))),
        Err(ConnectionError::DuplicateIdentity)
    ));
    assert_eq!(server.remove_player(uuid(1)).unwrap().connection, 1);
    assert!(server.get_player_uuid(uuid(1)).is_none());
    assert_eq!(server.get_players().len(), 1);
}

#[test]
fn replace_policy_evicts_the_live_session() {
    let mut server: MinecraftServer<u32> =
        MinecraftServer::with_policy("127.0.0.1", 8080, DuplicatePolicy::Replace);
    server.add_player(Player::new(1, "alice", uuid(1))).unwrap();
    let evicted = server.add_player(Player::new(7, "alice", uuid(1))).unwrap();
    assert_eq!(evicted.unwrap().connection, 1);
    assert_eq!(server.get_player_uuid(uuid(1)).unwrap().connection, 7);
}

#[test]
fn broadcast_targets_every_session_with_one_frame() {
    let mut server: MinecraftServer<u32> = MinecraftServer::new("localhost", 25565);
    server.add_player(Player::new(1, "alice", uuid(1))).unwrap();
    server.add_player(Player::new(2, "bob", uuid(2))).unwrap();
    let packet = server.login_handshake();
    let b = server.broadcast_packet(&packet).unwrap();
    assert_eq!(b.frame, PacketFormatter::format_data(&packet).unwrap());
    let targets: Vec<u32> = b.targets.iter().map(|p| p.connection).collect();
    assert_eq!(targets, vec![1, 2]);
}
