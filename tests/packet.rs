use rustmc::errors::PacketError;
use rustmc::frame::FrameReader;
use rustmc::handshake::HandshakePacket;
use rustmc::packet::{Packet, PacketFormatter, Phase};
use rustmc::registry::{AnyPacket, PacketByteConverter, PacketKind};

fn sample_handshake() -> HandshakePacket {
    HandshakePacket {
        protocol_version: 764,
        server_address: String::from("localhost"),
        server_port: 25565,
        next_state: 2,
    }
}

fn sample_payload() -> Vec<u8> {
    let mut bytes = vec![0xfc, 0x02, 9, 0, 0, 0, 0, 0, 0, 0];
    bytes.extend_from_slice(b"localhost");
    bytes.extend_from_slice(&[0xdd, 0x63, 0x02]);
    bytes
}

#[test]
fn handshake_serializes_field_by_field() {
    let packet = sample_handshake();
    assert_eq!(packet.id(), 0x00);
    assert_eq!(packet.serialize(), sample_payload());
}

#[test]
fn handshake_deserializes_its_own_bytes() {
    let packet = sample_handshake();
    assert_eq!(HandshakePacket::deserialize(packet.serialize()), Some(packet));
}

#[test]
fn handshake_round_trips_non_ascii_address() {
    let packet = HandshakePacket {
        protocol_version: 1,
        server_address: String::from("serveur-é.example"),
        server_port: 1,
        next_state: 1,
    };
    assert_eq!(HandshakePacket::deserialize(packet.serialize()), Some(packet));
}

#[test]
fn handshake_rejects_short_or_malformed_payloads() {
    assert_eq!(HandshakePacket::deserialize(vec![]), None);
    let mut truncated = sample_payload();
    truncated.pop();
    assert_eq!(HandshakePacket::deserialize(truncated), None);
    let mut bad_utf8 = sample_payload();
    bad_utf8[10] = 0xff;
    assert_eq!(HandshakePacket::deserialize(bad_utf8), None);
}

#[test]
fn handshake_ignores_trailing_bytes() {
    let mut bytes = sample_payload();
    bytes.push(0x55);
    assert_eq!(HandshakePacket::deserialize(bytes), Some(sample_handshake()));
}

#[test]
fn format_data_frames_the_payload() {
    let mut expected = vec![23, 0x00];
    expected.extend_from_slice(&sample_payload());
    assert_eq!(PacketFormatter::format_data(&sample_handshake()), Ok(expected));
}

#[test]
fn for_login_fills_protocol_and_next_state() {
    let packet = HandshakePacket::for_login("localhost", 25565);
    assert_eq!(packet, sample_handshake());
}

#[test]
fn handshake_round_trips_through_the_whole_pipeline() {
    let packet = sample_handshake();
    let bytes = PacketFormatter::format_data(&packet).unwrap();
    let mut reader = FrameReader::new();
    for b in &bytes {
        reader.push(&[*b]);
    }
    let frame = reader.next_frame().unwrap().unwrap();
    assert_eq!(reader.next_frame(), Ok(None));
    let registry = PacketByteConverter::with_core_packets();
    let resolved = registry.resolve(Phase::Handshake, frame.id, frame.payload).unwrap();
    assert_eq!(resolved, AnyPacket::Handshake(packet));
}

#[test]
fn resolve_round_trips_a_registered_packet() {
    let packet = sample_handshake();
    let mut registry = PacketByteConverter::new();
    assert_eq!(registry.register_packet(Phase::Login, 0x00, PacketKind::Handshake), Ok(()));
    let resolved = registry.resolve(Phase::Login, packet.id(), packet.serialize());
    assert_eq!(resolved, Ok(AnyPacket::Handshake(packet)));
}

#[test]
fn resolve_unregistered_id_is_unknown() {
    let registry = PacketByteConverter::with_core_packets();
    assert_eq!(
        registry.resolve(Phase::Handshake, 0x05, sample_payload()),
        Err(PacketError::UnknownPacketID)
    );
    assert_eq!(
        registry.resolve(Phase::Play, 0x00, sample_payload()),
        Err(PacketError::UnknownPacketID)
    );
    assert_eq!(
        PacketByteConverter::new().resolve(Phase::Handshake, 0x00, vec![]),
        Err(PacketError::UnknownPacketID)
    );
}

#[test]
fn resolve_malformed_payload_is_deserialize_error() {
    let registry = PacketByteConverter::with_core_packets();
    assert_eq!(
        registry.resolve(Phase::Handshake, 0x00, vec![1, 2, 3]),
        Err(PacketError::DeserializeError)
    );
}

#[test]
fn duplicate_registration_is_refused() {
    let mut registry = PacketByteConverter::with_core_packets();
    assert_eq!(
        registry.register_packet(Phase::Handshake, 0x00, PacketKind::Handshake),
        Err(PacketError::DuplicateID)
    );
    assert_eq!(registry.register_packet(Phase::Status, 0x00, PacketKind::Handshake), Ok(()));
    assert_eq!(registry.get_packet(Phase::Status, 0x00), Some(PacketKind::Handshake));
    assert_eq!(registry.get_packet(Phase::Play, 0x00), None);
}
