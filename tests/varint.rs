use bytes::BytesMut;
use rustmc::packet::PacketFormatter;
use rustmc::varint::{decode_varint, encode_varint, write_varint, VarIntDecode};

#[test]
fn decode_empty_buffer_is_incomplete() {
    assert_eq!(decode_varint(&[]), VarIntDecode::Incomplete);
}

#[test]
fn decode_five_continuation_bytes_is_invalid() {
    assert_eq!(decode_varint(&[0x80, 0x80, 0x80, 0x80, 0x80]), VarIntDecode::Invalid);
    assert_eq!(decode_varint(&[0xff, 0xff, 0xff, 0xff, 0xff, 0x01]), VarIntDecode::Invalid);
}

#[test]
fn decode_unterminated_prefix_is_incomplete() {
    assert_eq!(decode_varint(&[0x80]), VarIntDecode::Incomplete);
    assert_eq!(decode_varint(&[0xff, 0xff, 0xff, 0xff]), VarIntDecode::Incomplete);
}

#[test]
fn encode_known_values() {
    let cases: Vec<(u32, Vec<u8>)> = vec![
        (0, vec![0x00]),
        (1, vec![0x01]),
        (127, vec![0x7f]),
        (128, vec![0x80, 0x01]),
        (255, vec![0xff, 0x01]),
        (300, vec![0xac, 0x02]),
        (25565, vec![0xdd, 0xc7, 0x01]),
        (2097151, vec![0xff, 0xff, 0x7f]),
        (2097152, vec![0x80, 0x80, 0x80, 0x01]),
        (u32::MAX, vec![0xff, 0xff, 0xff, 0xff, 0x0f]),
    ];
    for (value, bytes) in cases {
        assert_eq!(encode_varint(value), bytes, "encoding of {}", value);
    }
}

#[test]
fn decode_uses_seven_data_bits() {
    // 0x88 carries the data bits 0x08; a mask of 0xF7 would keep 0x80 too.
    assert_eq!(decode_varint(&[0x88, 0x01]), VarIntDecode::Complete { value: 136, len: 2 });
}

#[test]
fn round_trip_with_trailing_bytes() {
    for value in [0u32, 1, 127, 128, 16383, 16384, 764, 25565, 1 << 28, u32::MAX] {
        let mut bytes = encode_varint(value);
        let len = bytes.len();
        assert!(len <= 5);
        bytes.extend_from_slice(&[0xaa, 0x00, 0x80]);
        assert_eq!(decode_varint(&bytes), VarIntDecode::Complete { value: value as u64, len });
    }
}

#[test]
fn write_varint_appends() {
    let mut out = vec![0x42];
    write_varint(&mut out, 300);
    assert_eq!(out, vec![0x42, 0xac, 0x02]);
}

#[test]
fn read_varint_consumes_only_a_complete_prefix() {
    let mut buffer = BytesMut::new();
    buffer.extend_from_slice(&[0xac, 0x02, 0x09]);
    assert_eq!(PacketFormatter::read_varint(&mut buffer), VarIntDecode::Complete { value: 300, len: 2 });
    assert_eq!(&buffer[..], &[0x09]);

    let mut partial = BytesMut::new();
    partial.extend_from_slice(&[0x80, 0x80]);
    assert_eq!(PacketFormatter::read_varint(&mut partial), VarIntDecode::Incomplete);
    assert_eq!(&partial[..], &[0x80, 0x80]);

    let mut invalid = BytesMut::new();
    invalid.extend_from_slice(&[0x80; 6]);
    assert_eq!(PacketFormatter::read_varint(&mut invalid), VarIntDecode::Invalid);
    assert_eq!(invalid.len(), 6);
}
