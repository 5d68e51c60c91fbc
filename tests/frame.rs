use rustmc::errors::PacketError;
use rustmc::frame::{FrameReader, RawFrame};

fn sample_frame() -> Vec<u8> {
    // length 4 = id + 3 payload bytes
    vec![0x04, 0x2a, 0x01, 0x02, 0x03]
}

fn expected() -> RawFrame {
    RawFrame { id: 0x2a, payload: vec![0x01, 0x02, 0x03] }
}

fn feed_in_chunks(bytes: &[u8], cuts: &[usize]) -> Vec<RawFrame> {
    let mut reader = FrameReader::new();
    let mut frames = Vec::new();
    let mut start = 0;
    let mut ends: Vec<usize> = cuts.to_vec();
    ends.push(bytes.len());
    for end in ends {
        reader.push(&bytes[start..end]);
        start = end;
        while let Some(frame) = reader.next_frame().unwrap() {
            frames.push(frame);
        }
    }
    assert!(reader.is_empty());
    assert_eq!(reader.finish(), Ok(()));
    frames
}

#[test]
fn frame_fed_all_at_once() {
    assert_eq!(feed_in_chunks(&sample_frame(), &[]), vec![expected()]);
}

#[test]
fn frame_fed_one_byte_at_a_time() {
    assert_eq!(feed_in_chunks(&sample_frame(), &[1, 2, 3, 4]), vec![expected()]);
}

#[test]
fn frame_fed_in_uneven_splits() {
    assert_eq!(feed_in_chunks(&sample_frame(), &[2]), vec![expected()]);
    assert_eq!(feed_in_chunks(&sample_frame(), &[1, 4]), vec![expected()]);
    assert_eq!(feed_in_chunks(&sample_frame(), &[0, 3, 3]), vec![expected()]);
}

#[test]
fn frame_with_multi_byte_length_prefix() {
    let payload: Vec<u8> = (0..200u32).map(|i| (i % 251) as u8).collect();
    let mut bytes = vec![0xc9, 0x01, 0x07];
    bytes.extend_from_slice(&payload);
    let frames = feed_in_chunks(&bytes, &[1, 2, 50]);
    assert_eq!(frames, vec![RawFrame { id: 0x07, payload }]);
}

#[test]
fn several_frames_in_one_read() {
    let mut bytes = sample_frame();
    bytes.extend_from_slice(&[0x01, 0x09]);
    bytes.extend_from_slice(&[0x02, 0x05, 0xff]);
    let frames = feed_in_chunks(&bytes, &[]);
    assert_eq!(
        frames,
        vec![
            expected(),
            RawFrame { id: 0x09, payload: vec![] },
            RawFrame { id: 0x05, payload: vec![0xff] },
        ]
    );
}

#[test]
fn partial_frame_waits_for_more() {
    let mut reader = FrameReader::new();
    reader.push(&[0x04, 0x2a]);
    assert_eq!(reader.next_frame(), Ok(None));
    assert_eq!(reader.next_frame(), Ok(None));
    assert_eq!(reader.len(), 2);
    assert!(!reader.is_empty());
    assert_eq!(reader.finish(), Err(PacketError::TruncatedFrame));
    reader.push(&[0x01, 0x02, 0x03]);
    assert_eq!(reader.next_frame(), Ok(Some(expected())));
    assert_eq!(reader.finish(), Ok(()));
}

#[test]
fn zero_length_frame_is_rejected() {
    let mut reader = FrameReader::new();
    reader.push(&[0x00, 0x01]);
    assert_eq!(reader.next_frame(), Err(PacketError::EmptyFrame));
}

#[test]
fn overlong_length_prefix_is_rejected() {
    let mut reader = FrameReader::new();
    reader.push(&[0x80, 0x80, 0x80, 0x80, 0x80, 0x01]);
    assert_eq!(reader.next_frame(), Err(PacketError::InvalidVarInt));
}

#[test]
fn empty_reader_finishes_cleanly() {
    let reader = FrameReader::new();
    assert!(reader.is_empty());
    assert_eq!(reader.finish(), Ok(()));
}
