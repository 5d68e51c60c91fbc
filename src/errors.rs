//! Error kinds of the protocol engine.

use vstd::prelude::*;

verus! {

/// Failures of framing, packet resolution and sending.
#[derive(Debug, Clone, Copy, PartialEq, Eq, Structural)]
pub enum PacketError {
    /// No deserializer is registered for the frame's phase and packet id.
    UnknownPacketID,
    /// The payload does not have the shape its packet type declares.
    DeserializeError,
    /// A second registration for a phase and packet id already taken.
    DuplicateID,
    /// A length prefix of five bytes that all carry the continuation bit.
    InvalidVarInt,
    /// A frame whose length prefix is zero: it has no room for a packet id.
    EmptyFrame,
    /// The stream ended in the middle of a frame.
    TruncatedFrame,
    /// A payload too long for its length to be written as a frame prefix.
    ErrorFormattingPacket,
    /// The stream failed while writing or reading.
    IOError,
    /// The connection was closed before the operation.
    Closed,
}

/// Failures of a connection's protocol phases and of the session directory.
#[derive(Debug, Clone, Copy, PartialEq, Eq, Structural)]
pub enum ConnectionError {
    InvalidHandshake,
    InvalidLogin,
    InvalidStatus,
    InvalidPlay,
    /// A session with the same unique id is already live.
    DuplicateIdentity,
}

} // verus!
