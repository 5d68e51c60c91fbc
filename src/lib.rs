//! Wire-protocol engine of a block-game server: the VarInt codec, the frame
//! reader, the packet registry, connection decisions and the session directory.

pub mod varint;
pub mod bytes_buf;
pub mod errors;
pub mod frame;
pub mod packet;
pub mod handshake;
pub mod registry;
pub mod session;
pub mod connection;
pub mod server;
