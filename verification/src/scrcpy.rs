//! The wire formats of the device server: session metadata, device names
//! and media packets.

pub mod connection;
pub mod media;
pub mod session;
