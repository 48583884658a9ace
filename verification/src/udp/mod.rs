//! The datagram transport: the wire packet, sequence numbers, burst recovery
//! and the redundant client.

pub mod packet;
pub mod sequence;
pub mod recovery;
pub mod client;
