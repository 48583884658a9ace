//! Real-time audio streaming between two endpoints over a lossy datagram path:
//! the wire format, the redundant transport state machine, device negotiation
//! and the audio callbacks that move samples through lock-free ring buffers.
//!
//! Samples travel through this crate as `u32` words holding the IEEE-754
//! binary32 bit pattern of each sample, so that every byte on the wire is
//! accounted for exactly.

pub mod audio;
pub mod handshake;
pub mod negotiation;
pub mod ringbuffer;
pub mod stream;
pub mod udp;
pub mod util;
pub mod wire;
