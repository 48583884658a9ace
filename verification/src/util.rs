use vstd::prelude::*;

verus! {

/// Which direction a stream instance serves.
#[derive(Clone, Copy, Debug, PartialEq, Eq, Structural)]
pub enum Mode {
    /// Capture from the input device and send to the peer.
    Send,
    /// Receive from the peer and play on the output device.
    Return,
}

} // verus!
