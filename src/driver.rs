//! Vocabulary of a randomized driver that exercises a session from the
//! guest's side.
use vstd::prelude::*;

verus! {

/// What the driver does next.
#[derive(Clone, Copy, Debug, PartialEq, Eq, Structural)]
pub enum StovspFuzzAction {
    /// Send a well-framed packet whose payload is arbitrary.
    SendDataPacket,
    /// Send a packet of an arbitrary transport kind.
    SendRawPacket,
}

/// Kinds of packet the transport distinguishes.
#[derive(Clone, Copy, Debug, PartialEq, Eq, Structural)]
pub enum OutgoingPacketType {
    InBandNoCompletion,
    InBandWithCompletion,
    Completion,
    /// A packet with a guest memory range attached for zero-copy transfer.
    GpaDirect,
}

} // verus!
