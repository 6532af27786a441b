//! Wire protocol messages exchanged between peers over the network.
use vstd::prelude::*;

use crate::clipboard::ClipContent;
use crate::DeviceId;

verus! {

/// Current wire protocol version.
pub const PROTOCOL_VERSION: u16 = 1;

/// Supported content capabilities advertised during the handshake.
#[derive(Debug, Clone, Copy, PartialEq, Eq, Structural)]
pub enum Capability {
    Text,
}

/// Reasons why a peer is closing the network connection.
#[derive(Debug, Clone, Copy, PartialEq, Eq, Structural)]
pub enum GoodbyeReason {
    Shutdown,
    Unpaired,
    ProtocolError,
    Duplicate,
}

/// Top-level wire protocol messages exchanged between peers over the network.
/// A `ClipUpdate`'s `update_id` is the big-endian value of its UUID.
#[derive(Debug, Clone, PartialEq, Eq)]
pub enum Message {
    Hello {
        protocol_version: u16,
        device_id: DeviceId,
        device_name: String,
        capabilities: Vec<Capability>,
    },
    ClipUpdate {
        update_id: u128,
        origin: DeviceId,
        lamport: u64,
        created_at_ms: u64,
        content: ClipContent,
    },
    Ping { nonce: u64 },
    Pong { nonce: u64 },
    Goodbye { reason: GoodbyeReason },
}

} // verus!
