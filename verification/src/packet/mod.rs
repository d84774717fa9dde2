//! The earlier packet layout: a header with a status code, and the kinds of packet it names.
pub mod header;
pub mod kind;
pub mod received;

use vstd::prelude::*;

use crate::packets::{ConnectionId, PacketId};

verus! {

/// The code in a header that says what a packet is for.
pub type StatusCode = u16;

/// A code that no packet uses.
pub const RESERVED: StatusCode = 0;

/// A peer asks to connect.
pub const CONNECTION_REQUEST: StatusCode = 100;

/// A challenge sent to a peer that asks to connect.
pub const CHALLENGE_REQUEST: StatusCode = 200;

/// The answer to a challenge.
pub const CHALLENGE_RESPONSE: StatusCode = 300;

/// A connection request is accepted.
pub const CONNECTION_ACCEPTED: StatusCode = 400;

/// A connection request is denied.
pub const CONNECTION_DENIED: StatusCode = 500;

/// A packet that only keeps a connection alive.
pub const HEARTBEAT: StatusCode = 600;

/// A packet that carries a payload.
pub const DATA_TRANSFER: StatusCode = 700;

/// A packet that acknowledges another.
pub const ACK: StatusCode = 800;

/// What follows a packet's payload: the connection id, which a connection request does not
/// have, and the nonzero checksum.
#[derive(Debug, PartialEq, Clone, Eq, Hash, PartialOrd)]
pub struct Footer {
    pub connection_id: Option<ConnectionId>,
    pub crc32: u32,
}

/// A packet of the earlier layout, with its id and its state.
#[derive(Debug, Clone, PartialEq)]
pub struct Packet<State> {
    pub id: PacketId,
    pub state: State,
}

} // verus!
