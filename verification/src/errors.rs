//! The errors that the protocol reports.
use vstd::prelude::*;

use crate::packets::{packet_type::PacketType, ConnectionId, PacketId};
use crate::socket_addr::SocketAddr;

verus! {

/// What went wrong while decoding, scheduling or handling a packet.
#[derive(Debug)]
pub enum ProtocolError {
    /// The protocol id read from a packet is not this protocol's.
    InvalidProtocolId { got: u32, expected: u32 },
    /// The checksum stored in a packet differs from the one computed over its bytes (which is
    /// nonzero).
    InvalidCrc32 { got: u32, expected: u32 },
    /// A byte slice had the wrong length for an array.
    ArrayConversion,
    /// Bytes did not hold a valid nonzero value.
    BytesConversion,
    /// A value that must be nonzero was zero.
    IntConversion,
    /// A packet of a kind that this side of the protocol does not accept.
    InvalidPacketType(PacketType),
    /// A packet type code that names no kind of packet.
    PacketTypeConversion(u8),
    /// A packet was scheduled for a peer that is not connected.
    ScheduledNotConnected(ConnectionId),
    /// A packet was scheduled for a peer in the wrong state.
    ScheduledInvalidPeer(PacketId),
    /// No peer has this connection id.
    NotFound(ConnectionId),
    /// There is no connected peer to send to.
    NoPeersConnected,
    /// The peer at this address is banned.
    Banned(SocketAddr),
    /// A connection to this address is already under way or established.
    AlreadyConnectingToPeer(SocketAddr),
    /// A packet came from a peer that is in another connection state.
    PeerInAnotherState(SocketAddr),
}

} // verus!
