//! The packets of the first layout: a header, a state and a message, and a footer with the
//! connection id and the checksum.
use vstd::prelude::*;

use crate::duration::Duration;
use crate::packet::header::HeaderInfo;
use crate::packets::PacketId;
use crate::socket_addr::SocketAddr;

pub use crate::packet::{
    Footer, StatusCode, ACK, CHALLENGE_REQUEST, CHALLENGE_RESPONSE, CONNECTION_ACCEPTED,
    CONNECTION_DENIED, CONNECTION_REQUEST, DATA_TRANSFER, HEARTBEAT, RESERVED,
};

verus! {

/// A packet in the state `State` that carries the message `MessageType`.
#[derive(Debug, Clone, PartialEq)]
pub struct Packet<State, MessageType> {
    pub id: PacketId,
    pub header_info: HeaderInfo,
    pub state: State,
    pub message: MessageType,
}

/// The state of a packet that was sent at `time` to `destination`.
#[derive(Debug, Clone, PartialEq)]
pub struct Sent {
    pub time: Duration,
    pub destination: SocketAddr,
}

} // verus!
