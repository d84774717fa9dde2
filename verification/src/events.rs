//! What the protocol reports to its user.
use vstd::prelude::*;

use crate::errors::ProtocolError;
use crate::packets::{ConnectionId, Payload};
use crate::socket_addr::SocketAddr;

verus! {

/// Events that only one side of the protocol reports.
pub trait ServiceEvent {

}

/// An event for the user: a failure, a payload that arrived, or an event of one side.
#[derive(Debug)]
pub enum ProtocolEvent<S: ServiceEvent> {
    Fail(ProtocolError),
    DataTransfer { connection_id: ConnectionId, payload: Payload },
    ServiceEvent(S),
}

/// Events of a server.
#[derive(Debug, PartialEq, Clone)]
pub enum ServerEvent {
    ConnectionRequest { connection_id: ConnectionId, remote: SocketAddr },
}

/// Events of a client.
#[derive(Debug, PartialEq, Clone)]
pub enum ClientEvent {
    ConnectionAccepted { connection_id: ConnectionId },
}

impl ServiceEvent for ServerEvent {

}

impl ServiceEvent for ClientEvent {

}

impl<S: ServiceEvent> ProtocolEvent<S> {
    /// The event that reports `error`.
    pub fn from(error: ProtocolError) -> (r: Self)
        ensures
            r == ProtocolEvent::<S>::Fail(error),
    {
        ProtocolEvent::Fail(error)
    }
}

/// Whether `e` reports the payload `payload` from the peer `connection_id`.
pub open spec fn is_data_transfer_event<S: ServiceEvent>(
    e: ProtocolEvent<S>,
    connection_id: ConnectionId,
    payload: Seq<u8>,
) -> bool {
    e matches ProtocolEvent::DataTransfer { connection_id: c, payload: p } && c == connection_id
        && p@ == payload
}

} // verus!
