//! The control messages of the earlier packet layout.
use vstd::prelude::*;

use crate::packets::ConnectionId;
use crate::payload::Payload;

verus! {

/// A connection request was accepted under a connection id.
#[derive(Debug, PartialEq, Clone, Eq, Hash, PartialOrd)]
pub struct ConnectionAccepted {
    connection_id: ConnectionId,
}

/// A connection is ended.
#[derive(Debug, PartialEq, Clone, Eq, Hash, PartialOrd)]
pub struct ConnectionTerminate {
    connection_id: ConnectionId,
}

/// A payload for a connected peer.
#[derive(Debug, PartialEq, Clone, PartialOrd)]
pub struct DataTransfer {
    pub payload: Payload,
    pub connection_id: ConnectionId,
}

/// A message that keeps a connection alive.
#[derive(Debug, PartialEq, Clone, Eq, Hash, PartialOrd)]
pub struct Heartbeat {
    pub connection_id: ConnectionId,
}

} // verus!
