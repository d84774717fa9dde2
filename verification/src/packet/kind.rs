//! The kinds of packet of the earlier layout, and the status code of each header kind.
use vstd::prelude::*;

use super::header::{ConnectionAccepted, ConnectionRequest, DataTransfer, Heartbeat};
use super::{StatusCode, CONNECTION_ACCEPTED, CONNECTION_REQUEST, DATA_TRANSFER, HEARTBEAT};
use crate::packets::Ack;

verus! {

/// What a packet of the earlier layout is.
#[derive(Debug, Clone, PartialEq, Copy)]
pub enum PacketKind {
    ConnectionRequest,
    ConnectionAccepted,
    ConnectionDenied,
    Ack(Ack),
    DataTransfer,
    Heartbeat,
}

impl From<ConnectionRequest> for StatusCode {
    fn from(kind: ConnectionRequest) -> (r: Self) {
        CONNECTION_REQUEST
    }
}

impl vstd::std_specs::convert::FromSpecImpl<ConnectionRequest> for StatusCode {
    open spec fn obeys_from_spec() -> bool {
        true
    }

    open spec fn from_spec(kind: ConnectionRequest) -> Self {
        CONNECTION_REQUEST
    }
}

impl From<ConnectionAccepted> for StatusCode {
    fn from(kind: ConnectionAccepted) -> (r: Self) {
        CONNECTION_ACCEPTED
    }
}

impl vstd::std_specs::convert::FromSpecImpl<ConnectionAccepted> for StatusCode {
    open spec fn obeys_from_spec() -> bool {
        true
    }

    open spec fn from_spec(kind: ConnectionAccepted) -> Self {
        CONNECTION_ACCEPTED
    }
}

impl From<DataTransfer> for StatusCode {
    fn from(kind: DataTransfer) -> (r: Self) {
        DATA_TRANSFER
    }
}

impl vstd::std_specs::convert::FromSpecImpl<DataTransfer> for StatusCode {
    open spec fn obeys_from_spec() -> bool {
        true
    }

    open spec fn from_spec(kind: DataTransfer) -> Self {
        DATA_TRANSFER
    }
}

impl From<Heartbeat> for StatusCode {
    fn from(kind: Heartbeat) -> (r: Self) {
        HEARTBEAT
    }
}

impl vstd::std_specs::convert::FromSpecImpl<Heartbeat> for StatusCode {
    open spec fn obeys_from_spec() -> bool {
        true
    }

    open spec fn from_spec(kind: Heartbeat) -> Self {
        HEARTBEAT
    }
}

} // verus!
