//! The results of decoding a packet, for either side of the protocol.
use vstd::prelude::*;

use super::packet_type::{packet_type_of, PacketType};
use super::{
    ConnectionAccepted, ConnectionAcceptedView, ConnectionRequest, ConnectionRequestView,
    DataTransfer, DataTransferView, Fragment, FragmentView, Heartbeat, HeartbeatView, Packet,
    PacketView, Received, Sequence, Ack, CONNECTION_ACCEPTED, CONNECTION_REQUEST,
};
use crate::errors::ProtocolError;

verus! {

/// A packet whose header was read: the buffer (protocol id included), where its header ends,
/// and the header fields.
#[derive(Debug, Clone, PartialEq)]
pub struct PartialDecode {
    pub buffer: Vec<u8>,
    pub buffer_position: usize,
    pub packet_type: PacketType,
    pub sequence: Sequence,
    pub ack: Ack,
}

/// A decoded packet that a client accepts.
#[derive(Debug, Clone, PartialEq)]
pub enum DecodedForClient {
    ConnectionAccepted { packet: Packet<Received, ConnectionAccepted> },
    DataTransfer { packet: Packet<Received, DataTransfer> },
    Fragment { packet: Packet<Received, Fragment> },
    Heartbeat { packet: Packet<Received, Heartbeat> },
}

/// A decoded packet that a server accepts.
#[derive(Debug, Clone, PartialEq)]
pub enum DecodedForServer {
    ConnectionRequest { packet: Packet<Received, ConnectionRequest> },
    DataTransfer { packet: Packet<Received, DataTransfer> },
    Fragment { packet: Packet<Received, Fragment> },
    Heartbeat { packet: Packet<Received, Heartbeat> },
}

/// A decoded packet of any kind.
#[derive(Debug, Clone, PartialEq)]
pub enum DecodedCommon {
    ConnectionRequest { packet: Packet<Received, ConnectionRequest> },
    ConnectionAccepted { packet: Packet<Received, ConnectionAccepted> },
    DataTransfer { packet: Packet<Received, DataTransfer> },
    Fragment { packet: Packet<Received, Fragment> },
    Heartbeat { packet: Packet<Received, Heartbeat> },
}

/// A decoded packet seen as plain values.
pub enum DecodedView {
    ConnectionRequest(PacketView<Received, ConnectionRequestView>),
    ConnectionAccepted(PacketView<Received, ConnectionAcceptedView>),
    DataTransfer(PacketView<Received, DataTransferView>),
    Fragment(PacketView<Received, FragmentView>),
    Heartbeat(PacketView<Received, HeartbeatView>),
}

impl View for DecodedCommon {
    type V = DecodedView;

    open spec fn view(&self) -> DecodedView {
        match self {
            DecodedCommon::ConnectionRequest { packet } => DecodedView::ConnectionRequest(packet@),
            DecodedCommon::ConnectionAccepted { packet } => DecodedView::ConnectionAccepted(
                packet@,
            ),
            DecodedCommon::DataTransfer { packet } => DecodedView::DataTransfer(packet@),
            DecodedCommon::Fragment { packet } => DecodedView::Fragment(packet@),
            DecodedCommon::Heartbeat { packet } => DecodedView::Heartbeat(packet@),
        }
    }
}

impl View for DecodedForServer {
    type V = DecodedView;

    open spec fn view(&self) -> DecodedView {
        match self {
            DecodedForServer::ConnectionRequest { packet } => DecodedView::ConnectionRequest(
                packet@,
            ),
            DecodedForServer::DataTransfer { packet } => DecodedView::DataTransfer(packet@),
            DecodedForServer::Fragment { packet } => DecodedView::Fragment(packet@),
            DecodedForServer::Heartbeat { packet } => DecodedView::Heartbeat(packet@),
        }
    }
}

impl View for DecodedForClient {
    type V = DecodedView;

    open spec fn view(&self) -> DecodedView {
        match self {
            DecodedForClient::ConnectionAccepted { packet } => DecodedView::ConnectionAccepted(
                packet@,
            ),
            DecodedForClient::DataTransfer { packet } => DecodedView::DataTransfer(packet@),
            DecodedForClient::Fragment { packet } => DecodedView::Fragment(packet@),
            DecodedForClient::Heartbeat { packet } => DecodedView::Heartbeat(packet@),
        }
    }
}

/// A decoding result seen as plain values.
pub open spec fn common_result_view(r: Result<DecodedCommon, ProtocolError>) -> Result<
    DecodedView,
    ProtocolError,
> {
    match r {
        Ok(d) => Ok(d@),
        Err(e) => Err(e),
    }
}

/// A server's decoding result seen as plain values.
pub open spec fn server_result_view(r: Result<DecodedForServer, ProtocolError>) -> Result<
    DecodedView,
    ProtocolError,
> {
    match r {
        Ok(d) => Ok(d@),
        Err(e) => Err(e),
    }
}

/// A client's decoding result seen as plain values.
pub open spec fn client_result_view(r: Result<DecodedForClient, ProtocolError>) -> Result<
    DecodedView,
    ProtocolError,
> {
    match r {
        Ok(d) => Ok(d@),
        Err(e) => Err(e),
    }
}

/// What a server makes of a decoded packet: a connection accepted packet is refused as a packet
/// of the wrong type, every other kind is kept.
pub open spec fn for_server(r: Result<DecodedView, ProtocolError>) -> Result<
    DecodedView,
    ProtocolError,
> {
    match r {
        Ok(DecodedView::ConnectionAccepted(p)) => Err(
            ProtocolError::InvalidPacketType(packet_type_of(p.message.packet_type)),
        ),
        other => other,
    }
}

/// What a client makes of a decoded packet: a connection request is refused as a packet of the
/// wrong type, every other kind is kept.
pub open spec fn for_client(r: Result<DecodedView, ProtocolError>) -> Result<
    DecodedView,
    ProtocolError,
> {
    match r {
        Ok(DecodedView::ConnectionRequest(p)) => Err(
            ProtocolError::InvalidPacketType(packet_type_of(p.message.packet_type)),
        ),
        other => other,
    }
}

impl DecodedForServer {
    /// Keeps the packets a server accepts; a connection accepted packet is an error.
    pub fn try_from(common: DecodedCommon) -> (r: Result<Self, ProtocolError>)
        ensures
            server_result_view(r) == for_server(Ok(common@)),
    {
        proof {
            broadcast use super::packet_type::group_packet_type;
        }
        match common {
            DecodedCommon::ConnectionRequest { packet } => Ok(
                DecodedForServer::ConnectionRequest { packet },
            ),
            DecodedCommon::ConnectionAccepted { packet } => {
                Err(ProtocolError::InvalidPacketType(packet.message.meta.packet_type))
            },
            DecodedCommon::DataTransfer { packet } => Ok(DecodedForServer::DataTransfer { packet }),
            DecodedCommon::Fragment { packet } => Ok(DecodedForServer::Fragment { packet }),
            DecodedCommon::Heartbeat { packet } => Ok(DecodedForServer::Heartbeat { packet }),
        }
    }
}

impl DecodedForClient {
    /// Keeps the packets a client accepts; a connection request is an error.
    pub fn try_from(common: DecodedCommon) -> (r: Result<Self, ProtocolError>)
        ensures
            client_result_view(r) == for_client(Ok(common@)),
    {
        proof {
            broadcast use super::packet_type::group_packet_type;
        }
        match common {
            DecodedCommon::ConnectionRequest { packet } => Err(
                ProtocolError::InvalidPacketType(packet.message.meta.packet_type),
            ),
            DecodedCommon::ConnectionAccepted { packet } => Ok(
                DecodedForClient::ConnectionAccepted { packet },
            ),
            DecodedCommon::DataTransfer { packet } => Ok(DecodedForClient::DataTransfer { packet }),
            DecodedCommon::Fragment { packet } => Ok(DecodedForClient::Fragment { packet }),
            DecodedCommon::Heartbeat { packet } => Ok(DecodedForClient::Heartbeat { packet }),
        }
    }
}

} // verus!
