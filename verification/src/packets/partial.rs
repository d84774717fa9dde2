//! A packet of the earlier layout that was read but not yet classified by kind.
use vstd::prelude::*;

use crate::packet::header::HeaderInfo;
use crate::packets::{ConnectionId, PacketId};
use crate::payload::Payload;
use crate::socket_addr::SocketAddr;

verus! {

/// What reading a packet of the earlier layout gives before it is classified: its id, header,
/// payload, nonzero checksum, connection id (which a connection request lacks) and address.
#[derive(Debug)]
pub struct PartialPacket {
    pub(crate) id: PacketId,
    pub(crate) header_info: HeaderInfo,
    pub(crate) payload: Payload,
    pub(crate) crc32: u32,
    pub(crate) connection_id: Option<ConnectionId>,
    pub(crate) address: SocketAddr,
}

} // verus!
