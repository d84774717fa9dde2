//! Packets waiting in the scheduler to be sent.
use vstd::prelude::*;

use super::{
    ConnectionId, ConnectionRequest, DataTransfer, Duration, Encoder, Fragment, Heartbeat, Message,
    MetaDelivery, MetaMessage, Packet, PacketId, PacketType, Payload, Sequence, SocketAddr,
    ToSend, Ack, CONNECTION_REQUEST, DATA_TRANSFER, FRAGMENT, HEARTBEAT,
};

verus! {

/// A message scheduled for `address` at `time`, under the id `packet_id`.
#[derive(Debug, Clone, PartialEq)]
pub struct Scheduled<R: Reliability, M: Message> {
    pub packet_id: PacketId,
    pub address: SocketAddr,
    pub time: Duration,
    pub reliability: R,
    pub message: M,
}

/// Whether a packet is resent until it is acknowledged.
#[derive(Debug, Clone, PartialEq, Copy)]
pub enum ReliabilityType {
    Reliable,
    Unreliable,
}

/// How reliably a scheduled packet travels.
pub trait Reliability {

}

/// A packet resent until it is acknowledged.
#[derive(Debug, Clone, PartialEq, Eq)]
pub struct Reliable {}

/// A packet sent once.
#[derive(Debug, Clone, PartialEq, Eq)]
pub struct Unreliable {}

impl Reliability for Reliable {

}

impl Reliability for Unreliable {

}

impl Scheduled<Reliable, ConnectionRequest> {
    /// A connection request to `address`, scheduled at `time`.
    pub fn connection_request(packet_id: PacketId, address: SocketAddr, time: Duration) -> (r:
        Self)
        ensures
            r.packet_id == packet_id,
            r.address == address,
            r.time == time,
            r.message.meta.packet_type@ == CONNECTION_REQUEST,
    {
        let reliability = Reliable {};
        let meta = MetaMessage { packet_type: PacketType::new_unchecked(CONNECTION_REQUEST) };
        let message = ConnectionRequest { meta };
        Scheduled { packet_id, address, time, reliability, message }
    }
}

impl<R: Reliability, M: Message + Encoder> Scheduled<R, M> {
    /// The packet that sends this message at `time` with `sequence` and `ack`.
    pub fn into_packet(self, sequence: Sequence, ack: Ack, time: Duration) -> (r: Packet<ToSend, M>)
        ensures
            r.delivery == (ToSend {
                id: self.packet_id,
                meta: MetaDelivery { time, address: self.address },
            }),
            r.sequence == sequence,
            r.ack == ack,
            r.message == self.message,
    {
        let delivery = ToSend { id: self.packet_id, meta: MetaDelivery { time, address: self.address } };
        let packet = Packet { delivery, sequence, ack, message: self.message };
        packet
    }
}

/// Whether `s` schedules, under `packet_id` for `address` at `time`, the fragment
/// `fragment_index` of `fragment_total` of a payload, with the bytes `payload`, for the peer
/// `connection_id`.
pub open spec fn schedules_fragment<R: Reliability>(
    s: Scheduled<R, Fragment>,
    packet_id: PacketId,
    connection_id: ConnectionId,
    payload: Seq<u8>,
    fragment_index: int,
    fragment_total: int,
    time: Duration,
    address: SocketAddr,
) -> bool {
    &&& s.packet_id == packet_id
    &&& s.address == address
    &&& s.time == time
    &&& s.message.meta.packet_type@ == FRAGMENT
    &&& s.message.connection_id == connection_id
    &&& s.message.index == fragment_index as u8
    &&& s.message.total == fragment_total as u8
    &&& s.message.payload@ == payload
}

/// Whether `s` schedules, under `packet_id` for `address` at `time`, a data transfer of
/// `payload` for the peer `connection_id`.
pub open spec fn schedules_data_transfer<R: Reliability>(
    s: Scheduled<R, DataTransfer>,
    packet_id: PacketId,
    connection_id: ConnectionId,
    payload: Seq<u8>,
    time: Duration,
    address: SocketAddr,
) -> bool {
    &&& s.packet_id == packet_id
    &&& s.address == address
    &&& s.time == time
    &&& s.message.meta.packet_type@ == DATA_TRANSFER
    &&& s.message.connection_id == connection_id
    &&& s.message.payload@ == payload
}

/// Whether `s` schedules, under `packet_id` for `address` at `time`, a heartbeat for the peer
/// `connection_id`.
pub open spec fn schedules_heartbeat<R: Reliability>(
    s: Scheduled<R, Heartbeat>,
    packet_id: PacketId,
    connection_id: ConnectionId,
    time: Duration,
    address: SocketAddr,
) -> bool {
    &&& s.packet_id == packet_id
    &&& s.address == address
    &&& s.time == time
    &&& s.message.meta.packet_type@ == HEARTBEAT
    &&& s.message.connection_id == connection_id
}

impl Scheduled<Unreliable, Fragment> {
    /// An unreliable fragment, scheduled at `time` for `address`.
    pub fn new_unreliable_fragment(
        packet_id: PacketId,
        connection_id: ConnectionId,
        payload: Payload,
        fragment_index: usize,
        fragment_total: usize,
        time: Duration,
        address: SocketAddr,
    ) -> (r: Self)
        ensures
            schedules_fragment(
                r,
                packet_id,
                connection_id,
                payload@,
                fragment_index as int,
                fragment_total as int,
                time,
                address,
            ),
    {
        let scheduled = Scheduled {
            packet_id,
            time,
            address,
            reliability: Unreliable {},
            message: Fragment::new(connection_id, payload, fragment_index, fragment_total),
        };
        scheduled
    }
}

impl Scheduled<Reliable, Fragment> {
    /// A reliable fragment, scheduled at `time` for `address`.
    pub fn new_reliable_fragment(
        packet_id: PacketId,
        connection_id: ConnectionId,
        payload: Payload,
        fragment_index: usize,
        fragment_total: usize,
        time: Duration,
        address: SocketAddr,
    ) -> (r: Self)
        ensures
            schedules_fragment(
                r,
                packet_id,
                connection_id,
                payload@,
                fragment_index as int,
                fragment_total as int,
                time,
                address,
            ),
    {
        let scheduled = Scheduled {
            packet_id,
            time,
            address,
            reliability: Reliable {},
            message: Fragment::new(connection_id, payload, fragment_index, fragment_total),
        };
        scheduled
    }
}

impl Scheduled<Unreliable, DataTransfer> {
    /// An unreliable data transfer, scheduled at `time` for `address`.
    pub fn new_unreliable_data_transfer(
        packet_id: PacketId,
        connection_id: ConnectionId,
        payload: Payload,
        time: Duration,
        address: SocketAddr,
    ) -> (r: Self)
        ensures
            schedules_data_transfer(r, packet_id, connection_id, payload@, time, address),
    {
        let scheduled = Scheduled {
            packet_id,
            address,
            time,
            reliability: Unreliable {},
            message: DataTransfer::new(connection_id, payload),
        };
        scheduled
    }
}

impl Scheduled<Reliable, DataTransfer> {
    /// A reliable data transfer, scheduled at `time` for `address`.
    pub fn new_reliable_data_transfer(
        packet_id: PacketId,
        connection_id: ConnectionId,
        payload: Payload,
        time: Duration,
        address: SocketAddr,
    ) -> (r: Self)
        ensures
            schedules_data_transfer(r, packet_id, connection_id, payload@, time, address),
    {
        let scheduled = Scheduled {
            packet_id,
            address,
            time,
            reliability: Reliable {},
            message: DataTransfer::new(connection_id, payload),
        };
        scheduled
    }
}

impl Scheduled<Unreliable, Heartbeat> {
    /// An unreliable heartbeat, scheduled at `time` for `address`.
    pub fn new_unreliable_heartbeat(
        packet_id: PacketId,
        connection_id: ConnectionId,
        time: Duration,
        address: SocketAddr,
    ) -> (r: Self)
        ensures
            schedules_heartbeat(r, packet_id, connection_id, time, address),
    {
        let scheduled = Scheduled {
            packet_id,
            address,
            time,
            reliability: Unreliable {},
            message: Heartbeat::new(connection_id),
        };
        scheduled
    }
}

impl Scheduled<Reliable, Heartbeat> {
    /// A reliable heartbeat, scheduled at `time` for `address`.
    pub fn new_reliable_heartbeat(
        packet_id: PacketId,
        connection_id: ConnectionId,
        time: Duration,
        address: SocketAddr,
    ) -> (r: Self)
        ensures
            schedules_heartbeat(r, packet_id, connection_id, time, address),
    {
        let scheduled = Scheduled {
            packet_id,
            address,
            time,
            reliability: Reliable {},
            message: Heartbeat::new(connection_id),
        };
        scheduled
    }
}

} // verus!
