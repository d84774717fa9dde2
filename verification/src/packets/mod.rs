//! Packets: what they carry, how they travel and how they look on the wire.
use vstd::prelude::*;

pub use crate::duration::Duration;
pub use crate::sequence::Sequence;
pub use crate::socket_addr::SocketAddr;

pub use self::delivery::{Acked, MetaDelivery, Received, Sent, ToSend};
pub use self::message::{
    ConnectionAccepted, ConnectionAcceptedView, ConnectionRequest, ConnectionRequestView,
    DataTransfer, DataTransferView, Fragment, FragmentView, Heartbeat, HeartbeatView, MetaMessage,
};
pub use self::packet_type::PacketType;

pub mod acked;
pub mod decode;
pub mod delivery;
pub mod encode;
pub mod message;
pub mod packet_type;
pub mod partial;
pub mod raw;
pub mod received;
pub mod scheduled;
pub mod wire_laws;

verus! {

/// The id the protocol gives a scheduled packet.
pub type PacketId = u64;

/// The sequence number of the last packet received from the remote peer.
pub type Ack = u32;

/// The bytes a packet carries for the user.
pub type Payload = Vec<u8>;

/// The largest number of bytes a packet may take on the wire.
pub const MAX_FRAGMENT_SIZE: usize = 1500;

/// One below the smallest packet type code.
pub const PACKET_TYPE_SENTINEL_START: u8 = 0x0;

/// The code of connection request packets.
pub const CONNECTION_REQUEST: u8 = 0x1;

/// The code of connection accepted packets.
pub const CONNECTION_ACCEPTED: u8 = 0x2;

/// The code of data transfer packets.
pub const DATA_TRANSFER: u8 = 0x3;

/// The code of fragment packets.
pub const FRAGMENT: u8 = 0x4;

/// The code of heartbeat packets.
pub const HEARTBEAT: u8 = 0x5;

/// One above the largest packet type code.
pub const PACKET_TYPE_SENTINEL_END: u8 = 0x6;

/// Bytes of the protocol id on the wire.
pub const PROTOCOL_ID_SIZE: usize = 4;

/// Bytes of a sequence number on the wire.
pub const SEQUENCE_SIZE: usize = 4;

/// Bytes of an ack on the wire.
pub const ACK_SIZE: usize = 4;

/// Bytes of a packet type on the wire.
pub const PACKET_TYPE_SIZE: usize = 1;

/// Bytes of a connection id on the wire.
pub const CONNECTION_ID_SIZE: usize = 2;

/// The id a server gives to a connected peer; it is never zero.
#[derive(Debug, Clone, Copy, PartialEq, Eq, Hash, PartialOrd, Ord)]
pub struct ConnectionId(u16);

impl View for ConnectionId {
    type V = u16;

    closed spec fn view(&self) -> u16 {
        self.0
    }
}

/// Two connection ids are equal exactly when their values are.
pub broadcast proof fn lemma_connection_id_view_injective(a: ConnectionId, b: ConnectionId)
    ensures
        #[trigger] (a@) == #[trigger] (b@) <==> a == b,
{
}

/// The connection id whose value is `n`.
pub closed spec fn connection_id_of(n: u16) -> ConnectionId {
    ConnectionId(n)
}

/// The connection id made from a value has that value.
pub broadcast proof fn lemma_connection_id_of_view(n: u16)
    ensures
        #[trigger] connection_id_of(n)@ == n,
{
}

/// A connection id is the one made from its value.
pub broadcast proof fn lemma_connection_id_of_value(c: ConnectionId)
    ensures
        #[trigger] connection_id_of(c@) == c,
{
}

impl ConnectionId {
    #[verifier::type_invariant]
    closed spec fn inv(self) -> bool {
        self.0 != 0
    }

    /// The connection id `n`, or `None` when it is zero.
    pub fn new(n: u16) -> (r: Option<Self>)
        ensures
            n == 0 <==> r is None,
            r matches Some(c) ==> c@ == n,
    {
        if n == 0 {
            None
        } else {
            Some(ConnectionId(n))
        }
    }

    /// The connection id `n`, which the caller knows to be nonzero.
    pub fn new_unchecked(n: u16) -> (r: Self)
        requires
            n != 0,
        ensures
            r@ == n,
    {
        ConnectionId(n)
    }

    /// The value of the connection id.
    pub fn get(&self) -> (r: u16)
        ensures
            r == self@,
            r != 0,
    {
        proof {
            use_type_invariant(self);
        }
        self.0
    }

    /// Whether two connection ids are the same.
    pub fn same(&self, other: &Self) -> (r: bool)
        ensures
            r == (*self == *other),
    {
        self.0 == other.0
    }
}

/// The state of a packet's delivery.
pub trait Delivery {

}

/// A kind of message, identified by its packet type.
pub trait Message: View {
    /// The code of this kind of message.
    spec fn spec_packet_type() -> u8;

    /// The packet type of this kind of message.
    fn packet_type() -> (r: PacketType)
        ensures
            r@ == Self::spec_packet_type(),
    ;

    /// The packet type of this kind of message as bytes.
    fn packet_type_bytes() -> (r: [u8; 1])
        ensures
            r@ == seq![Self::spec_packet_type()],
    ;
}

/// A message that can be written to the wire.
pub trait Encoder: View {
    /// The size of a packet of this kind without its payload, protocol id included.
    spec fn spec_header_size() -> nat;

    /// The size of a packet of this kind without its payload, protocol id included.
    fn header_size() -> (r: usize)
        ensures
            r == Self::spec_header_size(),
    ;

    /// The bytes of a message with this view.
    spec fn spec_encoded(m: Self::V) -> Seq<u8>;

    /// The bytes of this message.
    fn encoded(&self) -> (r: Vec<u8>)
        ensures
            r@ == Self::spec_encoded(self@),
    ;
}

/// A packet: its delivery state, its sequence number, the ack it carries and its message.
#[derive(Debug, Clone, PartialEq)]
pub struct Packet<D: Delivery, M: Message + Encoder> {
    pub delivery: D,
    pub sequence: Sequence,
    pub ack: Ack,
    pub message: M,
}

/// A packet seen as plain values.
pub struct PacketView<D, M> {
    pub delivery: D,
    pub sequence: u32,
    pub ack: u32,
    pub message: M,
}

impl<D: Delivery, M: Message + Encoder> View for Packet<D, M> {
    type V = PacketView<D, <M as View>::V>;

    open spec fn view(&self) -> Self::V {
        PacketView {
            delivery: self.delivery,
            sequence: self.sequence@,
            ack: self.ack,
            message: self.message@,
        }
    }
}

/// The packet `p` as sent at `time`, waiting `ttl` for its acknowledgement.
pub open spec fn as_sent<M: Message + Encoder>(p: Packet<ToSend, M>, time: Duration, ttl: Duration) -> Packet<
    Sent,
    M,
> {
    Packet {
        delivery: Sent {
            id: p.delivery.id,
            ttl,
            meta: MetaDelivery { time, address: p.delivery.meta.address },
        },
        sequence: p.sequence,
        ack: p.ack,
        message: p.message,
    }
}

impl<M: Message + Encoder> Packet<ToSend, M> {
    /// The packet as sent at `time`, waiting `ttl` for its acknowledgement.
    pub fn sent(self, time: Duration, ttl: Duration) -> (r: Packet<Sent, M>)
        ensures
            r == as_sent(self, time, ttl),
    {
        let packet = Packet {
            delivery: Sent {
                id: self.delivery.id,
                ttl,
                meta: MetaDelivery { time, address: self.delivery.meta.address },
            },
            sequence: self.sequence,
            ack: self.ack,
            message: self.message,
        };
        packet
    }
}

} // verus!
