//! Where a packet is in its delivery: about to be sent, sent, received or acknowledged.
use vstd::prelude::*;

use super::{Delivery, Duration, PacketId, SocketAddr};

verus! {

/// When and to (or from) where a packet travels.
#[derive(Debug, Clone, Copy, PartialEq)]
pub struct MetaDelivery {
    pub time: Duration,
    pub address: SocketAddr,
}

/// A packet ready to be sent.
#[derive(Debug, Clone, Copy, PartialEq)]
pub struct ToSend {
    pub id: PacketId,
    pub meta: MetaDelivery,
}

/// A packet that was sent.
#[derive(Debug, Clone, Copy, PartialEq)]
pub struct Sent {
    pub id: PacketId,
    /// How long a reliable packet waits for its acknowledgement; unreliable packets are not kept.
    pub ttl: Duration,
    pub meta: MetaDelivery,
}

/// A packet that was received.
#[derive(Debug, Clone, Copy, PartialEq)]
pub struct Received {
    pub meta: MetaDelivery,
}

/// A packet that the remote peer acknowledged.
#[derive(Debug, Clone, Copy, PartialEq)]
pub struct Acked {
    pub id: PacketId,
    pub meta: MetaDelivery,
}

impl Delivery for ToSend {

}

impl Delivery for Sent {

}

impl Delivery for Received {

}

impl Delivery for Acked {

}

} // verus!
