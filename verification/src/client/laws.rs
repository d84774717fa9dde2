//! What the client's operations promise over all inputs: which addresses it refuses to connect
//! to, what its peers take from the packets they send, and what its packets carry.
use vstd::prelude::*;

use crate::duration::Duration;
use crate::errors::ProtocolError;
use crate::packets::decode::{for_client, DecodedView};
use crate::packets::raw::decoded;
use crate::packets::scheduled::{ReliabilityType, Reliability, Scheduled};
use crate::packets::{
    connection_id_of, ConnectionId, DataTransfer, Encoder, Fragment, Heartbeat, Message, Packet, PacketId,
    ToSend,
};
use crate::protocol::created;
use crate::service_traits::Service;
use crate::socket_addr::SocketAddr;
use crate::table::{has_key, keys_unique, lemma_upserted_get, value_of};

use super::service::Client;

verus! {

/// Whether the packet `bytes` from `address`, received at `time`, is a data transfer or a
/// heartbeat that a client takes for the peer `id`, with the sequence number `sequence` and
/// the ack `ack`.
pub open spec fn from_peer(
    bytes: Seq<u8>,
    address: SocketAddr,
    time: Duration,
    id: ConnectionId,
    sequence: u32,
    ack: u32,
) -> bool {
    match for_client(decoded(bytes, address, time)) {
        Ok(DecodedView::DataTransfer(p)) => connection_id_of(p.message.connection_id) == id
            && p.sequence == sequence && p.ack == ack && p.delivery.meta.address == address,
        Ok(DecodedView::Heartbeat(p)) => connection_id_of(p.message.connection_id) == id
            && p.sequence == sequence && p.ack == ack && p.delivery.meta.address == address,
        _ => false,
    }
}

/// A client refuses to start connecting to an address it already knows: one it requests, one
/// that awaits its connection ack, or the address of a peer it is connected to. It answers
/// `AlreadyConnectingToPeer` with that address, and nothing changes.
pub proof fn law_connect_refuses_known_address(
    c: Client,
    next: Client,
    address: SocketAddr,
    packet_id: PacketId,
    time: Duration,
    r: Result<(), ProtocolError>,
)
    requires
        c.connect_outcome(next, address, packet_id, time, r),
        has_key(c.requesting_connection@, address) || has_key(c.awaiting_connection_ack@, address)
            || exists|i: int| 0 <= i < c.connected@.len() && c.connected@[i].1.address == address,
    ensures
        r == Err::<(), ProtocolError>(ProtocolError::AlreadyConnectingToPeer(address)),
        next == c,
{
    if !has_key(c.requesting_connection@, address) && !has_key(c.awaiting_connection_ack@, address) {
        let i: int = choose|i: int| 0 <= i < c.connected@.len() && c.connected@[i].1.address == address;
        assert(c.connected@[i].1.address == address);
    }
}

/// A client starts connecting to an address it does not know at all: the call succeeds, the
/// address becomes a requested peer, and one connection request to it is scheduled under the
/// packet id given, with the rest of the schedule as it was.
pub proof fn law_connect_to_new_address(
    c: Client,
    next: Client,
    address: SocketAddr,
    packet_id: PacketId,
    time: Duration,
    r: Result<(), ProtocolError>,
)
    requires
        c.connect_outcome(next, address, packet_id, time, r),
        !has_key(c.requesting_connection@, address),
        !has_key(c.awaiting_connection_ack@, address),
        forall|i: int| 0 <= i < c.connected@.len() ==> c.connected@[i].1.address != address,
    ensures
        r is Ok,
        has_key(next.requesting_connection@, address),
        next.connected@ == c.connected@,
        next.scheduler.service.list_scheduled_connection_request@.len()
            == c.scheduler.service.list_scheduled_connection_request@.len() + 1,
        next.scheduler.service.list_scheduled_connection_request@.last().address == address,
        next.scheduler.service.list_scheduled_connection_request@.last().packet_id == packet_id,
{
    assert(next.requesting_connection@[next.requesting_connection@.len() - 1].0 == address);
}

/// When a client receives a data transfer or heartbeat with the sequence number `sequence` and
/// the ack `ack` from a peer it is connected to under `id`, or from a peer at that address that
/// awaits its connection ack, the peer is then connected under `id` and records `sequence` as
/// the last sequence number received (`remote_ack_tracker`) and `ack` as the last of its own
/// packets acknowledged (`local_ack_tracker`).
pub proof fn law_client_peer_takes_acks(
    c: Client,
    next: Client,
    bytes: Seq<u8>,
    address: SocketAddr,
    time: Duration,
    r: Result<(), ProtocolError>,
    id: ConnectionId,
    sequence: u32,
    ack: u32,
)
    requires
        keys_unique(c.connected@),
        c.received(next, bytes, address, time, r),
        from_peer(bytes, address, time, id, sequence, ack),
        has_key(c.connected@, id) || has_key(c.awaiting_connection_ack@, address),
    ensures
        r is Ok,
        has_key(next.connected@, id),
        value_of(next.connected@, id).remote_ack_tracker == sequence,
        value_of(next.connected@, id).local_ack_tracker == ack,
{
    if has_key(c.connected@, id) {
        lemma_upserted_get(
            c.connected@,
            next.connected@,
            id,
            |q: crate::peers::Peer<crate::peers::Connected>|
                crate::peers::acks_updated(q, value_of(c.connected@, id), sequence, ack),
        );
    } else {
        lemma_upserted_get(
            c.connected@,
            next.connected@,
            id,
            |q: crate::peers::Peer<crate::peers::Connected>|
                crate::peers::connected_from(
                    q,
                    value_of(c.awaiting_connection_ack@, address),
                    time,
                    id,
                    sequence,
                    ack,
                ),
        );
    }
}

/// The next packet a client makes for a peer acknowledges the last packet received from that
/// peer: after a data transfer or heartbeat with the sequence number `sequence` arrives from
/// the peer `id`, a packet created for `id` carries `sequence` as its ack, and the peer's own
/// sequence number as its sequence number.
pub proof fn law_client_next_packet_acks_last_received<R: Reliability, M: Message + Encoder>(
    c: Client,
    next: Client,
    bytes: Seq<u8>,
    address: SocketAddr,
    time: Duration,
    r: Result<(), ProtocolError>,
    id: ConnectionId,
    sequence: u32,
    ack: u32,
    scheduled: Scheduled<R, M>,
    packet: Packet<ToSend, M>,
)
    requires
        keys_unique(c.connected@),
        c.received(next, bytes, address, time, r),
        from_peer(bytes, address, time, id, sequence, ack),
        has_key(c.connected@, id),
        created(packet, scheduled, value_of(next.connected@, id)),
    ensures
        packet.ack == sequence,
        packet.sequence == value_of(c.connected@, id).sequence_tracker,
{
    law_client_peer_takes_acks(c, next, bytes, address, time, r, id, sequence, ack);
    lemma_upserted_get(
        c.connected@,
        next.connected@,
        id,
        |q: crate::peers::Peer<crate::peers::Connected>|
            crate::peers::acks_updated(q, value_of(c.connected@, id), sequence, ack),
    );
}

/// Recording a sent data transfer for a connected peer (one that no longer awaits its
/// connection ack at the packet's address) moves the peer's sequence number up by one.
pub proof fn law_client_send_advances_sequence(
    c: Client,
    next: Client,
    packet: Packet<ToSend, DataTransfer>,
    time: Duration,
    reliability: ReliabilityType,
    ttl: Duration,
)
    requires
        keys_unique(c.connected@),
        has_key(c.connected@, packet.message.connection_id),
        !has_key(c.awaiting_connection_ack@, packet.delivery.meta.address),
        c.spec_sent_data_transfer(packet, time, reliability, ttl, next),
    ensures
        has_key(next.connected@, packet.message.connection_id),
        value_of(next.connected@, packet.message.connection_id).sequence_tracker@ == value_of(
            c.connected@,
            packet.message.connection_id,
        ).sequence_tracker@ + 1,
{
    let id = packet.message.connection_id;
    lemma_upserted_get(
        c.connected@,
        next.connected@,
        id,
        |p: crate::peers::Peer<crate::peers::Connected>|
            crate::peers::sequence_advanced(p, value_of(c.connected@, id)),
    );
}

/// Two data transfers that a client makes and sends in turn to one connected peer carry
/// consecutive sequence numbers.
pub proof fn law_client_consecutive_sends<R1: Reliability, R2: Reliability>(
    c0: Client,
    c1: Client,
    first: Packet<ToSend, DataTransfer>,
    first_scheduled: Scheduled<R1, DataTransfer>,
    second: Packet<ToSend, DataTransfer>,
    second_scheduled: Scheduled<R2, DataTransfer>,
    time: Duration,
    reliability: ReliabilityType,
    ttl: Duration,
)
    requires
        keys_unique(c0.connected@),
        has_key(c0.connected@, first.message.connection_id),
        !has_key(c0.awaiting_connection_ack@, first.delivery.meta.address),
        created(first, first_scheduled, value_of(c0.connected@, first.message.connection_id)),
        c0.spec_sent_data_transfer(first, time, reliability, ttl, c1),
        second.message.connection_id == first.message.connection_id,
        created(second, second_scheduled, value_of(c1.connected@, second.message.connection_id)),
    ensures
        second.sequence@ == first.sequence@ + 1,
{
    law_client_send_advances_sequence(c0, c1, first, time, reliability, ttl);
}

/// Recording a sent heartbeat for a connected peer (one that no longer awaits its connection
/// ack at the packet's address) moves the peer's sequence number up by one.
pub proof fn law_client_heartbeat_advances_sequence(
    c: Client,
    next: Client,
    packet: Packet<ToSend, Heartbeat>,
    time: Duration,
    reliability: ReliabilityType,
    ttl: Duration,
)
    requires
        keys_unique(c.connected@),
        has_key(c.connected@, packet.message.connection_id),
        !has_key(c.awaiting_connection_ack@, packet.delivery.meta.address),
        c.spec_sent_heartbeat(packet, time, reliability, ttl, next),
    ensures
        has_key(next.connected@, packet.message.connection_id),
        value_of(next.connected@, packet.message.connection_id).sequence_tracker@ == value_of(
            c.connected@,
            packet.message.connection_id,
        ).sequence_tracker@ + 1,
{
    let id = packet.message.connection_id;
    lemma_upserted_get(
        c.connected@,
        next.connected@,
        id,
        |p: crate::peers::Peer<crate::peers::Connected>|
            crate::peers::sequence_advanced(p, value_of(c.connected@, id)),
    );
}

/// Recording a sent fragment for a connected peer moves its sequence number up by one with the
/// last fragment of a payload, and leaves it as it is with every other fragment.
pub proof fn law_client_fragment_advances_with_last(
    c: Client,
    next: Client,
    packet: Packet<ToSend, Fragment>,
    time: Duration,
    reliability: ReliabilityType,
    ttl: Duration,
)
    requires
        keys_unique(c.connected@),
        has_key(c.connected@, packet.message.connection_id),
        !has_key(c.awaiting_connection_ack@, packet.delivery.meta.address),
        c.spec_sent_fragment(packet, time, reliability, ttl, next),
    ensures
        has_key(next.connected@, packet.message.connection_id),
        value_of(next.connected@, packet.message.connection_id).sequence_tracker@ == value_of(
            c.connected@,
            packet.message.connection_id,
        ).sequence_tracker@ + if packet.message.index == packet.message.total - 1 {
            1int
        } else {
            0int
        },
{
    let id = packet.message.connection_id;
    if packet.message.index == packet.message.total - 1 {
        lemma_upserted_get(
            c.connected@,
            next.connected@,
            id,
            |p: crate::peers::Peer<crate::peers::Connected>|
                crate::peers::sequence_advanced(p, value_of(c.connected@, id)),
        );
    }
}

/// The first data transfer a client sends to a peer that awaits its connection ack at the
/// packet's address makes that peer connected under the packet's connection id: it leaves the
/// awaiting peers, keeps its address and acks, and its sequence number moves up by one.
pub proof fn law_client_first_send_connects(
    c: Client,
    next: Client,
    packet: Packet<ToSend, DataTransfer>,
    time: Duration,
    reliability: ReliabilityType,
    ttl: Duration,
)
    requires
        keys_unique(c.connected@),
        keys_unique(c.awaiting_connection_ack@),
        has_key(c.awaiting_connection_ack@, packet.delivery.meta.address),
        c.spec_sent_data_transfer(packet, time, reliability, ttl, next),
    ensures
        !has_key(next.awaiting_connection_ack@, packet.delivery.meta.address),
        has_key(next.connected@, packet.message.connection_id),
        ({
            let q = value_of(c.awaiting_connection_ack@, packet.delivery.meta.address);
            let p = value_of(next.connected@, packet.message.connection_id);
            &&& p.sequence_tracker@ == q.sequence_tracker@ + 1
            &&& p.address == q.address
            &&& p.remote_ack_tracker == q.remote_ack_tracker
            &&& p.local_ack_tracker == q.local_ack_tracker
            &&& p.connection.connection_id == packet.message.connection_id
        }),
{
    let address = packet.delivery.meta.address;
    let id = packet.message.connection_id;
    lemma_upserted_get(
        c.connected@,
        next.connected@,
        id,
        |p: crate::peers::Peer<crate::peers::Connected>|
            crate::peers::promoted(p, value_of(c.awaiting_connection_ack@, address), time, id, true),
    );
    let rest = next.awaiting_connection_ack@;
    let i: int = crate::table::index_of(c.awaiting_connection_ack@, address);
    assert forall|a: int| 0 <= a < rest.len() implies rest[a].0 != address by {
        if a < i {
            assert(rest[a] == c.awaiting_connection_ack@[a]);
        } else {
            assert(rest[a] == c.awaiting_connection_ack@[a + 1]);
        }
    }
}

} // verus!
