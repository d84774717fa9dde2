//! What the server's operations promise over all inputs: which connection requests it
//! refuses, what its peers take from the packets they send, and what its packets carry.
use vstd::prelude::*;

use crate::duration::Duration;
use crate::errors::ProtocolError;
use crate::packets::decode::{for_server, DecodedView};
use crate::packets::message::ConnectionRequestView;
use crate::packets::raw::{decoded, lemma_decoded_kind};
use crate::packets::scheduled::{ReliabilityType, Reliability, Scheduled};
use crate::packets::{
    connection_id_of, ConnectionId, DataTransfer, Encoder, Fragment, Heartbeat, Message, Packet,
    PacketId, PacketView, Received, ToSend,
};
use crate::protocol::created;
use crate::service_traits::Service;
use crate::socket_addr::SocketAddr;
use crate::table::{has_key, keys_unique, lemma_upserted_get, value_of};

use super::service::Server;

verus! {

/// Whether the packet `bytes` from `address`, received at `time`, is a data transfer or a
/// heartbeat that a server takes for the peer `id`, with the sequence number `sequence` and
/// the ack `ack`.
pub open spec fn from_peer(
    bytes: Seq<u8>,
    address: SocketAddr,
    time: Duration,
    id: ConnectionId,
    sequence: u32,
    ack: u32,
) -> bool {
    match for_server(decoded(bytes, address, time)) {
        Ok(DecodedView::DataTransfer(p)) => connection_id_of(p.message.connection_id) == id
            && p.sequence == sequence && p.ack == ack,
        Ok(DecodedView::Heartbeat(p)) => connection_id_of(p.message.connection_id) == id
            && p.sequence == sequence && p.ack == ack,
        _ => false,
    }
}

/// A server refuses a connection request from an address where a peer already awaits its
/// connection ack or is connected: it answers `PeerInAnotherState` with that address, gives
/// no connection id, schedules nothing, and its peers and events stay as they were.
pub proof fn law_request_from_peer_in_another_state_refused(
    s: Server,
    next: Server,
    bytes: Seq<u8>,
    address: SocketAddr,
    packet_id: PacketId,
    time: Duration,
    r: Result<bool, ProtocolError>,
)
    requires
        s.received(next, bytes, address, packet_id, time, r),
        for_server(decoded(bytes, address, time)) matches Ok(DecodedView::ConnectionRequest(_)),
        (exists|i: int|
            0 <= i < s.awaiting_connection_ack@.len() && s.awaiting_connection_ack@[i].1.address == address)
            || (exists|i: int| 0 <= i < s.connected@.len() && s.connected@[i].1.address == address),
    ensures
        r == Err::<bool, ProtocolError>(ProtocolError::PeerInAnotherState(address)),
        next.connection_id_tracker == s.connection_id_tracker,
        next.scheduler == s.scheduler,
        next.api == s.api,
        next.requesting_connection@ == s.requesting_connection@,
        next.awaiting_connection_ack@ == s.awaiting_connection_ack@,
        next.connected@ == s.connected@,
{
    lemma_decoded_kind(bytes, address, time, time);
    if exists|i: int|
        0 <= i < s.awaiting_connection_ack@.len() && s.awaiting_connection_ack@[i].1.address == address {
        let i: int = choose|i: int|
            0 <= i < s.awaiting_connection_ack@.len() && s.awaiting_connection_ack@[i].1.address == address;
        assert(s.awaiting_connection_ack@[i].1.address == address);
    } else {
        let i: int = choose|i: int| 0 <= i < s.connected@.len() && s.connected@[i].1.address == address;
        assert(s.connected@[i].1.address == address);
    }
}

/// When a server receives a data transfer or heartbeat with the sequence number `sequence` and
/// the ack `ack` for a peer that is connected under `id`, or that awaits its connection ack
/// under `id`, the peer is then connected under `id` and records `sequence` as the last
/// sequence number received (`remote_ack_tracker`) and `ack` as the last of its own packets
/// acknowledged (`local_ack_tracker`).
pub proof fn law_server_peer_takes_acks(
    s: Server,
    next: Server,
    bytes: Seq<u8>,
    address: SocketAddr,
    packet_id: PacketId,
    time: Duration,
    r: Result<bool, ProtocolError>,
    id: ConnectionId,
    sequence: u32,
    ack: u32,
)
    requires
        keys_unique(s.connected@),
        s.received(next, bytes, address, packet_id, time, r),
        from_peer(bytes, address, time, id, sequence, ack),
        has_key(s.connected@, id) || has_key(s.awaiting_connection_ack@, id),
    ensures
        r == Ok::<bool, ProtocolError>(false),
        has_key(next.connected@, id),
        value_of(next.connected@, id).remote_ack_tracker == sequence,
        value_of(next.connected@, id).local_ack_tracker == ack,
{
    if has_key(s.connected@, id) {
        lemma_upserted_get(
            s.connected@,
            next.connected@,
            id,
            |q: crate::peers::Peer<crate::peers::Connected>|
                crate::peers::acks_updated(q, value_of(s.connected@, id), sequence, ack),
        );
    } else {
        lemma_upserted_get(
            s.connected@,
            next.connected@,
            id,
            |q: crate::peers::Peer<crate::peers::Connected>|
                crate::peers::connected_from(
                    q,
                    value_of(s.awaiting_connection_ack@, id),
                    time,
                    id,
                    sequence,
                    ack,
                ),
        );
    }
}

/// The next packet a server makes for a peer acknowledges the last packet received from that
/// peer: after a data transfer or heartbeat with the sequence number `sequence` arrives for the
/// connected peer `id`, a packet created for `id` carries `sequence` as its ack, and the peer's
/// own sequence number as its sequence number.
pub proof fn law_server_next_packet_acks_last_received<R: Reliability, M: Message + Encoder>(
    s: Server,
    next: Server,
    bytes: Seq<u8>,
    address: SocketAddr,
    packet_id: PacketId,
    time: Duration,
    r: Result<bool, ProtocolError>,
    id: ConnectionId,
    sequence: u32,
    ack: u32,
    scheduled: Scheduled<R, M>,
    packet: Packet<ToSend, M>,
)
    requires
        keys_unique(s.connected@),
        s.received(next, bytes, address, packet_id, time, r),
        from_peer(bytes, address, time, id, sequence, ack),
        has_key(s.connected@, id),
        created(packet, scheduled, value_of(next.connected@, id)),
    ensures
        packet.ack == sequence,
        packet.sequence == value_of(s.connected@, id).sequence_tracker,
{
    law_server_peer_takes_acks(s, next, bytes, address, packet_id, time, r, id, sequence, ack);
    lemma_upserted_get(
        s.connected@,
        next.connected@,
        id,
        |q: crate::peers::Peer<crate::peers::Connected>|
            crate::peers::acks_updated(q, value_of(s.connected@, id), sequence, ack),
    );
}

/// Recording a sent data transfer for a connected peer moves the peer's sequence number up by
/// one and leaves every other peer as it was.
pub proof fn law_server_data_transfer_advances_sequence(
    s: Server,
    next: Server,
    packet: Packet<ToSend, DataTransfer>,
    time: Duration,
    reliability: ReliabilityType,
    ttl: Duration,
)
    requires
        keys_unique(s.connected@),
        has_key(s.connected@, packet.message.connection_id),
        s.spec_sent_data_transfer(packet, time, reliability, ttl, next),
    ensures
        has_key(next.connected@, packet.message.connection_id),
        value_of(next.connected@, packet.message.connection_id).sequence_tracker@ == value_of(
            s.connected@,
            packet.message.connection_id,
        ).sequence_tracker@ + 1,
        next.connected@.len() == s.connected@.len(),
        forall|j: int|
            0 <= j < s.connected@.len() && s.connected@[j].0 != packet.message.connection_id
                ==> next.connected@[j] == s.connected@[j],
{
    let id = packet.message.connection_id;
    lemma_upserted_get(
        s.connected@,
        next.connected@,
        id,
        |p: crate::peers::Peer<crate::peers::Connected>|
            crate::peers::sequence_advanced(p, value_of(s.connected@, id)),
    );
    assert forall|j: int|
        0 <= j < s.connected@.len() && s.connected@[j].0 != id implies next.connected@[j]
            == s.connected@[j] by {
        assert(s.connected@[crate::table::index_of(s.connected@, id)].0 == id);
    }
}

/// Recording a sent heartbeat for a connected peer moves the peer's sequence number up by one.
pub proof fn law_server_heartbeat_advances_sequence(
    s: Server,
    next: Server,
    packet: Packet<ToSend, Heartbeat>,
    time: Duration,
    reliability: ReliabilityType,
    ttl: Duration,
)
    requires
        keys_unique(s.connected@),
        has_key(s.connected@, packet.message.connection_id),
        s.spec_sent_heartbeat(packet, time, reliability, ttl, next),
    ensures
        has_key(next.connected@, packet.message.connection_id),
        value_of(next.connected@, packet.message.connection_id).sequence_tracker@ == value_of(
            s.connected@,
            packet.message.connection_id,
        ).sequence_tracker@ + 1,
{
    let id = packet.message.connection_id;
    lemma_upserted_get(
        s.connected@,
        next.connected@,
        id,
        |p: crate::peers::Peer<crate::peers::Connected>|
            crate::peers::sequence_advanced(p, value_of(s.connected@, id)),
    );
}

/// Recording a sent fragment moves the connected peer's sequence number up by one with the
/// last fragment of its payload, and leaves it as it is with every other fragment, so that the
/// fragments of one payload share their sequence number.
pub proof fn law_server_fragment_advances_with_last(
    s: Server,
    next: Server,
    packet: Packet<ToSend, Fragment>,
    time: Duration,
    reliability: ReliabilityType,
    ttl: Duration,
)
    requires
        keys_unique(s.connected@),
        has_key(s.connected@, packet.message.connection_id),
        s.spec_sent_fragment(packet, time, reliability, ttl, next),
    ensures
        has_key(next.connected@, packet.message.connection_id),
        value_of(next.connected@, packet.message.connection_id).sequence_tracker@ == value_of(
            s.connected@,
            packet.message.connection_id,
        ).sequence_tracker@ + if packet.message.index == packet.message.total - 1 {
            1int
        } else {
            0int
        },
{
    let id = packet.message.connection_id;
    if packet.message.index == packet.message.total - 1 {
        lemma_upserted_get(
            s.connected@,
            next.connected@,
            id,
            |p: crate::peers::Peer<crate::peers::Connected>|
                crate::peers::sequence_advanced(p, value_of(s.connected@, id)),
        );
    }
}

/// Two data transfers that a server makes and sends in turn to one connected peer carry
/// consecutive sequence numbers.
pub proof fn law_server_consecutive_sends<R1: Reliability, R2: Reliability>(
    s0: Server,
    s1: Server,
    first: Packet<ToSend, DataTransfer>,
    first_scheduled: Scheduled<R1, DataTransfer>,
    second: Packet<ToSend, DataTransfer>,
    second_scheduled: Scheduled<R2, DataTransfer>,
    time: Duration,
    reliability: ReliabilityType,
    ttl: Duration,
)
    requires
        keys_unique(s0.connected@),
        has_key(s0.connected@, first.message.connection_id),
        created(first, first_scheduled, value_of(s0.connected@, first.message.connection_id)),
        s0.spec_sent_data_transfer(first, time, reliability, ttl, s1),
        second.message.connection_id == first.message.connection_id,
        created(second, second_scheduled, value_of(s1.connected@, second.message.connection_id)),
    ensures
        second.sequence@ == first.sequence@ + 1,
{
    law_server_data_transfer_advances_sequence(s0, s1, first, time, reliability, ttl);
}

/// A server refuses a connection request from a banned address where no peer awaits its
/// connection ack or is connected: it answers `Banned` with that address, gives no connection
/// id, schedules nothing, and its peers and events stay as they were.
pub proof fn law_request_from_banned_address_refused(
    s: Server,
    next: Server,
    bytes: Seq<u8>,
    address: SocketAddr,
    packet_id: PacketId,
    time: Duration,
    r: Result<bool, ProtocolError>,
)
    requires
        s.received(next, bytes, address, packet_id, time, r),
        for_server(decoded(bytes, address, time)) matches Ok(DecodedView::ConnectionRequest(_)),
        forall|i: int|
            0 <= i < s.awaiting_connection_ack@.len() ==> s.awaiting_connection_ack@[i].1.address != address,
        forall|i: int| 0 <= i < s.connected@.len() ==> s.connected@[i].1.address != address,
        s.ban_list@.contains(address),
    ensures
        r == Err::<bool, ProtocolError>(ProtocolError::Banned(address)),
        next.connection_id_tracker == s.connection_id_tracker,
        next.scheduler == s.scheduler,
        next.api == s.api,
        next.requesting_connection@ == s.requesting_connection@,
        next.awaiting_connection_ack@ == s.awaiting_connection_ack@,
        next.connected@ == s.connected@,
{
    lemma_decoded_kind(bytes, address, time, time);
}

/// A server takes a connection request from an address it has never heard of (no peer there
/// requests, awaits its connection ack or is connected, and the address is not banned): the
/// new peer gets the next connection id, which then moves up by one; it waits for its
/// connection ack at that address, with the request's sequence number as the last one
/// received; and one connection accepted packet giving it that id is scheduled to the address
/// under the packet id given.
pub proof fn law_request_from_new_address_accepted(
    s: Server,
    next: Server,
    bytes: Seq<u8>,
    address: SocketAddr,
    packet_id: PacketId,
    time: Duration,
    r: Result<bool, ProtocolError>,
    request: PacketView<Received, ConnectionRequestView>,
)
    requires
        keys_unique(s.awaiting_connection_ack@),
        s.received(next, bytes, address, packet_id, time, r),
        for_server(decoded(bytes, address, time)) == Ok::<DecodedView, ProtocolError>(
            DecodedView::ConnectionRequest(request),
        ),
        forall|i: int|
            0 <= i < s.requesting_connection@.len() ==> s.requesting_connection@[i].1.address != address,
        forall|i: int|
            0 <= i < s.awaiting_connection_ack@.len() ==> s.awaiting_connection_ack@[i].1.address != address,
        forall|i: int| 0 <= i < s.connected@.len() ==> s.connected@[i].1.address != address,
        !s.ban_list@.contains(address),
    ensures
        r == Ok::<bool, ProtocolError>(true),
        next.connection_id_tracker@ == s.connection_id_tracker@ + 1,
        has_key(next.awaiting_connection_ack@, s.connection_id_tracker),
        value_of(next.awaiting_connection_ack@, s.connection_id_tracker).address == address,
        value_of(next.awaiting_connection_ack@, s.connection_id_tracker).remote_ack_tracker
            == request.sequence,
        next.connected@ == s.connected@,
        next.scheduler.service.list_scheduled_connection_accepted@.len()
            == s.scheduler.service.list_scheduled_connection_accepted@.len() + 1,
        next.scheduler.service.list_scheduled_connection_accepted@.last().address == address,
        next.scheduler.service.list_scheduled_connection_accepted@.last().packet_id == packet_id,
        next.scheduler.service.list_scheduled_connection_accepted@.last().message.connection_id
            == s.connection_id_tracker,
{
    lemma_decoded_kind(bytes, address, time, time);
    assert(crate::peers::first_at_address(s.requesting_connection@, address) is None) by {
        crate::peers::lemma_first_at_address(s.requesting_connection@, address, s.requesting_connection@.len() as int);
    }
    let q = crate::server::service::new_requesting_peer(address, request.sequence, time);
    lemma_upserted_get(
        s.awaiting_connection_ack@,
        next.awaiting_connection_ack@,
        s.connection_id_tracker,
        |p: crate::peers::Peer<crate::peers::AwaitingConnectionAck>|
            crate::peers::awaiting_from(p, q, time),
    );
}

/// A data transfer for a peer that awaits its connection ack under its id makes the peer
/// connected and reports the payload to the user, once; one for a peer already connected
/// reports nothing.
pub proof fn law_server_reports_data_transfer_of_new_peer(
    s: Server,
    next: Server,
    bytes: Seq<u8>,
    address: SocketAddr,
    packet_id: PacketId,
    time: Duration,
    r: Result<bool, ProtocolError>,
    transfer: PacketView<Received, crate::packets::DataTransferView>,
)
    requires
        keys_unique(s.connected@),
        s.received(next, bytes, address, packet_id, time, r),
        for_server(decoded(bytes, address, time)) == Ok::<DecodedView, ProtocolError>(
            DecodedView::DataTransfer(transfer),
        ),
    ensures
        has_key(s.connected@, connection_id_of(transfer.message.connection_id)) ==> next.api
            == s.api,
        !has_key(s.connected@, connection_id_of(transfer.message.connection_id))
            && has_key(s.awaiting_connection_ack@, connection_id_of(transfer.message.connection_id))
            ==> {
            &&& next.api@.len() == s.api@.len() + 1
            &&& next.api@.drop_last() == s.api@
            &&& crate::events::is_data_transfer_event(
                next.api@.last(),
                connection_id_of(transfer.message.connection_id),
                transfer.message.payload,
            )
            &&& has_key(next.connected@, connection_id_of(transfer.message.connection_id))
        },
{
    let id = connection_id_of(transfer.message.connection_id);
    if !has_key(s.connected@, id) && has_key(s.awaiting_connection_ack@, id) {
        lemma_upserted_get(
            s.connected@,
            next.connected@,
            id,
            |q: crate::peers::Peer<crate::peers::Connected>|
                crate::peers::connected_from(
                    q,
                    value_of(s.awaiting_connection_ack@, id),
                    time,
                    id,
                    transfer.sequence,
                    transfer.ack,
                ),
        );
    }
}

} // verus!
