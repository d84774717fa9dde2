//! The server side of the protocol: it accepts connections from clients and exchanges packets
//! with them.
use vstd::prelude::*;

use crate::duration::Duration;
use crate::errors::ProtocolError;
use crate::events::{is_data_transfer_event, ProtocolEvent, ServerEvent};
use crate::packets::decode::{for_server, DecodedForServer, DecodedView};
use crate::packets::raw::{decodable, decoded, RawPacket};
use crate::packets::scheduled::{Reliable, ReliabilityType, Scheduled};
use crate::packets::{
    as_sent, connection_id_of, ConnectionAccepted, ConnectionId, DataTransfer, Fragment,
    Heartbeat, MetaDelivery, MetaMessage, Packet, PacketId, PacketType, Payload, Sent, ToSend,
    CONNECTION_ACCEPTED, MAX_FRAGMENT_SIZE,
};
use crate::protocol::{schedule_payload, scheduled_payload};
use crate::peers::{
    find_address, first_at_address, has_peer_at,
    acks_updated, advance_sequence, awaiting_from, connected_from, sequence_advanced,
    update_acks, AwaitingConnectionAck, Connected, MetaConnection, Peer, RequestingConnection, SendTo,
};
use crate::reliability::{
    can_retry, keep_unexpired, retry_last, retry_outcome, unexpired, ReliabilityHandler,
};
use crate::scheduler::Scheduler;
use crate::sequence::sequence_of;
use crate::service_traits::{Service, ServiceReliability, ServiceScheduler};
use crate::socket_addr::SocketAddr;
use crate::table::{has_key, index_of, removed, upserted, value_of, Table};

verus! {

/// The connection accepted packets a server has scheduled.
#[derive(Debug)]
pub struct ServerScheduler {
    pub list_scheduled_connection_accepted: Vec<Scheduled<Reliable, ConnectionAccepted>>,
}

impl ServiceScheduler for ServerScheduler {
    open spec fn spec_is_empty(&self) -> bool {
        self.list_scheduled_connection_accepted@.len() == 0
    }

    fn new(capacity: usize) -> (r: Self) {
        ServerScheduler { list_scheduled_connection_accepted: Vec::with_capacity(capacity) }
    }
}

impl ServerScheduler {
    /// Schedules a connection accepted packet.
    pub fn connection_accepted(&mut self, scheduled: Scheduled<Reliable, ConnectionAccepted>)
        ensures
            final(self).list_scheduled_connection_accepted@ == old(self).list_scheduled_connection_accepted@.push(scheduled),
    {
        self.list_scheduled_connection_accepted.push(scheduled);
    }
}

/// The connection accepted packets a server has sent.
#[derive(Debug)]
pub struct ServerReliabilityHandler {
    pub list_sent_connection_accepted: Vec<Packet<Sent, ConnectionAccepted>>,
}

impl ServiceReliability for ServerReliabilityHandler {
    open spec fn spec_is_empty(&self) -> bool {
        self.list_sent_connection_accepted@.len() == 0
    }

    /// Polling drops the sent connection accepted packets whose time to live has run out.
    open spec fn spec_polled(&self, now: Duration, next: Self) -> bool {
        next.list_sent_connection_accepted@ == unexpired(self.list_sent_connection_accepted@, now)
    }

    fn new(capacity: usize) -> (r: Self) {
        ServerReliabilityHandler { list_sent_connection_accepted: Vec::with_capacity(capacity) }
    }

    fn poll(&mut self, now: Duration) {
        keep_unexpired(&mut self.list_sent_connection_accepted, now);
    }
}

impl ServerReliabilityHandler {
    /// Keeps a sent connection accepted packet.
    pub fn connection_accepted(&mut self, packet: Packet<Sent, ConnectionAccepted>)
        ensures
            final(self).list_sent_connection_accepted@ == old(self).list_sent_connection_accepted@.push(packet),
    {
        self.list_sent_connection_accepted.push(packet);
    }

    /// Takes the last sent connection accepted packet and returns it ready to be sent again at
    /// `now`, if its send time plus `now` exceeds the retry threshold;
    /// otherwise the list stays as it is.
    pub fn resend_reliable_connection_accepted(&mut self, now: Duration) -> (r: Option<
        Packet<ToSend, ConnectionAccepted>,
    >)
        requires
            can_retry(old(self).list_sent_connection_accepted@, now),
        ensures
            retry_outcome(
                old(self).list_sent_connection_accepted@,
                final(self).list_sent_connection_accepted@,
                now,
                r,
            ),
    {
        retry_last(&mut self.list_sent_connection_accepted, now)
    }
}

/// A server: the events for its user, the id it gives the next new peer, its peers in each
/// connection state, the addresses it bans, its scheduler and its reliability handler.
#[derive(Debug)]
pub struct Server {
    pub api: Vec<ProtocolEvent<ServerEvent>>,
    pub last_antarc_schedule_check: Duration,
    pub connection_id_tracker: ConnectionId,
    pub requesting_connection: Table<ConnectionId, Peer<RequestingConnection>>,
    pub awaiting_connection_ack: Table<ConnectionId, Peer<AwaitingConnectionAck>>,
    pub connected: Table<ConnectionId, Peer<Connected>>,
    pub ban_list: Vec<SocketAddr>,
    pub scheduler: Scheduler<ServerScheduler>,
    pub reliability_handler: ReliabilityHandler<ServerReliabilityHandler>,
}

impl Server {
    /// Whether `next` holds what `self` holds, as far as anything observable goes, apart from
    /// what the other clauses of a contract say.
    pub open spec fn keeps_rest(self, next: Self) -> bool {
        &&& next.last_antarc_schedule_check == self.last_antarc_schedule_check
        &&& next.ban_list == self.ban_list
        &&& next.reliability_handler == self.reliability_handler
    }

    /// Whether `next` is `self`, as far as anything observable goes.
    pub open spec fn unchanged(self, next: Self) -> bool {
        &&& self.keeps_rest(next)
        &&& next.api == self.api
        &&& next.connection_id_tracker == self.connection_id_tracker
        &&& next.requesting_connection@ == self.requesting_connection@
        &&& next.awaiting_connection_ack@ == self.awaiting_connection_ack@
        &&& next.connected@ == self.connected@
        &&& next.scheduler == self.scheduler
    }

    /// Whether the scheduler of `next` is that of `self` with one more connection accepted
    /// packet scheduled: under `packet_id`, to `address`, at `time`, giving `id`.
    pub open spec fn scheduled_accept(
        self,
        next: Self,
        id: ConnectionId,
        packet_id: PacketId,
        address: SocketAddr,
        time: Duration,
    ) -> bool {
        let old_list = self.scheduler.service.list_scheduled_connection_accepted@;
        let new_list = next.scheduler.service.list_scheduled_connection_accepted@;
        &&& next.scheduler.list_scheduled_reliable_data_transfer == self.scheduler.list_scheduled_reliable_data_transfer
        &&& next.scheduler.list_scheduled_unreliable_data_transfer == self.scheduler.list_scheduled_unreliable_data_transfer
        &&& next.scheduler.list_scheduled_reliable_fragment == self.scheduler.list_scheduled_reliable_fragment
        &&& next.scheduler.list_scheduled_unreliable_fragment == self.scheduler.list_scheduled_unreliable_fragment
        &&& next.scheduler.list_scheduled_reliable_heartbeat == self.scheduler.list_scheduled_reliable_heartbeat
        &&& next.scheduler.list_scheduled_unreliable_heartbeat == self.scheduler.list_scheduled_unreliable_heartbeat
        &&& new_list.len() == old_list.len() + 1
        &&& new_list.drop_last() == old_list
        &&& new_list.last().packet_id == packet_id
        &&& new_list.last().address == address
        &&& new_list.last().time == time
        &&& new_list.last().message.meta.packet_type@ == CONNECTION_ACCEPTED
        &&& new_list.last().message.connection_id == id
    }

    /// What accepting the requesting peer `id` does, under `packet_id` at `time`: the peer
    /// leaves the requesting table and waits for its connection ack, and a connection accepted
    /// packet is scheduled for it. An unknown id is reported to the user as not found.
    pub open spec fn accepted(self, next: Self, id: ConnectionId, packet_id: PacketId, time: Duration) -> bool {
        &&& self.keeps_rest(next)
        &&& next.connection_id_tracker == self.connection_id_tracker
        &&& next.connected@ == self.connected@
        &&& if has_key(self.requesting_connection@, id) {
            let q = value_of(self.requesting_connection@, id);
            &&& next.api == self.api
            &&& removed(self.requesting_connection@, next.requesting_connection@, id)
            &&& upserted(
                self.awaiting_connection_ack@,
                next.awaiting_connection_ack@,
                id,
                |p: Peer<AwaitingConnectionAck>| awaiting_from(p, q, time),
            )
            &&& self.scheduled_accept(next, id, packet_id, q.address, time)
        } else {
            &&& next.api@.len() == self.api@.len() + 1
            &&& next.api@.drop_last() == self.api@
            &&& next.api@.last() == ProtocolEvent::<ServerEvent>::Fail(ProtocolError::NotFound(id))
            &&& next.requesting_connection@ == self.requesting_connection@
            &&& next.awaiting_connection_ack@ == self.awaiting_connection_ack@
            &&& next.scheduler == self.scheduler
        }
    }

    /// Whether a peer at `address` waits for its connection ack or is connected.
    pub open spec fn spec_in_another_state(self, address: SocketAddr) -> bool {
        has_peer_at(self.awaiting_connection_ack@, address) || has_peer_at(self.connected@, address)
    }

    /// Whether this is a server with no peers, nothing scheduled and nothing sent, whose first
    /// peer gets the connection id 1.
    pub open spec fn fresh(self) -> bool {
        &&& self.api@.len() == 0
        &&& self.last_antarc_schedule_check == 0
        &&& self.connection_id_tracker@ == 1
        &&& self.requesting_connection@.len() == 0
        &&& self.awaiting_connection_ack@.len() == 0
        &&& self.connected@.len() == 0
        &&& self.ban_list@.len() == 0
        &&& self.scheduler.list_scheduled_reliable_data_transfer@.len() == 0
        &&& self.scheduler.list_scheduled_unreliable_data_transfer@.len() == 0
        &&& self.scheduler.list_scheduled_reliable_fragment@.len() == 0
        &&& self.scheduler.list_scheduled_unreliable_fragment@.len() == 0
        &&& self.scheduler.list_scheduled_reliable_heartbeat@.len() == 0
        &&& self.scheduler.list_scheduled_unreliable_heartbeat@.len() == 0
        &&& self.scheduler.service.list_scheduled_connection_accepted@.len() == 0
        &&& self.reliability_handler.list_sent_reliable_data_transfer@.len() == 0
        &&& self.reliability_handler.list_sent_reliable_heartbeat@.len() == 0
        &&& self.reliability_handler.list_sent_reliable_fragment@.len() == 0
        &&& self.reliability_handler.service.list_sent_connection_accepted@.len() == 0
    }

    /// A server with no peers, nothing scheduled and nothing sent; the first peer gets the
    /// connection id 1.
    pub fn new() -> (r: Self)
        ensures
            r.fresh(),
    {
        Server {
            api: Vec::with_capacity(32),
            last_antarc_schedule_check: 0,
            connection_id_tracker: ConnectionId::new_unchecked(1),
            requesting_connection: Table::with_capacity(32),
            awaiting_connection_ack: Table::with_capacity(32),
            connected: Table::with_capacity(32),
            ban_list: Vec::with_capacity(32),
            scheduler: Scheduler::new(32),
            reliability_handler: ReliabilityHandler::new(32),
        }
    }

    /// Whether a peer at `address` waits for its connection ack or is connected.
    pub fn connection_request_another_state(&self, address: &SocketAddr) -> (r: bool)
        ensures
            r == self.spec_in_another_state(*address),
    {
        find_address(&self.awaiting_connection_ack, address).is_some() || find_address(
            &self.connected,
            address,
        ).is_some()
    }

    /// Whether `address` is banned.
    pub fn is_banned(&self, address: &SocketAddr) -> (r: bool)
        ensures
            r == self.ban_list@.contains(*address),
    {
        let mut i: usize = 0;
        while i < self.ban_list.len()
            invariant
                i <= self.ban_list@.len(),
                forall|j: int| 0 <= j < i ==> self.ban_list@[j] != *address,
            decreases self.ban_list@.len() - i,
        {
            if self.ban_list[i] == *address {
                return true;
            }
            i = i + 1;
        }
        false
    }

    /// Checks that a connection request from `address` is expected: a peer there that waits
    /// for its connection ack or is connected is in another state, and a banned address is
    /// refused.
    pub fn unexpected_connection(&self, address: &SocketAddr) -> (r: Result<(), ProtocolError>)
        ensures
            self.spec_in_another_state(*address) ==> r == Err::<(), ProtocolError>(
                ProtocolError::PeerInAnotherState(*address),
            ),
            !self.spec_in_another_state(*address) && self.ban_list@.contains(*address) ==> r
                == Err::<(), ProtocolError>(ProtocolError::Banned(*address)),
            !self.spec_in_another_state(*address) && !self.ban_list@.contains(*address) ==> r
                is Ok,
    {
        if self.connection_request_another_state(address) {
            Err(ProtocolError::PeerInAnotherState(*address))
        } else if self.is_banned(address) {
            Err(ProtocolError::Banned(*address))
        } else {
            Ok(())
        }
    }

    /// Accepts the requesting peer `connection_id` at `time`: schedules a connection accepted
    /// packet under `packet_id` and moves the peer to wait for its connection ack. An unknown
    /// id is reported to the user as not found.
    pub fn accept_connection(&mut self, connection_id: ConnectionId, packet_id: PacketId, time: Duration)
        ensures
            old(self).accepted(*final(self), connection_id, packet_id, time),
    {
        if let Some(peer) = self.requesting_connection.remove(&connection_id) {
            let message = ConnectionAccepted {
                meta: MetaMessage { packet_type: PacketType::new_unchecked(CONNECTION_ACCEPTED) },
                connection_id,
            };
            let connection_accepted = Scheduled {
                packet_id,
                address: peer.address,
                time,
                reliability: Reliable {},
                message,
            };
            self.scheduler.service.connection_accepted(connection_accepted);
            let awaiting_connection_ack = peer.await_connection_ack(time);
            let ghost before = self.awaiting_connection_ack@;
            let _ = self.awaiting_connection_ack.insert(connection_id, awaiting_connection_ack);
            proof {
                crate::table::lemma_upserted(
                    before,
                    self.awaiting_connection_ack@,
                    connection_id,
                    awaiting_connection_ack,
                    |p: Peer<AwaitingConnectionAck>| awaiting_from(p, peer, time),
                );
                assert(self.scheduler.service.list_scheduled_connection_accepted@.drop_last() =~= old(self).scheduler.service.list_scheduled_connection_accepted@);
            }
        } else {
            self.api.push(ProtocolEvent::from(ProtocolError::NotFound(connection_id)));
            proof {
                assert(self.api@.drop_last() =~= old(self).api@);
            }
        }
    }

    /// What recording the send of the connection accepted `packet` at `time`, kept for `ttl`,
    /// does: the peer waiting for its connection ack advances its sequence number, and the packet
    /// is kept among the sent connection accepted packets.
    pub open spec fn sent_accept(
        self,
        next: Self,
        packet: Packet<ToSend, ConnectionAccepted>,
        time: Duration,
        ttl: Duration,
    ) -> bool {
        &&& next.api == self.api
        &&& next.last_antarc_schedule_check == self.last_antarc_schedule_check
        &&& next.connection_id_tracker == self.connection_id_tracker
        &&& next.requesting_connection@ == self.requesting_connection@
        &&& next.connected@ == self.connected@
        &&& next.ban_list == self.ban_list
        &&& next.scheduler == self.scheduler
        &&& (has_key(self.awaiting_connection_ack@, packet.message.connection_id) ==> upserted(
            self.awaiting_connection_ack@,
            next.awaiting_connection_ack@,
            packet.message.connection_id,
            |p: Peer<AwaitingConnectionAck>|
                sequence_advanced(
                    p,
                    value_of(self.awaiting_connection_ack@, packet.message.connection_id),
                ),
        ))
        &&& (!has_key(self.awaiting_connection_ack@, packet.message.connection_id)
            ==> next.awaiting_connection_ack@ == self.awaiting_connection_ack@)
        &&& next.reliability_handler.list_sent_reliable_data_transfer == self.reliability_handler.list_sent_reliable_data_transfer
        &&& next.reliability_handler.list_sent_reliable_heartbeat == self.reliability_handler.list_sent_reliable_heartbeat
        &&& next.reliability_handler.list_sent_reliable_fragment == self.reliability_handler.list_sent_reliable_fragment
        &&& next.reliability_handler.service.list_sent_connection_accepted@ == self.reliability_handler.service.list_sent_connection_accepted@.push(as_sent(packet, time, ttl))
    }

    /// Records that the connection accepted `packet` was sent at `time`: the peer waiting for
    /// its connection ack advances its sequence number, and the packet is kept for `ttl`.
    pub fn sent_connection_accepted(
        &mut self,
        packet: Packet<ToSend, ConnectionAccepted>,
        time: Duration,
        ttl: Duration,
    )
        requires
            has_key(old(self).awaiting_connection_ack@, packet.message.connection_id) ==> value_of(
                old(self).awaiting_connection_ack@,
                packet.message.connection_id,
            ).sequence_tracker@ < u32::MAX,
        ensures
            old(self).sent_accept(*final(self), packet, time, ttl),
    {
        let sent = packet.sent(time, ttl);
        let connection_id = sent.message.connection_id;
        match self.awaiting_connection_ack.find(&connection_id) {
            Some(i) => {
                let (k, mut peer) = self.awaiting_connection_ack.take_at(i);
                proof {
                    crate::table::lemma_index_of(old(self).awaiting_connection_ack@, connection_id, i as int);
                }
                peer.sequence_tracker = peer.sequence_tracker.next();
                self.awaiting_connection_ack.put_at(i, k, peer);
                proof {
                    assert(self.awaiting_connection_ack@ =~= old(self).awaiting_connection_ack@.update(i as int, (k, peer)));
                }
            },
            None => {},
        }
        self.reliability_handler.service.connection_accepted(sent);
    }

    /// The connection accepted packet for `scheduled`, sent at `time` with the sequence number
    /// and ack of the peer it accepts.
    pub fn create_connection_accepted(
        &self,
        scheduled: Scheduled<Reliable, ConnectionAccepted>,
        time: Duration,
    ) -> (r: Packet<ToSend, ConnectionAccepted>)
        requires
            has_key(self.awaiting_connection_ack@, scheduled.message.connection_id),
        ensures
            r.delivery == (ToSend {
                id: scheduled.packet_id,
                meta: MetaDelivery { time, address: scheduled.address },
            }),
            r.sequence == value_of(self.awaiting_connection_ack@, scheduled.message.connection_id).sequence_tracker,
            r.ack == value_of(self.awaiting_connection_ack@, scheduled.message.connection_id).remote_ack_tracker,
            r.message == scheduled.message,
    {
        let peer = self.awaiting_connection_ack.get(&scheduled.message.connection_id).unwrap();
        let sequence = peer.sequence_tracker;
        let ack = peer.remote_ack_tracker;
        let packet = scheduled.into_packet(sequence, ack, time);
        packet
    }

    /// Takes the scheduled connection accepted packets at positions `start..end` out of the
    /// scheduler.
    pub fn drain_connection_accepted(&mut self, start: usize, end: usize) -> (r: Vec<
        Scheduled<Reliable, ConnectionAccepted>,
    >)
        requires
            start <= end <= old(self).scheduler.service.list_scheduled_connection_accepted@.len(),
        ensures
            ({
                let old_list = old(self).scheduler.service.list_scheduled_connection_accepted@;
                &&& r@ == old_list.subrange(start as int, end as int)
                &&& final(self).scheduler.service.list_scheduled_connection_accepted@ == old_list.subrange(0, start as int) + old_list.subrange(end as int, old_list.len() as int)
            }),
            final(self).api == old(self).api,
            final(self).connection_id_tracker == old(self).connection_id_tracker,
            final(self).requesting_connection@ == old(self).requesting_connection@,
            final(self).awaiting_connection_ack@ == old(self).awaiting_connection_ack@,
            final(self).connected@ == old(self).connected@,
            old(self).keeps_rest(*final(self)),
            final(self).scheduler.list_scheduled_reliable_data_transfer == old(self).scheduler.list_scheduled_reliable_data_transfer,
            final(self).scheduler.list_scheduled_unreliable_data_transfer == old(self).scheduler.list_scheduled_unreliable_data_transfer,
            final(self).scheduler.list_scheduled_reliable_fragment == old(self).scheduler.list_scheduled_reliable_fragment,
            final(self).scheduler.list_scheduled_unreliable_fragment == old(self).scheduler.list_scheduled_unreliable_fragment,
            final(self).scheduler.list_scheduled_reliable_heartbeat == old(self).scheduler.list_scheduled_reliable_heartbeat,
            final(self).scheduler.list_scheduled_unreliable_heartbeat == old(self).scheduler.list_scheduled_unreliable_heartbeat,
    {
        crate::drain_range(&mut self.scheduler.service.list_scheduled_connection_accepted, start, end)
    }

    /// Takes the last sent connection accepted packet and returns it ready to be sent again at
    /// `time`, if its send time plus `time` exceeds the retry threshold;
    /// otherwise the list stays as it is.
    pub fn resend_reliable_connection_accepted(&mut self, time: Duration) -> (r: Option<
        Packet<ToSend, ConnectionAccepted>,
    >)
        requires
            can_retry(old(self).reliability_handler.service.list_sent_connection_accepted@, time),
        ensures
            retry_outcome(
                old(self).reliability_handler.service.list_sent_connection_accepted@,
                final(self).reliability_handler.service.list_sent_connection_accepted@,
                time,
                r,
            ),
            final(self).api == old(self).api,
            final(self).connection_id_tracker == old(self).connection_id_tracker,
            final(self).requesting_connection@ == old(self).requesting_connection@,
            final(self).awaiting_connection_ack@ == old(self).awaiting_connection_ack@,
            final(self).connected@ == old(self).connected@,
            final(self).scheduler == old(self).scheduler,
            final(self).ban_list == old(self).ban_list,
            final(self).last_antarc_schedule_check == old(self).last_antarc_schedule_check,
            final(self).reliability_handler.list_sent_reliable_data_transfer == old(self).reliability_handler.list_sent_reliable_data_transfer,
            final(self).reliability_handler.list_sent_reliable_heartbeat == old(self).reliability_handler.list_sent_reliable_heartbeat,
            final(self).reliability_handler.list_sent_reliable_fragment == old(self).reliability_handler.list_sent_reliable_fragment,
    {
        self.reliability_handler.service.resend_reliable_connection_accepted(time)
    }
}


impl RawPacket<Server> {
    /// Decodes the packet as received at `time`, keeping the kinds a server accepts.
    pub fn decode(self, time: Duration) -> (r: Result<DecodedForServer, ProtocolError>)
        requires
            decodable(self.bytes@),
        ensures
            crate::packets::decode::server_result_view(r) == for_server(
                decoded(self.bytes@, self.address, time),
            ),
    {
        let decoded = self.inner_decode(time)?;
        DecodedForServer::try_from(decoded)
    }
}

/// The peer at `address` that starts requesting a connection at `time`, acknowledging the
/// remote sequence number `remote_ack_tracker`.
pub open spec fn new_requesting_peer(
    address: SocketAddr,
    remote_ack_tracker: u32,
    time: Duration,
) -> Peer<RequestingConnection> {
    Peer {
        sequence_tracker: sequence_of(1),
        remote_ack_tracker,
        local_ack_tracker: 0,
        address,
        connection: RequestingConnection {
            meta: MetaConnection {
                time_entered_state: time,
                latest_sent_packet_id: 0,
                latest_sent_packet_time: 0,
            },
            attempts: 0,
        },
    }
}

impl Server {
    /// Whether `next` is `self` once the requesting peer `q` was accepted under `id`, with a
    /// connection accepted packet scheduled under `packet_id` at `time`: no peer under `id`
    /// requests any more, `q` waits for its connection ack under `id`, and the packet to `q`'s
    /// address is scheduled.
    pub open spec fn accepts(
        self,
        next: Self,
        id: ConnectionId,
        q: Peer<RequestingConnection>,
        packet_id: PacketId,
        time: Duration,
    ) -> bool {
        &&& self.keeps_rest(next)
        &&& next.api == self.api
        &&& next.connected@ == self.connected@
        &&& removed(self.requesting_connection@, next.requesting_connection@, id)
        &&& upserted(
            self.awaiting_connection_ack@,
            next.awaiting_connection_ack@,
            id,
            |p: Peer<AwaitingConnectionAck>| awaiting_from(p, q, time),
        )
        &&& self.scheduled_accept(next, id, packet_id, q.address, time)
    }

    /// Whether a connection request from `address` can be handled without overflow: the
    /// attempts of a peer requesting from there, or the id the next new peer gets, can grow.
    pub open spec fn can_request(self, address: SocketAddr) -> bool {
        !self.spec_in_another_state(address) && !self.ban_list@.contains(address) ==> match first_at_address(
            self.requesting_connection@,
            address,
        ) {
            Some(i) => self.requesting_connection@[i].1.connection.attempts < u32::MAX,
            None => self.connection_id_tracker@ < u16::MAX,
        }
    }

    /// What receiving a connection request from `address`, with the sequence number `sequence`,
    /// at `time` does: a peer in another state or a banned address is refused; otherwise the
    /// peer requesting from `address` is accepted, or else a new peer, which gets the next
    /// connection id, and a connection accepted packet is scheduled under `packet_id`.
    pub open spec fn received_connection_request(
        self,
        next: Self,
        address: SocketAddr,
        sequence: u32,
        packet_id: PacketId,
        time: Duration,
        r: Result<bool, ProtocolError>,
    ) -> bool {
        if self.spec_in_another_state(address) {
            r == Err::<bool, ProtocolError>(ProtocolError::PeerInAnotherState(address))
                && self.unchanged(next)
        } else if self.ban_list@.contains(address) {
            r == Err::<bool, ProtocolError>(ProtocolError::Banned(address)) && self.unchanged(next)
        } else {
            &&& r == Ok::<bool, ProtocolError>(true)
            &&& match first_at_address(self.requesting_connection@, address) {
                Some(i) => {
                    &&& next.connection_id_tracker == self.connection_id_tracker
                    &&& self.accepts(
                        next,
                        self.requesting_connection@[i].0,
                        self.requesting_connection@[i].1,
                        packet_id,
                        time,
                    )
                },
                None => {
                    &&& next.connection_id_tracker@ == self.connection_id_tracker@ + 1
                    &&& self.accepts(
                        next,
                        self.connection_id_tracker,
                        new_requesting_peer(address, sequence, time),
                        packet_id,
                        time,
                    )
                },
            }
        }
    }

    /// What receiving a data transfer or heartbeat for `id`, with the sequence number
    /// `sequence` and the ack `ack`, at `time` does: a connected peer takes them as its acks; a
    /// peer awaiting its connection ack under `id` takes them too and becomes connected, and
    /// for a data transfer its payload is reported to the user (`payload` is `Some`). Packets
    /// for other ids change nothing.
    pub open spec fn received_from_peer(
        self,
        next: Self,
        id: ConnectionId,
        sequence: u32,
        ack: u32,
        payload: Option<Seq<u8>>,
        time: Duration,
        r: Result<bool, ProtocolError>,
    ) -> bool {
        &&& r == Ok::<bool, ProtocolError>(false)
        &&& if has_key(self.connected@, id) {
            &&& self.keeps_rest(next)
            &&& next.api == self.api
            &&& next.connection_id_tracker == self.connection_id_tracker
            &&& next.requesting_connection@ == self.requesting_connection@
            &&& next.awaiting_connection_ack@ == self.awaiting_connection_ack@
            &&& next.scheduler == self.scheduler
            &&& upserted(
                self.connected@,
                next.connected@,
                id,
                |q: Peer<Connected>| acks_updated(q, value_of(self.connected@, id), sequence, ack),
            )
        } else if has_key(self.awaiting_connection_ack@, id) {
            &&& self.keeps_rest(next)
            &&& next.connection_id_tracker == self.connection_id_tracker
            &&& next.requesting_connection@ == self.requesting_connection@
            &&& next.scheduler == self.scheduler
            &&& removed(self.awaiting_connection_ack@, next.awaiting_connection_ack@, id)
            &&& upserted(
                self.connected@,
                next.connected@,
                id,
                |q: Peer<Connected>|
                    connected_from(
                        q,
                        value_of(self.awaiting_connection_ack@, id),
                        time,
                        id,
                        sequence,
                        ack,
                    ),
            )
            &&& match payload {
                Some(bytes) => {
                    &&& next.api@.len() == self.api@.len() + 1
                    &&& next.api@.drop_last() == self.api@
                    &&& is_data_transfer_event(next.api@.last(), id, bytes)
                },
                None => next.api == self.api,
            }
        } else {
            self.unchanged(next)
        }
    }

    /// Whether the packet `bytes` from `address` can be handled: a fragment cannot, and a
    /// connection request must not overflow a counter. The kind of a packet does not depend on
    /// when it arrives, so it is read here as if it arrived at time zero.
    pub open spec fn can_receive(self, bytes: Seq<u8>, address: SocketAddr) -> bool {
        match for_server(decoded(bytes, address, 0)) {
            Ok(DecodedView::Fragment(_)) => false,
            Ok(DecodedView::ConnectionRequest(_)) => self.can_request(address),
            _ => true,
        }
    }

    /// What receiving the packet `bytes` from `address` at `time` does: a packet that does not
    /// decode, or that a server does not accept, is an error and changes nothing; otherwise the
    /// packet is handled according to its kind. The result says whether a connection accepted
    /// packet was scheduled under `packet_id`.
    pub open spec fn received(
        self,
        next: Self,
        bytes: Seq<u8>,
        address: SocketAddr,
        packet_id: PacketId,
        time: Duration,
        r: Result<bool, ProtocolError>,
    ) -> bool {
        match for_server(decoded(bytes, address, time)) {
            Err(e) => r == Err::<bool, ProtocolError>(e) && self.unchanged(next),
            Ok(DecodedView::ConnectionRequest(p)) => self.received_connection_request(
                next,
                p.delivery.meta.address,
                p.sequence,
                packet_id,
                time,
                r,
            ),
            Ok(DecodedView::DataTransfer(p)) => self.received_from_peer(
                next,
                connection_id_of(p.message.connection_id),
                p.sequence,
                p.ack,
                Some(p.message.payload),
                time,
                r,
            ),
            Ok(DecodedView::Heartbeat(p)) => self.received_from_peer(
                next,
                connection_id_of(p.message.connection_id),
                p.sequence,
                p.ack,
                None,
                time,
                r,
            ),
            _ => false,
        }
    }

    /// Handles the packet `raw_packet` received at `time`; a connection accepted packet it
    /// schedules gets the id `packet_id`, and the result says whether one was scheduled.
    pub fn on_received(&mut self, raw_packet: RawPacket<Server>, packet_id: PacketId, time: Duration) -> (r:
        Result<bool, ProtocolError>)
        requires
            decodable(raw_packet.bytes@),
            old(self).can_receive(raw_packet.bytes@, raw_packet.address),
        ensures
            old(self).received(*final(self), raw_packet.bytes@, raw_packet.address, packet_id, time, r),
    {
        proof {
            crate::packets::raw::lemma_decoded_kind(raw_packet.bytes@, raw_packet.address, time, 0);
        }
        let decoded = raw_packet.decode(time)?;
        proof {
            broadcast use crate::packets::lemma_connection_id_of_value;
        }
        match decoded {
            DecodedForServer::ConnectionRequest { packet } => {
                let address = packet.delivery.meta.address;
                let sequence = packet.sequence.get();
                self.on_connection_request(address, sequence, packet_id, time)
            },
            DecodedForServer::DataTransfer { packet } => {
                let connection_id = packet.message.connection_id;
                let sequence = packet.sequence.get();
                let ack = packet.ack;
                self.on_from_peer(connection_id, sequence, ack, Some(packet.message.payload), time)
            },
            DecodedForServer::Fragment { packet } => {
                proof {
                    assert(false);
                }
                Ok(false)
            },
            DecodedForServer::Heartbeat { packet } => {
                let connection_id = packet.message.connection_id;
                let sequence = packet.sequence.get();
                let ack = packet.ack;
                self.on_from_peer(connection_id, sequence, ack, None, time)
            },
        }
    }

    fn on_connection_request(
        &mut self,
        address: SocketAddr,
        sequence: u32,
        packet_id: PacketId,
        time: Duration,
    ) -> (r: Result<bool, ProtocolError>)
        requires
            old(self).can_request(address),
        ensures
            old(self).received_connection_request(*final(self), address, sequence, packet_id, time, r),
    {
        self.unexpected_connection(&address)?;
        self.requesting_connection.unique();
        let connection_id = match find_address(&self.requesting_connection, &address) {
            Some(i) => {
                let (k, mut peer) = self.requesting_connection.take_at(i);
                proof {
                    crate::table::lemma_index_of(old(self).requesting_connection@, k, i as int);
                }
                peer.connection.attempts = peer.connection.attempts + 1;
                self.requesting_connection.put_at(i, k, peer);
                proof {
                    let mid = self.requesting_connection@;
                    assert(mid =~= old(self).requesting_connection@.update(i as int, (k, peer)));
                    crate::table::lemma_index_of(mid, k, i as int);
                    assert(mid.remove(i as int) =~= old(self).requesting_connection@.remove(i as int));
                }
                k
            },
            None => {
                let connection_id = self.connection_id_tracker;
                let new_peer = Peer::new(time, address, sequence);
                proof {
                    broadcast use crate::sequence::lemma_sequence_of_value, crate::sequence::lemma_sequence_of_view;
                    crate::sequence::lemma_sequence_view_injective(new_peer.sequence_tracker, sequence_of(1));
                }
                let ghost before = self.requesting_connection@;
                let _ = self.requesting_connection.insert(connection_id, new_peer);
                proof {
                    let mid = self.requesting_connection@;
                    if has_key(before, connection_id) {
                        let j = index_of(before, connection_id);
                        crate::table::lemma_index_of(mid, connection_id, j);
                        assert(mid.remove(j) =~= before.remove(j));
                    } else {
                        crate::table::lemma_index_of(mid, connection_id, before.len() as int);
                        assert(mid.remove(before.len() as int) =~= before);
                    }
                }
                self.connection_id_tracker = ConnectionId::new_unchecked(connection_id.get() + 1);
                connection_id
            },
        };
        self.accept_connection(connection_id, packet_id, time);
        Ok(true)
    }

    fn on_from_peer(
        &mut self,
        connection_id: ConnectionId,
        sequence: u32,
        ack: u32,
        payload: Option<Vec<u8>>,
        time: Duration,
    ) -> (r: Result<bool, ProtocolError>)
        ensures
            old(self).received_from_peer(
                *final(self),
                connection_id,
                sequence,
                ack,
                match payload {
                    Some(v) => Some(v@),
                    None => None,
                },
                time,
                r,
            ),
    {
        if update_acks(&mut self.connected, connection_id, sequence, ack) {
        } else if let Some(mut peer) = self.awaiting_connection_ack.remove(&connection_id) {
            peer.remote_ack_tracker = sequence;
            peer.local_ack_tracker = ack;
            let connected = peer.connected(time, connection_id);
            let ghost awaited = value_of(old(self).awaiting_connection_ack@, connection_id);
            let ghost before = self.connected@;
            let _ = self.connected.insert(connection_id, connected);
            proof {
                crate::table::lemma_upserted(
                    before,
                    self.connected@,
                    connection_id,
                    connected,
                    |q: Peer<Connected>| connected_from(q, awaited, time, connection_id, sequence, ack),
                );
            }
            if let Some(payload) = payload {
                self.api.push(ProtocolEvent::DataTransfer { connection_id, payload });
                proof {
                    assert(self.api@.drop_last() =~= old(self).api@);
                }
            }
        }
        Ok(false)
    }
}

impl Server {
    /// Whether `next` holds the peers of `self` once a packet for `id` was sent: the connected
    /// peer `id`, if there is one, advances its sequence number when `advance`.
    pub open spec fn peers_after_send(self, next: Self, id: ConnectionId, advance: bool) -> bool {
        &&& next.requesting_connection@ == self.requesting_connection@
        &&& next.awaiting_connection_ack@ == self.awaiting_connection_ack@
        &&& if has_key(self.connected@, id) && advance {
            upserted(
                self.connected@,
                next.connected@,
                id,
                |p: Peer<Connected>| sequence_advanced(p, value_of(self.connected@, id)),
            )
        } else {
            next.connected@ == self.connected@
        }
    }

    /// Whether recording a send for `id` can advance a sequence number without overflow.
    pub open spec fn can_advance(self, id: ConnectionId, advance: bool) -> bool {
        advance && has_key(self.connected@, id) ==> value_of(self.connected@, id).sequence_tracker@
            < u32::MAX
    }

    /// Whether `next` is `self` apart from its peers and its reliability handler's lists of
    /// sent data transfers, fragments and heartbeats.
    pub open spec fn same_but_sent(self, next: Self) -> bool {
        &&& next.api == self.api
        &&& next.last_antarc_schedule_check == self.last_antarc_schedule_check
        &&& next.connection_id_tracker == self.connection_id_tracker
        &&& next.ban_list == self.ban_list
        &&& next.scheduler == self.scheduler
        &&& next.reliability_handler.service == self.reliability_handler.service
    }

    fn record_send(&mut self, connection_id: ConnectionId, advance: bool)
        requires
            old(self).can_advance(connection_id, advance),
        ensures
            old(self).peers_after_send(*final(self), connection_id, advance),
            old(self).same_but_sent(*final(self)),
            final(self).reliability_handler == old(self).reliability_handler,
    {
        if advance {
            advance_sequence(&mut self.connected, connection_id);
        }
    }
}

impl Service for Server {
    type SchedulerType = ServerScheduler;

    type ReliabilityHandlerType = ServerReliabilityHandler;

    open spec fn spec_scheduler(&self) -> Scheduler<ServerScheduler> {
        self.scheduler
    }

    open spec fn spec_reliability_handler(&self) -> ReliabilityHandler<ServerReliabilityHandler> {
        self.reliability_handler
    }

    open spec fn spec_connected(&self) -> Table<ConnectionId, Peer<Connected>> {
        self.connected
    }

    open spec fn spec_same_but_scheduler(&self, other: Self) -> bool {
        &&& other.api == self.api
        &&& other.last_antarc_schedule_check == self.last_antarc_schedule_check
        &&& other.connection_id_tracker == self.connection_id_tracker
        &&& other.requesting_connection == self.requesting_connection
        &&& other.awaiting_connection_ack == self.awaiting_connection_ack
        &&& other.connected == self.connected
        &&& other.ban_list == self.ban_list
        &&& other.reliability_handler == self.reliability_handler
    }

    open spec fn spec_same_but_reliability_handler(&self, other: Self) -> bool {
        &&& other.api == self.api
        &&& other.last_antarc_schedule_check == self.last_antarc_schedule_check
        &&& other.connection_id_tracker == self.connection_id_tracker
        &&& other.requesting_connection == self.requesting_connection
        &&& other.awaiting_connection_ack == self.awaiting_connection_ack
        &&& other.connected == self.connected
        &&& other.ban_list == self.ban_list
        &&& other.scheduler == self.scheduler
    }

    open spec fn spec_can_send_data_transfer(&self, packet: Packet<ToSend, DataTransfer>) -> bool {
        self.can_advance(packet.message.connection_id, true)
    }

    /// The connected peer's sequence number advances, and a reliable packet is kept for `ttl`.
    open spec fn spec_sent_data_transfer(
        &self,
        packet: Packet<ToSend, DataTransfer>,
        time: Duration,
        reliability: ReliabilityType,
        ttl: Duration,
        next: Self,
    ) -> bool {
        &&& self.peers_after_send(next, packet.message.connection_id, true)
        &&& self.same_but_sent(next)
        &&& next.reliability_handler.list_sent_reliable_heartbeat == self.reliability_handler.list_sent_reliable_heartbeat
        &&& next.reliability_handler.list_sent_reliable_fragment == self.reliability_handler.list_sent_reliable_fragment
        &&& next.reliability_handler.list_sent_reliable_data_transfer@ == if reliability == ReliabilityType::Reliable {
            self.reliability_handler.list_sent_reliable_data_transfer@.push(as_sent(packet, time, ttl))
        } else {
            self.reliability_handler.list_sent_reliable_data_transfer@
        }
    }

    open spec fn spec_can_send_fragment(&self, packet: Packet<ToSend, Fragment>) -> bool {
        &&& packet.message.total > 0
        &&& self.can_advance(
            packet.message.connection_id,
            packet.message.index == packet.message.total - 1,
        )
    }

    /// The connected peer's sequence number advances only with the last fragment of a payload
    /// (the fragments of a payload share their sequence number), and a reliable packet is kept
    /// for `ttl`.
    open spec fn spec_sent_fragment(
        &self,
        packet: Packet<ToSend, Fragment>,
        time: Duration,
        reliability: ReliabilityType,
        ttl: Duration,
        next: Self,
    ) -> bool {
        &&& self.peers_after_send(
            next,
            packet.message.connection_id,
            packet.message.index == packet.message.total - 1,
        )
        &&& self.same_but_sent(next)
        &&& next.reliability_handler.list_sent_reliable_heartbeat == self.reliability_handler.list_sent_reliable_heartbeat
        &&& next.reliability_handler.list_sent_reliable_data_transfer == self.reliability_handler.list_sent_reliable_data_transfer
        &&& next.reliability_handler.list_sent_reliable_fragment@ == if reliability == ReliabilityType::Reliable {
            self.reliability_handler.list_sent_reliable_fragment@.push(as_sent(packet, time, ttl))
        } else {
            self.reliability_handler.list_sent_reliable_fragment@
        }
    }

    open spec fn spec_can_send_heartbeat(&self, packet: Packet<ToSend, Heartbeat>) -> bool {
        self.can_advance(packet.message.connection_id, true)
    }

    /// The connected peer's sequence number advances, and a reliable packet is kept for `ttl`.
    open spec fn spec_sent_heartbeat(
        &self,
        packet: Packet<ToSend, Heartbeat>,
        time: Duration,
        reliability: ReliabilityType,
        ttl: Duration,
        next: Self,
    ) -> bool {
        &&& self.peers_after_send(next, packet.message.connection_id, true)
        &&& self.same_but_sent(next)
        &&& next.reliability_handler.list_sent_reliable_fragment == self.reliability_handler.list_sent_reliable_fragment
        &&& next.reliability_handler.list_sent_reliable_data_transfer == self.reliability_handler.list_sent_reliable_data_transfer
        &&& next.reliability_handler.list_sent_reliable_heartbeat@ == if reliability == ReliabilityType::Reliable {
            self.reliability_handler.list_sent_reliable_heartbeat@.push(as_sent(packet, time, ttl))
        } else {
            self.reliability_handler.list_sent_reliable_heartbeat@
        }
    }

    fn scheduler(&self) -> (r: &Scheduler<ServerScheduler>) {
        &self.scheduler
    }

    fn scheduler_mut(&mut self) -> (r: &mut Scheduler<ServerScheduler>) {
        &mut self.scheduler
    }

    fn reliability_handler(&self) -> (r: &ReliabilityHandler<ServerReliabilityHandler>) {
        &self.reliability_handler
    }

    fn reliability_handler_mut(&mut self) -> (r: &mut ReliabilityHandler<ServerReliabilityHandler>) {
        &mut self.reliability_handler
    }

    fn connected(&self) -> (r: &Table<ConnectionId, Peer<Connected>>) {
        &self.connected
    }

    fn sent_data_transfer(
        &mut self,
        packet: Packet<ToSend, DataTransfer>,
        time: Duration,
        reliability: ReliabilityType,
        ttl: Duration,
    ) {
        let sent = packet.sent(time, ttl);
        let connection_id = sent.message.connection_id;
        self.record_send(connection_id, true);
        if let ReliabilityType::Reliable = reliability {
            self.reliability_handler.list_sent_reliable_data_transfer.push(sent);
        }
    }

    fn sent_fragment(
        &mut self,
        packet: Packet<ToSend, Fragment>,
        time: Duration,
        reliability: ReliabilityType,
        ttl: Duration,
    ) {
        let sent = packet.sent(time, ttl);
        let connection_id = sent.message.connection_id;
        let last = sent.message.index == sent.message.total - 1;
        self.record_send(connection_id, last);
        if let ReliabilityType::Reliable = reliability {
            self.reliability_handler.list_sent_reliable_fragment.push(sent);
        }
    }

    fn sent_heartbeat(
        &mut self,
        packet: Packet<ToSend, Heartbeat>,
        time: Duration,
        reliability: ReliabilityType,
        ttl: Duration,
    ) {
        let sent = packet.sent(time, ttl);
        let connection_id = sent.message.connection_id;
        self.record_send(connection_id, true);
        if let ReliabilityType::Reliable = reliability {
            self.reliability_handler.list_sent_reliable_heartbeat.push(sent);
        }
    }
}

/// A server with no peers and no bans accepts a connection request from any address: the
/// peer gets the connection id 1 and waits for its connection ack with the first sequence
/// number, acknowledging the request's sequence number; the next peer will get the id 2; and a
/// connection accepted packet for that id is scheduled to the address.
pub proof fn law_fresh_server_accepts(
    server: Server,
    next: Server,
    address: SocketAddr,
    sequence: u32,
    packet_id: PacketId,
    time: Duration,
    r: Result<bool, ProtocolError>,
)
    requires
        server.fresh(),
        server.received_connection_request(next, address, sequence, packet_id, time, r),
    ensures
        r == Ok::<bool, ProtocolError>(true),
        next.connection_id_tracker@ == 2,
        next.requesting_connection@.len() == 0,
        next.awaiting_connection_ack@.len() == 1,
        next.awaiting_connection_ack@[0].0 == connection_id_of(1),
        next.awaiting_connection_ack@[0].1.address == address,
        next.awaiting_connection_ack@[0].1.sequence_tracker == sequence_of(1),
        next.awaiting_connection_ack@[0].1.remote_ack_tracker == sequence,
        next.scheduler.service.list_scheduled_connection_accepted@.len() == 1,
        next.scheduler.service.list_scheduled_connection_accepted@[0].packet_id == packet_id,
        next.scheduler.service.list_scheduled_connection_accepted@[0].address == address,
        next.scheduler.service.list_scheduled_connection_accepted@[0].message.connection_id
            == connection_id_of(1),
{
    broadcast use crate::packets::lemma_connection_id_of_value;

    assert(!has_peer_at(server.awaiting_connection_ack@, address));
    assert(!has_peer_at(server.connected@, address));
    assert(!server.ban_list@.contains(address));
    assert(first_at_address(server.requesting_connection@, address) is None);
    assert(!has_key(server.awaiting_connection_ack@, server.connection_id_tracker));
    assert(server.connection_id_tracker == connection_id_of(1));
    let list = next.scheduler.service.list_scheduled_connection_accepted@;
    assert(list.drop_last().len() == 0);
    assert(list[0] == list.last());
}

/// Whether the packet `bytes` from `address` decodes to a connection request. The kind of a
/// packet does not depend on when it arrives, so it is read here as if it arrived at time zero.
pub open spec fn is_connection_request(bytes: Seq<u8>, address: SocketAddr) -> bool {
    for_server(decoded(bytes, address, 0)) matches Ok(DecodedView::ConnectionRequest(_))
}

impl Server {
    /// Whether the packet `bytes` from `address` is a connection request that this server
    /// accepts: no peer there waits for its connection ack or is connected, and the address is
    /// not banned.
    pub open spec fn accepts_request(self, bytes: Seq<u8>, address: SocketAddr) -> bool {
        &&& is_connection_request(bytes, address)
        &&& !self.spec_in_another_state(address)
        &&& !self.ban_list@.contains(address)
    }

    /// Whether a connection request from `address` can be handled without overflow.
    pub fn can_request_from(&self, address: &SocketAddr) -> (r: bool)
        ensures
            r == self.can_request(*address),
    {
        if self.connection_request_another_state(address) || self.is_banned(address) {
            return true;
        }
        match find_address(&self.requesting_connection, address) {
            Some(i) => self.requesting_connection.entry(i).1.connection.attempts < u32::MAX,
            None => self.connection_id_tracker.get() < u16::MAX,
        }
    }

    /// Whether this server can handle the packet `raw_packet`, and whether it is a connection
    /// request.
    pub fn check_received(&self, raw_packet: &RawPacket<Server>) -> (r: (bool, bool))
        requires
            decodable(raw_packet.bytes@),
        ensures
            r.0 == self.can_receive(raw_packet.bytes@, raw_packet.address),
            r.1 == is_connection_request(raw_packet.bytes@, raw_packet.address),
    {
        let bytes = crate::payload::copy_range(raw_packet.bytes.as_slice(), 0, raw_packet.bytes.len());
        assert(bytes@ =~= raw_packet.bytes@);
        let copy = RawPacket::<Server>::new(raw_packet.address, bytes);
        match copy.decode(0) {
            Ok(DecodedForServer::ConnectionRequest { .. }) => (
                self.can_request_from(&raw_packet.address),
                true,
            ),
            Ok(DecodedForServer::Fragment { .. }) => (false, false),
            _ => (true, false),
        }
    }

    /// Schedules `payload` for `send_to` under `packet_id` at `time`, cut in chunks of the
    /// largest fragment size: every chunk for every target, chunk by chunk. Returns
    /// `packet_id`, the id by which the scheduled packets are known.
    pub fn schedule(
        &mut self,
        reliability: ReliabilityType,
        send_to: SendTo,
        payload: Payload,
        packet_id: PacketId,
        time: Duration,
    ) -> (r: Result<PacketId, ProtocolError>)
        ensures
            scheduled_payload(
                *old(self),
                *final(self),
                reliability,
                send_to,
                payload@,
                MAX_FRAGMENT_SIZE as nat,
                packet_id,
                time,
                r,
            ),
    {
        schedule_payload(self, reliability, send_to, &payload, MAX_FRAGMENT_SIZE, packet_id, time)
    }
}

} // verus!
