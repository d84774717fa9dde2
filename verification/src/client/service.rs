//! The client side of the protocol: it connects to a server and exchanges packets with it.
use vstd::prelude::*;

use crate::duration::Duration;
use crate::errors::ProtocolError;
use crate::events::{is_data_transfer_event, ClientEvent, ProtocolEvent};
use crate::packets::decode::{for_client, DecodedForClient, DecodedView};
use crate::packets::message::{indexed_payloads, joined_by_index};
use crate::packets::raw::{decodable, decoded, RawPacket};
use crate::packets::scheduled::{Reliable, ReliabilityType, Scheduled};
use crate::packets::{
    as_sent, connection_id_of, ConnectionAccepted, ConnectionAcceptedView, ConnectionId,
    ConnectionRequest, DataTransfer, DataTransferView, Fragment, FragmentView, Heartbeat,
    HeartbeatView, MetaDelivery, Packet, PacketId, PacketView, Received, Sent, ToSend,
};
use crate::peers::{
    acks_updated, advance_sequence, connected_from, promoted, sequence_advanced, update_acks,
    AwaitingConnectionAck, Connected, Peer, RequestingConnection,
};
use crate::reliability::{
    can_retry, keep_unexpired, retry_last, retry_outcome, unexpired, ReliabilityHandler,
};
use crate::scheduler::Scheduler;
use crate::sequence::sequence_of;
use crate::service_traits::{Service, ServiceReliability, ServiceScheduler};
use crate::socket_addr::SocketAddr;
use crate::table::{has_key, index_of, keys_unique, removed, upserted, value_of, Table};

verus! {

/// The connection requests a client has scheduled.
#[derive(Debug)]
pub struct ClientScheduler {
    pub list_scheduled_connection_request: Vec<Scheduled<Reliable, ConnectionRequest>>,
}

impl ClientScheduler {
    /// Schedules a connection request.
    pub fn connection_request(&mut self, scheduled: Scheduled<Reliable, ConnectionRequest>)
        ensures
            final(self).list_scheduled_connection_request@ == old(self).list_scheduled_connection_request@.push(scheduled),
    {
        self.list_scheduled_connection_request.push(scheduled);
    }
}

impl ServiceScheduler for ClientScheduler {
    open spec fn spec_is_empty(&self) -> bool {
        self.list_scheduled_connection_request@.len() == 0
    }

    fn new(capacity: usize) -> (r: Self) {
        ClientScheduler { list_scheduled_connection_request: Vec::with_capacity(capacity) }
    }
}

/// The connection requests a client has sent.
#[derive(Debug)]
pub struct ClientReliabilityHandler {
    pub list_sent_connection_request: Vec<Packet<Sent, ConnectionRequest>>,
}

impl ServiceReliability for ClientReliabilityHandler {
    open spec fn spec_is_empty(&self) -> bool {
        self.list_sent_connection_request@.len() == 0
    }

    /// Polling drops the sent connection requests whose time to live has run out.
    open spec fn spec_polled(&self, now: Duration, next: Self) -> bool {
        next.list_sent_connection_request@ == unexpired(self.list_sent_connection_request@, now)
    }

    fn new(capacity: usize) -> (r: Self) {
        ClientReliabilityHandler { list_sent_connection_request: Vec::with_capacity(capacity) }
    }

    fn poll(&mut self, now: Duration) {
        keep_unexpired(&mut self.list_sent_connection_request, now);
    }
}

impl ClientReliabilityHandler {
    /// Keeps a sent connection request.
    pub fn connection_request(&mut self, packet: Packet<Sent, ConnectionRequest>)
        ensures
            final(self).list_sent_connection_request@ == old(self).list_sent_connection_request@.push(packet),
    {
        self.list_sent_connection_request.push(packet);
    }

    /// Takes the last sent connection request and returns it ready to be sent again at `now`,
    /// if its send time plus `now` exceeds the retry threshold;
    /// otherwise the list stays as it is.
    pub fn resend_reliable_connection_request(&mut self, now: Duration) -> (r: Option<
        Packet<ToSend, ConnectionRequest>,
    >)
        requires
            can_retry(old(self).list_sent_connection_request@, now),
        ensures
            retry_outcome(
                old(self).list_sent_connection_request@,
                final(self).list_sent_connection_request@,
                now,
                r,
            ),
    {
        retry_last(&mut self.list_sent_connection_request, now)
    }
}

/// A client: the events for its user, the peers it connects to in each state, its scheduler and
/// its reliability handler.
#[derive(Debug)]
pub struct Client {
    pub api: Vec<ProtocolEvent<ClientEvent>>,
    pub last_sent_time: Duration,
    pub requesting_connection: Table<SocketAddr, Peer<RequestingConnection>>,
    pub awaiting_connection_ack: Table<SocketAddr, Peer<AwaitingConnectionAck>>,
    pub connected: Table<ConnectionId, Peer<Connected>>,
    pub scheduler: Scheduler<ClientScheduler>,
    pub reliability_handler: ReliabilityHandler<ClientReliabilityHandler>,
}

impl Client {
    /// Whether `next` holds the same events, peer tables, scheduler and reliability handler as
    /// `self`, apart from what the other clauses of a contract say.
    pub open spec fn keeps_rest(self, next: Self) -> bool {
        &&& next.last_sent_time == self.last_sent_time
        &&& next.requesting_connection@ == self.requesting_connection@
        &&& next.scheduler == self.scheduler
        &&& next.reliability_handler == self.reliability_handler
    }

    /// Whether `next` is `self`, as far as anything observable goes.
    pub open spec fn unchanged(self, next: Self) -> bool {
        &&& self.keeps_rest(next)
        &&& next.api == self.api
        &&& next.awaiting_connection_ack@ == self.awaiting_connection_ack@
        &&& next.connected@ == self.connected@
    }

    /// Whether the peers of `next` are those of `self` once a packet for `connection_id`, to
    /// `address`, was sent at `time`: a peer awaiting its connection ack at `address` becomes
    /// connected under `connection_id`, and the connected peer's sequence number advances when
    /// `advance`.
    pub open spec fn peers_after_send(
        self,
        next: Self,
        address: SocketAddr,
        connection_id: ConnectionId,
        time: Duration,
        advance: bool,
    ) -> bool {
        &&& next.requesting_connection@ == self.requesting_connection@
        &&& removed(self.awaiting_connection_ack@, next.awaiting_connection_ack@, address)
        &&& if has_key(self.awaiting_connection_ack@, address) {
            upserted(
                self.connected@,
                next.connected@,
                connection_id,
                |p: Peer<Connected>|
                    promoted(
                        p,
                        value_of(self.awaiting_connection_ack@, address),
                        time,
                        connection_id,
                        advance,
                    ),
            )
        } else if has_key(self.connected@, connection_id) && advance {
            upserted(
                self.connected@,
                next.connected@,
                connection_id,
                |p: Peer<Connected>| sequence_advanced(p, value_of(self.connected@, connection_id)),
            )
        } else {
            next.connected@ == self.connected@
        }
    }

    /// Whether recording a send to `address` for `connection_id` can advance a sequence number
    /// without overflow.
    pub open spec fn can_advance(self, address: SocketAddr, connection_id: ConnectionId, advance: bool) -> bool {
        advance ==> if has_key(self.awaiting_connection_ack@, address) {
            value_of(self.awaiting_connection_ack@, address).sequence_tracker@ < u32::MAX
        } else if has_key(self.connected@, connection_id) {
            value_of(self.connected@, connection_id).sequence_tracker@ < u32::MAX
        } else {
            true
        }
    }

    /// Whether this is a client with no peers, nothing scheduled and nothing sent.
    pub open spec fn fresh(self) -> bool {
        &&& self.api@.len() == 0
        &&& self.last_sent_time == 0
        &&& self.requesting_connection@.len() == 0
        &&& self.awaiting_connection_ack@.len() == 0
        &&& self.connected@.len() == 0
        &&& self.scheduler.list_scheduled_reliable_data_transfer@.len() == 0
        &&& self.scheduler.list_scheduled_unreliable_data_transfer@.len() == 0
        &&& self.scheduler.list_scheduled_reliable_fragment@.len() == 0
        &&& self.scheduler.list_scheduled_unreliable_fragment@.len() == 0
        &&& self.scheduler.list_scheduled_reliable_heartbeat@.len() == 0
        &&& self.scheduler.list_scheduled_unreliable_heartbeat@.len() == 0
        &&& self.scheduler.service.list_scheduled_connection_request@.len() == 0
        &&& self.reliability_handler.list_sent_reliable_data_transfer@.len() == 0
        &&& self.reliability_handler.list_sent_reliable_heartbeat@.len() == 0
        &&& self.reliability_handler.list_sent_reliable_fragment@.len() == 0
        &&& self.reliability_handler.service.list_sent_connection_request@.len() == 0
    }

    /// A client with no peers, nothing scheduled and nothing sent.
    pub fn new() -> (r: Self)
        ensures
            r.fresh(),
    {
        let service = Client {
            api: Vec::with_capacity(32),
            last_sent_time: 0,
            requesting_connection: Table::with_capacity(32),
            awaiting_connection_ack: Table::with_capacity(32),
            connected: Table::with_capacity(32),
            scheduler: Scheduler::new(32),
            reliability_handler: ReliabilityHandler::new(32),
        };
        service
    }

    /// The connection request packet for `scheduled`, sent at `time` with the sequence number
    /// and ack of the peer it requests.
    pub fn create_connection_request(
        &self,
        scheduled: Scheduled<Reliable, ConnectionRequest>,
        time: Duration,
    ) -> (r: Packet<ToSend, ConnectionRequest>)
        requires
            has_key(self.requesting_connection@, scheduled.address),
        ensures
            r.delivery == (ToSend {
                id: scheduled.packet_id,
                meta: MetaDelivery { time, address: scheduled.address },
            }),
            r.sequence == value_of(self.requesting_connection@, scheduled.address).sequence_tracker,
            r.ack == value_of(self.requesting_connection@, scheduled.address).remote_ack_tracker,
            r.message == scheduled.message,
    {
        let peer = self.requesting_connection.get(&scheduled.address).unwrap();
        let sequence = peer.sequence_tracker;
        let ack = peer.remote_ack_tracker;
        let packet = scheduled.into_packet(sequence, ack, time);
        packet
    }

    /// What recording the send of the connection request `packet` at `time`, kept for `ttl`,
    /// does: the requested peer advances its sequence number and waits for its connection ack,
    /// and the packet is kept among the sent connection requests.
    pub open spec fn sent_request(
        self,
        next: Self,
        packet: Packet<ToSend, ConnectionRequest>,
        time: Duration,
        ttl: Duration,
    ) -> bool {
        let address = packet.delivery.meta.address;
        let q = value_of(self.requesting_connection@, address);
        &&& next.api == self.api
        &&& next.last_sent_time == self.last_sent_time
        &&& next.connected@ == self.connected@
        &&& next.scheduler == self.scheduler
        &&& removed(
            self.requesting_connection@,
            next.requesting_connection@,
            address,
        )
        &&& upserted(
            self.awaiting_connection_ack@,
            next.awaiting_connection_ack@,
            address,
            |p: Peer<AwaitingConnectionAck>|
                {
                    &&& p.sequence_tracker@ == q.sequence_tracker@ + 1
                    &&& p.remote_ack_tracker == q.remote_ack_tracker
                    &&& p.local_ack_tracker == q.local_ack_tracker
                    &&& p.address == q.address
                    &&& p.connection == AwaitingConnectionAck {
                        meta: crate::peers::MetaConnection {
                            time_entered_state: time,
                            latest_sent_packet_id: q.connection.meta.latest_sent_packet_id,
                            latest_sent_packet_time: q.connection.meta.latest_sent_packet_time,
                        },
                        attempts: 0,
    }
                        },
                )
                &&& next.reliability_handler.list_sent_reliable_data_transfer
                    == self.reliability_handler.list_sent_reliable_data_transfer
                &&& next.reliability_handler.list_sent_reliable_heartbeat
                    == self.reliability_handler.list_sent_reliable_heartbeat
                &&& next.reliability_handler.list_sent_reliable_fragment
                    == self.reliability_handler.list_sent_reliable_fragment
                &&& next.reliability_handler.service.list_sent_connection_request@ == self.reliability_handler.service.list_sent_connection_request@.push(
                    as_sent(packet, time, ttl),
                )
            }

    /// Records that the connection request `packet` was sent at `time`: the requested peer
    /// advances its sequence number and waits for its connection ack, and the packet is kept
    /// for `ttl`.
    pub fn sent_connection_request(
        &mut self,
        packet: Packet<ToSend, ConnectionRequest>,
        time: Duration,
        ttl: Duration,
    )
        requires
            has_key(old(self).requesting_connection@, packet.delivery.meta.address),
            value_of(
                old(self).requesting_connection@,
                packet.delivery.meta.address,
            ).sequence_tracker@ < u32::MAX,
        ensures
            old(self).sent_request(*final(self), packet, time, ttl),
    {
        let sent = packet.sent(time, ttl);
        let address = sent.delivery.meta.address;
        let mut peer = self.requesting_connection.remove(&address).unwrap();
        peer.sequence_tracker = peer.sequence_tracker.next();
        self.reliability_handler.service.connection_request(sent);
        let awaiting = peer.await_connection_ack(time);
        let ghost before = self.awaiting_connection_ack@;
        let ghost q = value_of(old(self).requesting_connection@, address);
        let _ = self.awaiting_connection_ack.insert(address, awaiting);
        proof {
            crate::table::lemma_upserted(
                before,
                self.awaiting_connection_ack@,
                address,
                awaiting,
                |p: Peer<AwaitingConnectionAck>|
                    {
                        &&& p.sequence_tracker@ == q.sequence_tracker@ + 1
                        &&& p.remote_ack_tracker == q.remote_ack_tracker
                        &&& p.local_ack_tracker == q.local_ack_tracker
                        &&& p.address == q.address
                        &&& p.connection == AwaitingConnectionAck {
                            meta: crate::peers::MetaConnection {
                                time_entered_state: time,
                                latest_sent_packet_id: q.connection.meta.latest_sent_packet_id,
                                latest_sent_packet_time: q.connection.meta.latest_sent_packet_time,
                            },
                            attempts: 0,
                        }
                    },
            );
        }
    }

    /// Whether `address` is a peer that this client requests, awaits or is connected to.
    pub open spec fn spec_known_peer(self, address: SocketAddr) -> bool {
        ||| has_key(self.requesting_connection@, address)
        ||| has_key(self.awaiting_connection_ack@, address)
        ||| exists|i: int|
            0 <= i < self.connected@.len() && (#[trigger] self.connected@[i]).1.address == address
    }

    /// Whether `remote_address` is a peer that this client requests, awaits or is connected to.
    pub fn known_peer(&self, remote_address: &SocketAddr) -> (r: bool)
        ensures
            r == self.spec_known_peer(*remote_address),
    {
        if self.requesting_connection.contains_key(remote_address)
            || self.awaiting_connection_ack.contains_key(remote_address) {
            return true;
        }
        let count = self.connected.len();
        let mut i: usize = 0;
        while i < count
            invariant
                count == self.connected@.len(),
                i <= count,
                forall|j: int| 0 <= j < i ==> (#[trigger] self.connected@[j]).1.address != *remote_address,
            decreases count - i,
        {
            if self.connected.entry(i).1.address == *remote_address {
                return true;
            }
            i = i + 1;
        }
        false
    }

    /// What starting to connect to `remote_address` under `packet_id` at `time` does: a peer
    /// already known is an error and changes nothing; otherwise the peer is recorded as
    /// requested and a connection request is scheduled for it.
    pub open spec fn connect_outcome(
        self,
        next: Self,
        remote_address: SocketAddr,
        packet_id: PacketId,
        time: Duration,
        r: Result<(), ProtocolError>,
    ) -> bool {
        if self.spec_known_peer(remote_address) {
            r == Err::<(), ProtocolError>(ProtocolError::AlreadyConnectingToPeer(remote_address))
                && next == self
        } else {
            &&& r is Ok
            &&& next.api == self.api
            &&& next.last_sent_time == self.last_sent_time
            &&& next.awaiting_connection_ack@ == self.awaiting_connection_ack@
            &&& next.connected@ == self.connected@
            &&& next.reliability_handler == self.reliability_handler
            &&& next.requesting_connection@ == self.requesting_connection@.push(
                (remote_address, next.requesting_connection@.last().1),
            )
            &&& next.requesting_connection@.last().1 == Peer::<RequestingConnection> {
                sequence_tracker: sequence_of(1),
                remote_ack_tracker: 0,
                local_ack_tracker: 0,
                address: remote_address,
                connection: RequestingConnection {
                    meta: crate::peers::MetaConnection {
                        time_entered_state: time,
                        latest_sent_packet_id: 0,
                        latest_sent_packet_time: 0,
                    },
                    attempts: 0,
                },
        }
        &&& next.scheduler.list_scheduled_reliable_data_transfer
            == self.scheduler.list_scheduled_reliable_data_transfer
        &&& next.scheduler.list_scheduled_unreliable_data_transfer
            == self.scheduler.list_scheduled_unreliable_data_transfer
        &&& next.scheduler.list_scheduled_reliable_fragment
            == self.scheduler.list_scheduled_reliable_fragment
        &&& next.scheduler.list_scheduled_unreliable_fragment
            == self.scheduler.list_scheduled_unreliable_fragment
        &&& next.scheduler.list_scheduled_reliable_heartbeat
            == self.scheduler.list_scheduled_reliable_heartbeat
        &&& next.scheduler.list_scheduled_unreliable_heartbeat
            == self.scheduler.list_scheduled_unreliable_heartbeat
        &&& next.scheduler.service.list_scheduled_connection_request@.len() == self.scheduler.service.list_scheduled_connection_request@.len() + 1
        &&& next.scheduler.service.list_scheduled_connection_request@.drop_last()
            == self.scheduler.service.list_scheduled_connection_request@
        &&& ({
            let s = next.scheduler.service.list_scheduled_connection_request@.last();
            &&& s.packet_id == packet_id
            &&& s.address == remote_address
            &&& s.time == time
            &&& s.message.meta.packet_type@ == crate::packets::CONNECTION_REQUEST
        })
        }
    }

    /// Starts connecting to `remote_address` at `time`: schedules a connection request under
    /// `packet_id` and records the peer as requested. A peer already known is an error.
    pub fn connect(&mut self, remote_address: SocketAddr, packet_id: PacketId, time: Duration) -> (r:
        Result<(), ProtocolError>)
        ensures
            old(self).connect_outcome(*final(self), remote_address, packet_id, time, r),
    {
        if self.known_peer(&remote_address) {
            return Err(ProtocolError::AlreadyConnectingToPeer(remote_address));
        }
        let requesting_connection = Peer::new(time, remote_address, 0);
        let connection_request = Scheduled::connection_request(packet_id, remote_address, time);
        self.scheduler.service.connection_request(connection_request);
        let _ = self.requesting_connection.insert(remote_address, requesting_connection);
        proof {
            broadcast use crate::sequence::lemma_sequence_of_value, crate::sequence::lemma_sequence_of_view;
            assert(self.scheduler.service.list_scheduled_connection_request@.drop_last() =~= old(self).scheduler.service.list_scheduled_connection_request@);
            assert(requesting_connection.sequence_tracker == sequence_of(1)) by {
                crate::sequence::lemma_sequence_view_injective(requesting_connection.sequence_tracker, sequence_of(1));
            }
        }
        Ok(())
    }

    /// Takes the scheduled connection requests at positions `start..end` out of the scheduler.
    pub fn drain_connection_request(&mut self, start: usize, end: usize) -> (r: Vec<
        Scheduled<Reliable, ConnectionRequest>,
    >)
        requires
            start <= end <= old(self).scheduler.service.list_scheduled_connection_request@.len(),
        ensures
            ({
                let old_list = old(self).scheduler.service.list_scheduled_connection_request@;
                &&& r@ == old_list.subrange(start as int, end as int)
                &&& final(self).scheduler.service.list_scheduled_connection_request@ == old_list.subrange(
                    0,
                    start as int,
                ) + old_list.subrange(end as int, old_list.len() as int)
            }),
            final(self).api == old(self).api,
            final(self).last_sent_time == old(self).last_sent_time,
            final(self).requesting_connection@ == old(self).requesting_connection@,
            final(self).awaiting_connection_ack@ == old(self).awaiting_connection_ack@,
            final(self).connected@ == old(self).connected@,
            final(self).reliability_handler == old(self).reliability_handler,
            final(self).scheduler.list_scheduled_reliable_data_transfer == old(self).scheduler.list_scheduled_reliable_data_transfer,
            final(self).scheduler.list_scheduled_unreliable_data_transfer == old(self).scheduler.list_scheduled_unreliable_data_transfer,
            final(self).scheduler.list_scheduled_reliable_fragment == old(self).scheduler.list_scheduled_reliable_fragment,
            final(self).scheduler.list_scheduled_unreliable_fragment == old(self).scheduler.list_scheduled_unreliable_fragment,
            final(self).scheduler.list_scheduled_reliable_heartbeat == old(self).scheduler.list_scheduled_reliable_heartbeat,
            final(self).scheduler.list_scheduled_unreliable_heartbeat == old(self).scheduler.list_scheduled_unreliable_heartbeat,
    {
        crate::drain_range(&mut self.scheduler.service.list_scheduled_connection_request, start, end)
    }

    /// Takes the last sent connection request and returns it ready to be sent again at `time`,
    /// if its send time plus `time` exceeds the retry threshold;
    /// otherwise the list stays as it is.
    pub fn resend_reliable_connection_request(&mut self, time: Duration) -> (r: Option<
        Packet<ToSend, ConnectionRequest>,
    >)
        requires
            can_retry(old(self).reliability_handler.service.list_sent_connection_request@, time),
        ensures
            retry_outcome(
                old(self).reliability_handler.service.list_sent_connection_request@,
                final(self).reliability_handler.service.list_sent_connection_request@,
                time,
                r,
            ),
            final(self).api == old(self).api,
            final(self).last_sent_time == old(self).last_sent_time,
            final(self).requesting_connection@ == old(self).requesting_connection@,
            final(self).awaiting_connection_ack@ == old(self).awaiting_connection_ack@,
            final(self).connected@ == old(self).connected@,
            final(self).scheduler == old(self).scheduler,
            final(self).reliability_handler.list_sent_reliable_data_transfer == old(self).reliability_handler.list_sent_reliable_data_transfer,
            final(self).reliability_handler.list_sent_reliable_heartbeat == old(self).reliability_handler.list_sent_reliable_heartbeat,
            final(self).reliability_handler.list_sent_reliable_fragment == old(self).reliability_handler.list_sent_reliable_fragment,
    {
        self.reliability_handler.service.resend_reliable_connection_request(time)
    }

    /// Records the send of a packet to `address` for `connection_id`: a peer awaiting its
    /// connection ack there becomes connected, and the connected peer's sequence number
    /// advances when `advance`.
    fn record_send(&mut self, address: SocketAddr, connection_id: ConnectionId, time: Duration, advance: bool)
        requires
            old(self).can_advance(address, connection_id, advance),
        ensures
            old(self).peers_after_send(*final(self), address, connection_id, time, advance),
            final(self).api == old(self).api,
            final(self).last_sent_time == old(self).last_sent_time,
            final(self).scheduler == old(self).scheduler,
            final(self).reliability_handler == old(self).reliability_handler,
    {
        match self.awaiting_connection_ack.remove(&address) {
            Some(peer) => {
                let mut connected = peer.connected(time, connection_id);
                if advance {
                    connected.sequence_tracker = connected.sequence_tracker.next();
                }
                assert(promoted(connected, peer, time, connection_id, advance));
                let ghost before = self.connected@;
                let _ = self.connected.insert(connection_id, connected);
                proof {
                    crate::table::lemma_upserted(
                        before,
                        self.connected@,
                        connection_id,
                        connected,
                        |p: Peer<Connected>| promoted(p, peer, time, connection_id, advance),
                    );
                }
            },
            None => {
                if advance {
                    advance_sequence(&mut self.connected, connection_id);
                }
            },
        }
    }
}

impl RawPacket<Client> {
    /// Decodes the packet as received at `time`, keeping the kinds a client accepts.
    pub fn decode(self, time: Duration) -> (r: Result<DecodedForClient, ProtocolError>)
        requires
            decodable(self.bytes@),
        ensures
            crate::packets::decode::client_result_view(r) == for_client(
                decoded(self.bytes@, self.address, time),
            ),
    {
        let decoded = self.inner_decode(time)?;
        DecodedForClient::try_from(decoded)
    }
}

/// Whether the fragment `p` completes its group in `groups`: the group existed and, with `p`,
/// holds as many fragments as `p`'s total.
pub open spec fn completes_group(
    groups: Seq<(crate::sequence::Sequence, Vec<Packet<Received, Fragment>>)>,
    p: PacketView<Received, FragmentView>,
) -> bool {
    let key = sequence_of(p.sequence);
    has_key(groups, key) && value_of(groups, key)@.len() + 1 == p.message.total
}

/// Whether `g` is the group of `p`'s sequence number in `groups` with `p` added at its end.
pub open spec fn grown_group(
    g: Vec<Packet<Received, Fragment>>,
    groups: Seq<(crate::sequence::Sequence, Vec<Packet<Received, Fragment>>)>,
    p: PacketView<Received, FragmentView>,
) -> bool {
    let key = sequence_of(p.sequence);
    &&& g@.len() > 0
    &&& g@.last()@ == p
    &&& g@.drop_last() == if has_key(groups, key) {
        value_of(groups, key)@
    } else {
        Seq::empty()
    }
}

/// Whether `q` is the connected peer `old_peer` once it received the fragment `p`: its acks
/// are the packet's sequence number and ack, and the fragment joined its group, which is
/// removed when `p` completes it.
pub open spec fn peer_after_fragment(
    q: Peer<Connected>,
    old_peer: Peer<Connected>,
    p: PacketView<Received, FragmentView>,
) -> bool {
    let groups = old_peer.connection.reassembler@;
    let key = sequence_of(p.sequence);
    &&& q.sequence_tracker == old_peer.sequence_tracker
    &&& q.remote_ack_tracker == p.sequence
    &&& q.local_ack_tracker == p.ack
    &&& q.address == old_peer.address
    &&& q.connection.meta == old_peer.connection.meta
    &&& q.connection.connection_id == old_peer.connection.connection_id
    &&& q.connection.rtt == old_peer.connection.rtt
    &&& if completes_group(groups, p) {
        removed(groups, q.connection.reassembler@, key)
    } else {
        upserted(
            groups,
            q.connection.reassembler@,
            key,
            |g: Vec<Packet<Received, Fragment>>| grown_group(g, groups, p),
        )
    }
}

impl Client {
    /// What receiving a connection accepted packet `p` at `time` does: the peer awaiting its
    /// connection ack at the packet's address becomes connected under the connection id the
    /// packet gives, with the packet's sequence number and ack as its acks. A packet from a
    /// peer still requesting, or with the id of a peer already connected, is an error.
    pub open spec fn received_connection_accepted(
        self,
        next: Self,
        p: PacketView<Received, ConnectionAcceptedView>,
        time: Duration,
        r: Result<(), ProtocolError>,
    ) -> bool {
        let address = p.delivery.meta.address;
        let id = connection_id_of(p.message.connection_id);
        if has_key(self.requesting_connection@, address) || has_key(self.connected@, id) {
            r == Err::<(), ProtocolError>(ProtocolError::PeerInAnotherState(address)) && self.unchanged(next)
        } else {
            &&& r is Ok
            &&& self.keeps_rest(next)
            &&& next.api == self.api
            &&& removed(self.awaiting_connection_ack@, next.awaiting_connection_ack@, address)
            &&& if has_key(self.awaiting_connection_ack@, address) {
                upserted(
                    self.connected@,
                    next.connected@,
                    id,
                    |q: Peer<Connected>|
                        connected_from(
                            q,
                            value_of(self.awaiting_connection_ack@, address),
                            time,
                            id,
                            p.sequence,
                            p.ack,
                        ),
                )
            } else {
                next.connected@ == self.connected@
            }
        }
    }

    /// What receiving a data transfer or heartbeat `p`, from `address` for `id`, at `time`
    /// does: a connected peer takes the packet's sequence number and ack as its acks; a peer
    /// awaiting its connection ack at `address` takes them too and becomes connected, and for a
    /// data transfer its payload is reported to the user (`payload` is `Some`). Packets from
    /// others change nothing.
    pub open spec fn received_from_peer(
        self,
        next: Self,
        address: SocketAddr,
        id: ConnectionId,
        sequence: u32,
        ack: u32,
        payload: Option<Seq<u8>>,
        time: Duration,
        r: Result<(), ProtocolError>,
    ) -> bool {
        &&& r is Ok
        &&& if has_key(self.connected@, id) {
            &&& self.keeps_rest(next)
            &&& next.api == self.api
            &&& next.awaiting_connection_ack@ == self.awaiting_connection_ack@
            &&& upserted(
                self.connected@,
                next.connected@,
                id,
                |q: Peer<Connected>| acks_updated(q, value_of(self.connected@, id), sequence, ack),
            )
        } else if has_key(self.awaiting_connection_ack@, address) {
            &&& self.keeps_rest(next)
            &&& removed(self.awaiting_connection_ack@, next.awaiting_connection_ack@, address)
            &&& upserted(
                self.connected@,
                next.connected@,
                id,
                |q: Peer<Connected>|
                    connected_from(
                        q,
                        value_of(self.awaiting_connection_ack@, address),
                        time,
                        id,
                        sequence,
                        ack,
                    ),
            )
            &&& match payload {
                Some(bytes) => {
                    &&& next.api@.len() == self.api@.len() + 1
                    &&& next.api@.drop_last() == self.api@
                    &&& is_data_transfer_event(next.api@.last(), id, bytes)
                },
                None => next.api == self.api,
            }
        } else {
            self.unchanged(next)
        }
    }

    /// What receiving a fragment `p` at `time` does: the connected peer it is for takes the
    /// packet's sequence number and ack as its acks, and the fragment joins the group of its
    /// sequence number. When that group already existed and now holds as many fragments as the
    /// packet's total, the group is removed and the reassembled payload (the payloads of all
    /// its fragments, this one included, joined in the order of their indexes) is reported to
    /// the user. A fragment for a peer that is not connected is an error.
    pub open spec fn received_fragment(
        self,
        next: Self,
        p: PacketView<Received, FragmentView>,
        time: Duration,
        r: Result<(), ProtocolError>,
    ) -> bool {
        let id = connection_id_of(p.message.connection_id);
        let key = sequence_of(p.sequence);
        if !has_key(self.connected@, id) {
            r == Err::<(), ProtocolError>(ProtocolError::NoPeersConnected) && self.unchanged(next)
        } else {
            let old_peer = value_of(self.connected@, id);
            let groups = old_peer.connection.reassembler@;
            &&& r is Ok
            &&& self.keeps_rest(next)
            &&& next.awaiting_connection_ack@ == self.awaiting_connection_ack@
            &&& upserted(
                self.connected@,
                next.connected@,
                id,
                |q: Peer<Connected>| peer_after_fragment(q, old_peer, p),
            )
            &&& if completes_group(groups, p) {
                &&& next.api@.len() == self.api@.len() + 1
                &&& next.api@.drop_last() == self.api@
                &&& is_data_transfer_event(
                    next.api@.last(),
                    id,
                    joined_by_index(
                        indexed_payloads(value_of(groups, key)@).push((p.message.index, p.message.payload)),
                    ),
                )
            } else {
                next.api == self.api
            }
        }
    }

    /// What receiving the packet `bytes` from `address` at `time` does: a packet that does not
    /// decode, or that a client does not accept, is an error and changes nothing; otherwise the
    /// packet is handled according to its kind.
    pub open spec fn received(
        self,
        next: Self,
        bytes: Seq<u8>,
        address: SocketAddr,
        time: Duration,
        r: Result<(), ProtocolError>,
    ) -> bool {
        match for_client(decoded(bytes, address, time)) {
            Err(e) => r == Err::<(), ProtocolError>(e) && self.unchanged(next),
            Ok(DecodedView::ConnectionAccepted(p)) => self.received_connection_accepted(next, p, time, r),
            Ok(DecodedView::DataTransfer(p)) => self.received_from_peer(
                next,
                p.delivery.meta.address,
                connection_id_of(p.message.connection_id),
                p.sequence,
                p.ack,
                Some(p.message.payload),
                time,
                r,
            ),
            Ok(DecodedView::Fragment(p)) => self.received_fragment(next, p, time, r),
            Ok(DecodedView::Heartbeat(p)) => self.received_from_peer(
                next,
                p.delivery.meta.address,
                connection_id_of(p.message.connection_id),
                p.sequence,
                p.ack,
                None,
                time,
                r,
            ),
            Ok(DecodedView::ConnectionRequest(_)) => false,
        }
    }

    /// Handles the packet `raw_packet` received at `time`.
    pub fn on_received(&mut self, raw_packet: RawPacket<Client>, time: Duration) -> (r: Result<
        (),
        ProtocolError,
    >)
        requires
            decodable(raw_packet.bytes@),
        ensures
            old(self).received(*final(self), raw_packet.bytes@, raw_packet.address, time, r),
    {
        let decoded = raw_packet.decode(time)?;
        proof {
            broadcast use crate::packets::lemma_connection_id_of_value, crate::sequence::lemma_sequence_of_value;
        }
        match decoded {
            DecodedForClient::ConnectionAccepted { packet } => self.on_connection_accepted(packet, time),
            DecodedForClient::DataTransfer { packet } => {
                let address = packet.delivery.meta.address;
                let connection_id = packet.message.connection_id;
                let sequence = packet.sequence.get();
                let ack = packet.ack;
                self.on_from_peer(address, connection_id, sequence, ack, Some(packet.message.payload), time)
            },
            DecodedForClient::Fragment { packet } => self.on_fragment(packet, time),
            DecodedForClient::Heartbeat { packet } => {
                let address = packet.delivery.meta.address;
                let connection_id = packet.message.connection_id;
                let sequence = packet.sequence.get();
                let ack = packet.ack;
                self.on_from_peer(address, connection_id, sequence, ack, None, time)
            },
        }
    }

    fn on_connection_accepted(&mut self, packet: Packet<Received, ConnectionAccepted>, time: Duration) -> (r: Result<(), ProtocolError>)
        ensures
            old(self).received_connection_accepted(*final(self), packet@, time, r),
    {
        proof {
            broadcast use crate::packets::lemma_connection_id_of_value;
        }
        let address = packet.delivery.meta.address;
        let connection_id = packet.message.connection_id;
        if self.requesting_connection.contains_key(&address) || self.connected.contains_key(
            &connection_id,
        ) {
            return Err(ProtocolError::PeerInAnotherState(packet.delivery.meta.address));
        }
        if let Some(peer) = self.awaiting_connection_ack.remove(&address) {
            let mut connected = peer.connected(time, connection_id);
            connected.local_ack_tracker = packet.ack;
            connected.remote_ack_tracker = packet.sequence.get();
            let ghost before = self.connected@;
            let _ = self.connected.insert(connection_id, connected);
            proof {
                crate::table::lemma_upserted(
                    before,
                    self.connected@,
                    connection_id,
                    connected,
                    |q: Peer<Connected>|
                        connected_from(q, peer, time, connection_id, packet.sequence@, packet.ack),
                );
            }
        }
        Ok(())
    }

    fn on_from_peer(
        &mut self,
        address: SocketAddr,
        connection_id: ConnectionId,
        sequence: u32,
        ack: u32,
        payload: Option<Vec<u8>>,
        time: Duration,
    ) -> (r: Result<(), ProtocolError>)
        ensures
            old(self).received_from_peer(
                *final(self),
                address,
                connection_id,
                sequence,
                ack,
                match payload {
                    Some(v) => Some(v@),
                    None => None,
                },
                time,
                r,
            ),
    {
        if update_acks(&mut self.connected, connection_id, sequence, ack) {
        } else if let Some(mut peer) = self.awaiting_connection_ack.remove(&address) {
            peer.remote_ack_tracker = sequence;
            peer.local_ack_tracker = ack;
            let connected = peer.connected(time, connection_id);
            let ghost awaited = value_of(old(self).awaiting_connection_ack@, address);
            let ghost before = self.connected@;
            let _ = self.connected.insert(connection_id, connected);
            proof {
                crate::table::lemma_upserted(
                    before,
                    self.connected@,
                    connection_id,
                    connected,
                    |q: Peer<Connected>| connected_from(q, awaited, time, connection_id, sequence, ack),
                );
            }
            if let Some(payload) = payload {
                self.api.push(ProtocolEvent::DataTransfer { connection_id, payload });
                proof {
                    assert(self.api@.drop_last() =~= old(self).api@);
                }
            }
        }
        Ok(())
    }

    fn on_fragment(&mut self, packet: Packet<Received, Fragment>, time: Duration) -> (r: Result<(), ProtocolError>)
        ensures
            old(self).received_fragment(*final(self), packet@, time, r),
    {
        proof {
            broadcast use crate::packets::lemma_connection_id_of_value, crate::sequence::lemma_sequence_of_value;
        }
        let ghost p = packet@;
        let connection_id = packet.message.connection_id;
        let index = match self.connected.find(&connection_id) {
            Some(i) => i,
            None => {
                return Err(ProtocolError::NoPeersConnected);
            },
        };
        let ghost old_connected = self.connected@;
        proof {
            crate::table::lemma_index_of(old_connected, connection_id, index as int);
        }
        let (key, mut peer) = self.connected.take_at(index);
        let ghost old_peer = peer;
        peer.remote_ack_tracker = packet.sequence.get();
        peer.local_ack_tracker = packet.ack;
        let fragment_id = packet.sequence;
        let fragment_total = packet.message.total as usize;
        let ghost groups = peer.connection.reassembler@;
        let existed = peer.connection.reassembler.contains_key(&fragment_id);
        let length = peer.connection.reassembler.add(packet);
        let ghost grown = peer.connection.reassembler@;
        proof {
            assert(sequence_of(p.sequence) == fragment_id);
            assert(existed && length == fragment_total <==> completes_group(groups, p));
            assert forall|g: Vec<Packet<Received, Fragment>>|
                (if has_key(groups, fragment_id) {
                    g@ == value_of(groups, fragment_id)@.push(packet)
                } else {
                    g@ == seq![packet]
                }) implies #[trigger] grown_group(g, groups, p) by {
                if has_key(groups, fragment_id) {
                    assert(g@.drop_last() =~= value_of(groups, fragment_id)@);
                } else {
                    assert(g@.drop_last() =~= Seq::<Packet<Received, Fragment>>::empty());
                }
            }
            crate::table::lemma_upserted_weaken(
                groups,
                grown,
                fragment_id,
                |group: Vec<Packet<Received, Fragment>>|
                    if has_key(groups, fragment_id) {
                        group@ == value_of(groups, fragment_id)@.push(packet)
                    } else {
                        group@ == seq![packet]
                    },
                |g: Vec<Packet<Received, Fragment>>| grown_group(g, groups, p),
            );
        }
        let last_fragment = existed && length == fragment_total;
        if last_fragment {
            let fragments = peer.connection.reassembler.remove(&fragment_id).unwrap();
            proof {
                let i = index_of(groups, fragment_id);
                assert(grown[i].0 == fragment_id);
                crate::table::lemma_index_of(grown, fragment_id, i);
                assert(grown.remove(i) =~= groups.remove(i));
            }
            proof {
                assert(fragments@ == value_of(groups, fragment_id)@.push(packet));
                assert(indexed_payloads(fragments@) =~= indexed_payloads(value_of(groups, fragment_id)@).push(
                    (p.message.index, p.message.payload),
                ));
            }
            let reassembled = Packet::<Received, DataTransfer>::from_fragments(fragments);
            self.api.push(
                ProtocolEvent::DataTransfer {
                    connection_id,
                    payload: reassembled.message.payload,
                },
            );
            proof {
                assert(self.api@.drop_last() =~= old(self).api@);
            }
        }
        proof {
            assert(peer_after_fragment(peer, old_peer, p));
        }
        self.connected.put_at(index, key, peer);
        proof {
            assert(self.connected@ =~= old_connected.update(index as int, (key, peer)));
            crate::table::lemma_upserted(
                old_connected,
                self.connected@,
                connection_id,
                peer,
                |q: Peer<Connected>| peer_after_fragment(q, old_peer, p),
            );
        }
        Ok(())
    }
}

/// A client whose connection request went out connects when the connection accepted packet
/// arrives from the address it asked: the peer leaves the requested and awaiting peers and
/// becomes connected under the id the packet gives, at the address the requested peer had,
/// with the packet's sequence number and ack as its acks.
pub proof fn law_client_connects_on_acceptance(
    c0: Client,
    c1: Client,
    c2: Client,
    request: Packet<ToSend, ConnectionRequest>,
    time: Duration,
    ttl: Duration,
    accepted: PacketView<Received, ConnectionAcceptedView>,
    arrival: Duration,
    r: Result<(), ProtocolError>,
)
    requires
        keys_unique(c0.requesting_connection@),
        keys_unique(c0.awaiting_connection_ack@),
        keys_unique(c0.connected@),
        has_key(c0.requesting_connection@, request.delivery.meta.address),
        c0.sent_request(c1, request, time, ttl),
        accepted.delivery.meta.address == request.delivery.meta.address,
        !has_key(c0.connected@, connection_id_of(accepted.message.connection_id)),
        c1.received_connection_accepted(c2, accepted, arrival, r),
    ensures
        r is Ok,
        !has_key(c2.requesting_connection@, request.delivery.meta.address),
        !has_key(c2.awaiting_connection_ack@, request.delivery.meta.address),
        has_key(c2.connected@, connection_id_of(accepted.message.connection_id)),
        ({
            let peer = value_of(c2.connected@, connection_id_of(accepted.message.connection_id));
            &&& peer.address == value_of(
                c0.requesting_connection@,
                request.delivery.meta.address,
            ).address
            &&& peer.remote_ack_tracker == accepted.sequence
            &&& peer.local_ack_tracker == accepted.ack
            &&& peer.connection.connection_id == connection_id_of(accepted.message.connection_id)
        }),
{
    let address = request.delivery.meta.address;
    let id = connection_id_of(accepted.message.connection_id);
    crate::table::law_remove_then_get(c0.requesting_connection@, c1.requesting_connection@, address);
    assert(has_key(c1.awaiting_connection_ack@, address)) by {
        if has_key(c0.awaiting_connection_ack@, address) {
            let i = index_of(c0.awaiting_connection_ack@, address);
            assert(c1.awaiting_connection_ack@[i].0 == address);
        } else {
            assert(c1.awaiting_connection_ack@.last().0 == address);
            assert(c1.awaiting_connection_ack@[c1.awaiting_connection_ack@.len() - 1].0 == address);
        }
    }
    crate::table::lemma_upserted_unique(
        c0.awaiting_connection_ack@,
        c1.awaiting_connection_ack@,
        address,
        |p: Peer<AwaitingConnectionAck>|
            {
                &&& p.sequence_tracker@ == value_of(c0.requesting_connection@, address).sequence_tracker@ + 1
                &&& p.remote_ack_tracker == value_of(c0.requesting_connection@, address).remote_ack_tracker
                &&& p.local_ack_tracker == value_of(c0.requesting_connection@, address).local_ack_tracker
                &&& p.address == value_of(c0.requesting_connection@, address).address
                &&& p.connection == AwaitingConnectionAck {
                    meta: crate::peers::MetaConnection {
                        time_entered_state: time,
                        latest_sent_packet_id: value_of(c0.requesting_connection@, address).connection.meta.latest_sent_packet_id,
                        latest_sent_packet_time: value_of(c0.requesting_connection@, address).connection.meta.latest_sent_packet_time,
                    },
                    attempts: 0,
                }
            },
    );
    let q = value_of(c1.awaiting_connection_ack@, address);
    assert(q.address == value_of(c0.requesting_connection@, address).address) by {
        if has_key(c0.awaiting_connection_ack@, address) {
            let i = index_of(c0.awaiting_connection_ack@, address);
            crate::table::lemma_index_of(c1.awaiting_connection_ack@, address, i);
        } else {
            let i = c1.awaiting_connection_ack@.len() - 1;
            assert(c1.awaiting_connection_ack@[i] == c1.awaiting_connection_ack@.last());
            crate::table::lemma_index_of(c1.awaiting_connection_ack@, address, i);
        }
    }
    crate::table::law_remove_then_get(c1.awaiting_connection_ack@, c2.awaiting_connection_ack@, address);
    let f = |p: Peer<Connected>| connected_from(p, q, arrival, id, accepted.sequence, accepted.ack);
    crate::table::lemma_upserted_unique(c1.connected@, c2.connected@, id, f);
    let i = c2.connected@.len() - 1;
    assert(c2.connected@[i] == c2.connected@.last());
    crate::table::lemma_index_of(c2.connected@, id, i);
    assert(f(value_of(c2.connected@, id)));
}

impl Service for Client {
    type SchedulerType = ClientScheduler;

    type ReliabilityHandlerType = ClientReliabilityHandler;

    open spec fn spec_scheduler(&self) -> Scheduler<ClientScheduler> {
        self.scheduler
    }

    open spec fn spec_reliability_handler(&self) -> ReliabilityHandler<ClientReliabilityHandler> {
        self.reliability_handler
    }

    open spec fn spec_connected(&self) -> Table<ConnectionId, Peer<Connected>> {
        self.connected
    }

    open spec fn spec_same_but_scheduler(&self, other: Self) -> bool {
        &&& other.api == self.api
        &&& other.last_sent_time == self.last_sent_time
        &&& other.requesting_connection == self.requesting_connection
        &&& other.awaiting_connection_ack == self.awaiting_connection_ack
        &&& other.connected == self.connected
        &&& other.reliability_handler == self.reliability_handler
    }

    open spec fn spec_same_but_reliability_handler(&self, other: Self) -> bool {
        &&& other.api == self.api
        &&& other.last_sent_time == self.last_sent_time
        &&& other.requesting_connection == self.requesting_connection
        &&& other.awaiting_connection_ack == self.awaiting_connection_ack
        &&& other.connected == self.connected
        &&& other.scheduler == self.scheduler
    }

    open spec fn spec_can_send_data_transfer(&self, packet: Packet<ToSend, DataTransfer>) -> bool {
        self.can_advance(packet.delivery.meta.address, packet.message.connection_id, true)
    }

    /// The peer becomes connected if it awaited its connection ack, its sequence number
    /// advances, and a reliable packet is kept for `ttl`.
    open spec fn spec_sent_data_transfer(
        &self,
        packet: Packet<ToSend, DataTransfer>,
        time: Duration,
        reliability: ReliabilityType,
        ttl: Duration,
        next: Self,
    ) -> bool {
        &&& self.peers_after_send(next, packet.delivery.meta.address, packet.message.connection_id, time, true)
        &&& next.api == self.api
        &&& next.last_sent_time == self.last_sent_time
        &&& next.scheduler == self.scheduler
        &&& next.reliability_handler.service == self.reliability_handler.service
        &&& next.reliability_handler.list_sent_reliable_heartbeat == self.reliability_handler.list_sent_reliable_heartbeat
        &&& next.reliability_handler.list_sent_reliable_fragment == self.reliability_handler.list_sent_reliable_fragment
        &&& next.reliability_handler.list_sent_reliable_data_transfer@ == if reliability == ReliabilityType::Reliable {
            self.reliability_handler.list_sent_reliable_data_transfer@.push(as_sent(packet, time, ttl))
        } else {
            self.reliability_handler.list_sent_reliable_data_transfer@
        }
    }

    open spec fn spec_can_send_fragment(&self, packet: Packet<ToSend, Fragment>) -> bool {
        &&& packet.message.total > 0
        &&& self.can_advance(
            packet.delivery.meta.address,
            packet.message.connection_id,
            packet.message.index == packet.message.total - 1,
        )
    }

    /// The peer becomes connected if it awaited its connection ack, its sequence number
    /// advances only with the last fragment of a payload (the fragments of a payload share
    /// their sequence number), and a reliable packet is kept for `ttl`.
    open spec fn spec_sent_fragment(
        &self,
        packet: Packet<ToSend, Fragment>,
        time: Duration,
        reliability: ReliabilityType,
        ttl: Duration,
        next: Self,
    ) -> bool {
        &&& self.peers_after_send(
            next,
            packet.delivery.meta.address,
            packet.message.connection_id,
            time,
            packet.message.index == packet.message.total - 1,
        )
        &&& next.api == self.api
        &&& next.last_sent_time == self.last_sent_time
        &&& next.scheduler == self.scheduler
        &&& next.reliability_handler.service == self.reliability_handler.service
        &&& next.reliability_handler.list_sent_reliable_heartbeat == self.reliability_handler.list_sent_reliable_heartbeat
        &&& next.reliability_handler.list_sent_reliable_data_transfer == self.reliability_handler.list_sent_reliable_data_transfer
        &&& next.reliability_handler.list_sent_reliable_fragment@ == if reliability == ReliabilityType::Reliable {
            self.reliability_handler.list_sent_reliable_fragment@.push(as_sent(packet, time, ttl))
        } else {
            self.reliability_handler.list_sent_reliable_fragment@
        }
    }

    open spec fn spec_can_send_heartbeat(&self, packet: Packet<ToSend, Heartbeat>) -> bool {
        self.can_advance(packet.delivery.meta.address, packet.message.connection_id, true)
    }

    /// The peer becomes connected if it awaited its connection ack, its sequence number
    /// advances, and a reliable packet is kept for `ttl`.
    open spec fn spec_sent_heartbeat(
        &self,
        packet: Packet<ToSend, Heartbeat>,
        time: Duration,
        reliability: ReliabilityType,
        ttl: Duration,
        next: Self,
    ) -> bool {
        &&& self.peers_after_send(next, packet.delivery.meta.address, packet.message.connection_id, time, true)
        &&& next.api == self.api
        &&& next.last_sent_time == self.last_sent_time
        &&& next.scheduler == self.scheduler
        &&& next.reliability_handler.service == self.reliability_handler.service
        &&& next.reliability_handler.list_sent_reliable_fragment == self.reliability_handler.list_sent_reliable_fragment
        &&& next.reliability_handler.list_sent_reliable_data_transfer == self.reliability_handler.list_sent_reliable_data_transfer
        &&& next.reliability_handler.list_sent_reliable_heartbeat@ == if reliability == ReliabilityType::Reliable {
            self.reliability_handler.list_sent_reliable_heartbeat@.push(as_sent(packet, time, ttl))
        } else {
            self.reliability_handler.list_sent_reliable_heartbeat@
        }
    }

    fn scheduler(&self) -> (r: &Scheduler<ClientScheduler>) {
        &self.scheduler
    }

    fn scheduler_mut(&mut self) -> (r: &mut Scheduler<ClientScheduler>) {
        &mut self.scheduler
    }

    fn reliability_handler(&self) -> (r: &ReliabilityHandler<ClientReliabilityHandler>) {
        &self.reliability_handler
    }

    fn reliability_handler_mut(&mut self) -> (r: &mut ReliabilityHandler<ClientReliabilityHandler>) {
        &mut self.reliability_handler
    }

    fn connected(&self) -> (r: &Table<ConnectionId, Peer<Connected>>) {
        &self.connected
    }

    fn sent_data_transfer(
        &mut self,
        packet: Packet<ToSend, DataTransfer>,
        time: Duration,
        reliability: ReliabilityType,
        ttl: Duration,
    ) {
        let sent = packet.sent(time, ttl);
        let address = sent.delivery.meta.address;
        let connection_id = sent.message.connection_id;
        self.record_send(address, connection_id, time, true);
        if let ReliabilityType::Reliable = reliability {
            self.reliability_handler.list_sent_reliable_data_transfer.push(sent);
        }
    }

    fn sent_fragment(
        &mut self,
        packet: Packet<ToSend, Fragment>,
        time: Duration,
        reliability: ReliabilityType,
        ttl: Duration,
    ) {
        let sent = packet.sent(time, ttl);
        let address = sent.delivery.meta.address;
        let connection_id = sent.message.connection_id;
        let last = sent.message.index == sent.message.total - 1;
        self.record_send(address, connection_id, time, last);
        if let ReliabilityType::Reliable = reliability {
            self.reliability_handler.list_sent_reliable_fragment.push(sent);
        }
    }

    fn sent_heartbeat(
        &mut self,
        packet: Packet<ToSend, Heartbeat>,
        time: Duration,
        reliability: ReliabilityType,
        ttl: Duration,
    ) {
        let sent = packet.sent(time, ttl);
        let address = sent.delivery.meta.address;
        let connection_id = sent.message.connection_id;
        self.record_send(address, connection_id, time, true);
        if let ReliabilityType::Reliable = reliability {
            self.reliability_handler.list_sent_reliable_heartbeat.push(sent);
        }
    }
}

} // verus!
