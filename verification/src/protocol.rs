//! The protocol: one side of a connection (client or server) driven by a clock, with the
//! operations its user calls to schedule, create, send, retry and receive packets.
use std::time::Instant;
use vstd::prelude::*;

use crate::duration::{Duration, MAX_DURATION};
use crate::errors::ProtocolError;
use crate::packets::raw::RawPacket;
use crate::packets::scheduled::{Reliability, ReliabilityType, Reliable, Scheduled, Unreliable};
use crate::packets::{
    ConnectionId, DataTransfer, Encoder, Fragment, Heartbeat, Message, Packet, PacketId, Payload,
    ToSend, MAX_FRAGMENT_SIZE,
};
use crate::payload::{chunk_bytes, chunks};
use crate::peers::{Connected, Peer, SendTo};
use crate::reliability::{retried, retry_fits};
use crate::scheduler::payload_plan;
use crate::service_traits::Service;
use crate::socket_addr::SocketAddr;
use crate::table::{has_key, value_of, Table};

verus! {

/// Declares `std::time::Instant`, the protocol's clock, as an opaque type: nothing is claimed
/// of what an instant holds.
#[verifier::external_type_specification]
#[verifier::external_body]
pub struct ExInstant(Instant);

/// Calls `std::time::Instant::now`. Nothing is claimed of the instant it returns.
#[verifier::external_body]
pub(crate) fn instant_now() -> (r: Instant) {
    Instant::now()
}

/// Calls `std::time::Instant::elapsed` and converts the `std::time::Duration` it returns to
/// whole nanoseconds with `as_nanos`. The contract claims only that the result is a duration
/// that `std::time::Duration` can hold, which is all that its documentation bounds.
#[verifier::external_body]
pub(crate) fn elapsed(timer: &Instant) -> (r: Duration)
    ensures
        r <= MAX_DURATION,
{
    timer.elapsed().as_nanos()
}

/// The connected peers of a table, each as its id and address, in the table's order.
pub open spec fn targets_of(s: Seq<(ConnectionId, Peer<Connected>)>) -> Seq<(ConnectionId, SocketAddr)> {
    s.map_values(|e: (ConnectionId, Peer<Connected>)| (e.0, e.1.address))
}

/// The peers that a send to `send_to` reaches among `connected`: the one peer asked for, or
/// every connected peer.
pub open spec fn send_targets(
    connected: Seq<(ConnectionId, Peer<Connected>)>,
    send_to: SendTo,
) -> Seq<(ConnectionId, SocketAddr)> {
    match send_to {
        SendTo::Single { connection_id } => seq![
            (connection_id, value_of(connected, connection_id).address),
        ],
        SendTo::Broadcast => targets_of(connected),
    }
}

/// The error of scheduling `count` packets for `send_to` among `connected`, if any: nothing can
/// be scheduled without a connected peer, and a packet for a single peer needs that peer to be
/// connected.
pub open spec fn schedule_error(
    connected: Seq<(ConnectionId, Peer<Connected>)>,
    send_to: SendTo,
    count: nat,
) -> Option<ProtocolError> {
    if connected.len() == 0 {
        Some(ProtocolError::NoPeersConnected)
    } else {
        match send_to {
            SendTo::Single { connection_id } => if !has_key(connected, connection_id) && count > 0 {
                Some(ProtocolError::ScheduledNotConnected(connection_id))
            } else {
                None
            },
            SendTo::Broadcast => None,
        }
    }
}

/// What scheduling `payload`, cut in chunks of `size` bytes, for `send_to` under `packet_id` at
/// `time` does to the service `old`: on an error nothing changes; otherwise every chunk is
/// scheduled for every target, chunk by chunk, as fragments when there is more than one chunk,
/// and `packet_id`, the id that every scheduled packet carries, is returned.
pub open spec fn scheduled_payload<S: Service>(
    old: S,
    new: S,
    reliability: ReliabilityType,
    send_to: SendTo,
    payload: Seq<u8>,
    size: nat,
    packet_id: PacketId,
    time: Duration,
    r: Result<PacketId, ProtocolError>,
) -> bool {
    let connected = old.spec_connected()@;
    let parts = chunks(payload, size);
    match schedule_error(connected, send_to, parts.len()) {
        Some(e) => r == Err::<PacketId, ProtocolError>(e) && new == old,
        None => {
            &&& r == Ok::<PacketId, ProtocolError>(packet_id)
            &&& old.spec_same_but_scheduler(new)
            &&& old.spec_scheduler().schedules_plan(
                new.spec_scheduler(),
                reliability,
                packet_id,
                time,
                payload_plan(parts, send_targets(connected, send_to)),
                parts.len() > 1,
            )
        },
    }
}

/// What scheduling a heartbeat for `send_to` under `packet_id` at `time` does to the service
/// `old`: on an error nothing changes; otherwise a heartbeat is scheduled for every target and
/// `packet_id`, the id that every scheduled heartbeat carries, is returned.
pub open spec fn scheduled_heartbeat<S: Service>(
    old: S,
    new: S,
    reliability: ReliabilityType,
    send_to: SendTo,
    packet_id: PacketId,
    time: Duration,
    r: Result<PacketId, ProtocolError>,
) -> bool {
    let connected = old.spec_connected()@;
    match schedule_error(connected, send_to, 1) {
        Some(e) => r == Err::<PacketId, ProtocolError>(e) && new == old,
        None => {
            &&& r == Ok::<PacketId, ProtocolError>(packet_id)
            &&& old.spec_same_but_scheduler(new)
            &&& old.spec_scheduler().schedules_heartbeats(
                new.spec_scheduler(),
                reliability,
                packet_id,
                time,
                send_targets(connected, send_to),
            )
        },
    }
}

/// The connected peers of `table`, each as its id and address, in the table's order.
pub fn connected_targets(table: &Table<ConnectionId, Peer<Connected>>) -> (r: Vec<
    (ConnectionId, SocketAddr),
>)
    ensures
        r@ == targets_of(table@),
{
    let count = table.len();
    let mut r: Vec<(ConnectionId, SocketAddr)> = Vec::new();
    let mut i: usize = 0;
    while i < count
        invariant
            count == table@.len(),
            i <= count,
            r@ == targets_of(table@).take(i as int),
        decreases count - i,
    {
        let entry = table.entry(i);
        r.push((entry.0, entry.1.address));
        proof {
            assert(r@ =~= targets_of(table@).take(i + 1));
        }
        i = i + 1;
    }
    proof {
        assert(targets_of(table@).take(count as int) =~= targets_of(table@));
    }
    r
}

/// The targets of a send to `send_to` among the connected peers of `service`, or the error of
/// a send that reaches no one.
fn targets_for<S: Service>(service: &S, send_to: SendTo, count: usize) -> (r: Result<
    Vec<(ConnectionId, SocketAddr)>,
    ProtocolError,
>)
    ensures
        match schedule_error(service.spec_connected()@, send_to, count as nat) {
            Some(e) => r == Err::<Vec<(ConnectionId, SocketAddr)>, ProtocolError>(e),
            None => r matches Ok(t) && (count > 0 ==> t@ == send_targets(
                service.spec_connected()@,
                send_to,
            )),
        },
{
    let connected = service.connected();
    if connected.is_empty() {
        return Err(ProtocolError::NoPeersConnected);
    }
    match send_to {
        SendTo::Single { connection_id } => match connected.get(&connection_id) {
            Some(peer) => Ok(vec![(connection_id, peer.address)]),
            None => {
                if count > 0 {
                    Err(ProtocolError::ScheduledNotConnected(connection_id))
                } else {
                    Ok(Vec::new())
                }
            },
        },
        SendTo::Broadcast => Ok(connected_targets(connected)),
    }
}

/// Schedules `payload`, cut in chunks of `size` bytes, for `send_to` under `packet_id` at
/// `time`: every chunk for every target, chunk by chunk, as fragments when there is more than
/// one chunk. Returns `packet_id`, the id the scheduled packets carry.
pub fn schedule_payload<S: Service>(
    service: &mut S,
    reliability: ReliabilityType,
    send_to: SendTo,
    payload: &Payload,
    size: usize,
    packet_id: PacketId,
    time: Duration,
) -> (r: Result<PacketId, ProtocolError>)
    requires
        size > 0,
    ensures
        scheduled_payload(
            *old(service),
            *final(service),
            reliability,
            send_to,
            payload@,
            size as nat,
            packet_id,
            time,
            r,
        ),
{
    let parts = chunk_bytes(payload.as_slice(), size);
    let ghost views = parts@.map_values(|c: Vec<u8>| c@);
    let targets = targets_for(&*service, send_to, parts.len())?;
    proof {
        if parts@.len() == 0 {
            assert(payload_plan(views, targets@) =~= payload_plan(
                views,
                send_targets(service.spec_connected()@, send_to),
            ));
        }
    }
    let scheduler = service.scheduler_mut();
    scheduler.schedule_chunks(reliability, &parts, &targets, packet_id, time);
    Ok(packet_id)
}

/// Schedules a heartbeat for `send_to` under `packet_id` at `time`. Returns `packet_id`, the id
/// the scheduled heartbeats carry.
pub fn schedule_heartbeat<S: Service>(
    service: &mut S,
    reliability: ReliabilityType,
    send_to: SendTo,
    packet_id: PacketId,
    time: Duration,
) -> (r: Result<PacketId, ProtocolError>)
    ensures
        scheduled_heartbeat(*old(service), *final(service), reliability, send_to, packet_id, time, r),
{
    let targets = targets_for(&*service, send_to, 1)?;
    let scheduler = service.scheduler_mut();
    scheduler.schedule_heartbeats(reliability, &targets, packet_id, time);
    Ok(packet_id)
}

/// Whether `new` is `old` with the elements at positions `start..end` taken out, in order, and
/// `r` is what was taken.
pub open spec fn drained<T>(old: Seq<T>, new: Seq<T>, r: Seq<T>, start: int, end: int) -> bool {
    &&& r == old.subrange(start, end)
    &&& new == old.subrange(0, start) + old.subrange(end, old.len() as int)
}

/// Whether `r` is the packet for `scheduled`, sent with the sequence number and ack of the
/// connected `peer`. The time it carries is the protocol's clock when it was made.
pub open spec fn created<R: Reliability, M: Message + Encoder>(
    r: Packet<ToSend, M>,
    scheduled: Scheduled<R, M>,
    peer: Peer<Connected>,
) -> bool {
    &&& r.delivery.id == scheduled.packet_id
    &&& r.delivery.meta.address == scheduled.address
    &&& r.sequence == peer.sequence_tracker
    &&& r.ack == peer.remote_ack_tracker
    &&& r.message == scheduled.message
}

/// A packet made for a scheduled message goes where the message was scheduled, under its id,
/// with its message, and carries the peer's own sequence number and, as its ack, the sequence
/// number of the last packet received from that peer.
pub proof fn law_created_packet<R: Reliability, M: Message + Encoder>(
    r: Packet<ToSend, M>,
    scheduled: Scheduled<R, M>,
    peer: Peer<Connected>,
)
    requires
        created(r, scheduled, peer),
    ensures
        r.delivery.id == scheduled.packet_id,
        r.delivery.meta.address == scheduled.address,
        r.message == scheduled.message,
        r.sequence == peer.sequence_tracker,
        r.ack == peer.remote_ack_tracker,
{
}

/// Every packet that scheduling a payload adds carries the id the call returns, in whichever
/// list it lands; the lists only grow at their ends.
pub proof fn law_scheduled_payload_carries_returned_id<S: Service>(
    old: S,
    new: S,
    reliability: ReliabilityType,
    send_to: SendTo,
    payload: Seq<u8>,
    size: nat,
    packet_id: PacketId,
    time: Duration,
    r: Result<PacketId, ProtocolError>,
)
    requires
        scheduled_payload(old, new, reliability, send_to, payload, size, packet_id, time, r),
    ensures
        r matches Ok(id) ==> {
            let a = old.spec_scheduler();
            let b = new.spec_scheduler();
            &&& forall|j: int|
                a.list_scheduled_reliable_data_transfer@.len() <= j
                    < b.list_scheduled_reliable_data_transfer@.len()
                    ==> (#[trigger] b.list_scheduled_reliable_data_transfer@[j]).packet_id == id
            &&& forall|j: int|
                a.list_scheduled_unreliable_data_transfer@.len() <= j
                    < b.list_scheduled_unreliable_data_transfer@.len()
                    ==> (#[trigger] b.list_scheduled_unreliable_data_transfer@[j]).packet_id == id
            &&& forall|j: int|
                a.list_scheduled_reliable_fragment@.len() <= j
                    < b.list_scheduled_reliable_fragment@.len()
                    ==> (#[trigger] b.list_scheduled_reliable_fragment@[j]).packet_id == id
            &&& forall|j: int|
                a.list_scheduled_unreliable_fragment@.len() <= j
                    < b.list_scheduled_unreliable_fragment@.len()
                    ==> (#[trigger] b.list_scheduled_unreliable_fragment@[j]).packet_id == id
        },
{
    if r is Ok {
        let a = old.spec_scheduler();
        let b = new.spec_scheduler();
        assert forall|j: int|
            a.list_scheduled_reliable_data_transfer@.len() <= j
                < b.list_scheduled_reliable_data_transfer@.len() implies (
        #[trigger] b.list_scheduled_reliable_data_transfer@[j]).packet_id == r->Ok_0 by {
            let k: int = j - a.list_scheduled_reliable_data_transfer@.len();
            assert(b.list_scheduled_reliable_data_transfer@[a.list_scheduled_reliable_data_transfer@.len() + k]
                == b.list_scheduled_reliable_data_transfer@[j]);
        }
        assert forall|j: int|
            a.list_scheduled_unreliable_data_transfer@.len() <= j
                < b.list_scheduled_unreliable_data_transfer@.len() implies (
        #[trigger] b.list_scheduled_unreliable_data_transfer@[j]).packet_id == r->Ok_0 by {
            let k: int = j - a.list_scheduled_unreliable_data_transfer@.len();
            assert(b.list_scheduled_unreliable_data_transfer@[a.list_scheduled_unreliable_data_transfer@.len() + k]
                == b.list_scheduled_unreliable_data_transfer@[j]);
        }
        assert forall|j: int|
            a.list_scheduled_reliable_fragment@.len() <= j
                < b.list_scheduled_reliable_fragment@.len() implies (
        #[trigger] b.list_scheduled_reliable_fragment@[j]).packet_id == r->Ok_0 by {
            let k: int = j - a.list_scheduled_reliable_fragment@.len();
            assert(b.list_scheduled_reliable_fragment@[a.list_scheduled_reliable_fragment@.len() + k]
                == b.list_scheduled_reliable_fragment@[j]);
        }
        assert forall|j: int|
            a.list_scheduled_unreliable_fragment@.len() <= j
                < b.list_scheduled_unreliable_fragment@.len() implies (
        #[trigger] b.list_scheduled_unreliable_fragment@[j]).packet_id == r->Ok_0 by {
            let k: int = j - a.list_scheduled_unreliable_fragment@.len();
            assert(b.list_scheduled_unreliable_fragment@[a.list_scheduled_unreliable_fragment@.len() + k]
                == b.list_scheduled_unreliable_fragment@[j]);
        }
    }
}

/// Every heartbeat that scheduling heartbeats adds carries the id the call returns.
pub proof fn law_scheduled_heartbeat_carries_returned_id<S: Service>(
    old: S,
    new: S,
    reliability: ReliabilityType,
    send_to: SendTo,
    packet_id: PacketId,
    time: Duration,
    r: Result<PacketId, ProtocolError>,
)
    requires
        scheduled_heartbeat(old, new, reliability, send_to, packet_id, time, r),
    ensures
        r matches Ok(id) ==> {
            let a = old.spec_scheduler();
            let b = new.spec_scheduler();
            &&& forall|j: int|
                a.list_scheduled_reliable_heartbeat@.len() <= j
                    < b.list_scheduled_reliable_heartbeat@.len()
                    ==> (#[trigger] b.list_scheduled_reliable_heartbeat@[j]).packet_id == id
            &&& forall|j: int|
                a.list_scheduled_unreliable_heartbeat@.len() <= j
                    < b.list_scheduled_unreliable_heartbeat@.len()
                    ==> (#[trigger] b.list_scheduled_unreliable_heartbeat@[j]).packet_id == id
        },
{
    if r is Ok {
        let a = old.spec_scheduler();
        let b = new.spec_scheduler();
        assert forall|j: int|
            a.list_scheduled_reliable_heartbeat@.len() <= j
                < b.list_scheduled_reliable_heartbeat@.len() implies (
        #[trigger] b.list_scheduled_reliable_heartbeat@[j]).packet_id == r->Ok_0 by {
            let k: int = j - a.list_scheduled_reliable_heartbeat@.len();
            assert(b.list_scheduled_reliable_heartbeat@[a.list_scheduled_reliable_heartbeat@.len() + k]
                == b.list_scheduled_reliable_heartbeat@[j]);
        }
        assert forall|j: int|
            a.list_scheduled_unreliable_heartbeat@.len() <= j
                < b.list_scheduled_unreliable_heartbeat@.len() implies (
        #[trigger] b.list_scheduled_unreliable_heartbeat@[j]).packet_id == r->Ok_0 by {
            let k: int = j - a.list_scheduled_unreliable_heartbeat@.len();
            assert(b.list_scheduled_unreliable_heartbeat@[a.list_scheduled_unreliable_heartbeat@.len() + k]
                == b.list_scheduled_unreliable_heartbeat@[j]);
        }
    }
}

/// One side of the protocol, a client or a server: the id the next scheduled packet gets, the
/// clock that times every packet, the service, the packets received and not yet handled, and
/// how long a reliable packet is kept once sent.
#[derive(Debug)]
pub struct Protocol<S: Service> {
    pub packet_id_tracker: PacketId,
    pub timer: Instant,
    pub service: S,
    pub receiver_pipe: Vec<RawPacket<S>>,
    pub reliable_ttl: Duration,
}

impl<S: Service> Protocol<S> {
    /// Whether `next` holds what `self` holds, apart from its service.
    pub open spec fn same_but_service(self, next: Self) -> bool {
        &&& next.packet_id_tracker == self.packet_id_tracker
        &&& next.timer == self.timer
        &&& next.receiver_pipe@ == self.receiver_pipe@
        &&& next.reliable_ttl == self.reliable_ttl
    }

    /// Whether `next` holds what `self` holds, apart from its service's scheduler.
    pub open spec fn same_but_scheduler(self, next: Self) -> bool {
        &&& self.same_but_service(next)
        &&& self.service.spec_same_but_scheduler(next.service)
    }

    /// Whether `next` holds what `self` holds, apart from the sent packets that its service's
    /// reliability handler keeps in its own lists.
    pub open spec fn same_but_sent(self, next: Self) -> bool {
        &&& self.same_but_service(next)
        &&& self.service.spec_same_but_reliability_handler(next.service)
        &&& next.service.spec_reliability_handler().service == self.service.spec_reliability_handler().service
    }

    /// Records that `packet` was sent, at the protocol's clock; a reliable packet is kept for
    /// the protocol's time to live.
    pub fn sent_data_transfer(&mut self, packet: Packet<ToSend, DataTransfer>, reliability: ReliabilityType)
        requires
            old(self).service.spec_can_send_data_transfer(packet),
        ensures
            old(self).same_but_service(*final(self)),
            exists|time: Duration|
                #[trigger] old(self).service.spec_sent_data_transfer(
                    packet,
                    time,
                    reliability,
                    old(self).reliable_ttl,
                    final(self).service,
                ),
    {
        let time = elapsed(&self.timer);
        let ttl = self.reliable_ttl;
        self.service.sent_data_transfer(packet, time, reliability, ttl);
        assert(old(self).service.spec_sent_data_transfer(packet, time, reliability, old(self).reliable_ttl, self.service));
    }

    /// Records that `packet` was sent, at the protocol's clock; a reliable packet is kept for
    /// the protocol's time to live.
    pub fn sent_fragment(&mut self, packet: Packet<ToSend, Fragment>, reliability: ReliabilityType)
        requires
            old(self).service.spec_can_send_fragment(packet),
        ensures
            old(self).same_but_service(*final(self)),
            exists|time: Duration|
                #[trigger] old(self).service.spec_sent_fragment(
                    packet,
                    time,
                    reliability,
                    old(self).reliable_ttl,
                    final(self).service,
                ),
    {
        let time = elapsed(&self.timer);
        let ttl = self.reliable_ttl;
        self.service.sent_fragment(packet, time, reliability, ttl);
        assert(old(self).service.spec_sent_fragment(packet, time, reliability, old(self).reliable_ttl, self.service));
    }

    /// Records that `packet` was sent, at the protocol's clock; a reliable packet is kept for
    /// the protocol's time to live.
    pub fn sent_heartbeat(&mut self, packet: Packet<ToSend, Heartbeat>, reliability: ReliabilityType)
        requires
            old(self).service.spec_can_send_heartbeat(packet),
        ensures
            old(self).same_but_service(*final(self)),
            exists|time: Duration|
                #[trigger] old(self).service.spec_sent_heartbeat(
                    packet,
                    time,
                    reliability,
                    old(self).reliable_ttl,
                    final(self).service,
                ),
    {
        let time = elapsed(&self.timer);
        let ttl = self.reliable_ttl;
        self.service.sent_heartbeat(packet, time, reliability, ttl);
        assert(old(self).service.spec_sent_heartbeat(packet, time, reliability, old(self).reliable_ttl, self.service));
    }

    /// The packet for `scheduled`, with the sequence number and ack of the connected peer it is
    /// for, timed by the protocol's clock.
    pub fn create_unreliable_data_transfer(&self, scheduled: Scheduled<Unreliable, DataTransfer>) -> (r: Packet<
        ToSend,
        DataTransfer,
    >)
        requires
            has_key(self.service.spec_connected()@, scheduled.message.connection_id),
        ensures
            created(r, scheduled, value_of(self.service.spec_connected()@, scheduled.message.connection_id)),
    {
        let peer = self.service.connected().get(&scheduled.message.connection_id).unwrap();
        let sequence = peer.sequence_tracker;
        let ack = peer.remote_ack_tracker;
        let packet = scheduled.into_packet(sequence, ack, elapsed(&self.timer));
        packet
    }

    /// The packet for `scheduled`, with the sequence number and ack of the connected peer it is
    /// for, timed by the protocol's clock.
    pub fn create_reliable_data_transfer(&self, scheduled: Scheduled<Reliable, DataTransfer>) -> (r: Packet<
        ToSend,
        DataTransfer,
    >)
        requires
            has_key(self.service.spec_connected()@, scheduled.message.connection_id),
        ensures
            created(r, scheduled, value_of(self.service.spec_connected()@, scheduled.message.connection_id)),
    {
        let peer = self.service.connected().get(&scheduled.message.connection_id).unwrap();
        let sequence = peer.sequence_tracker;
        let ack = peer.remote_ack_tracker;
        let packet = scheduled.into_packet(sequence, ack, elapsed(&self.timer));
        packet
    }

    /// The packet for `scheduled`, with the sequence number and ack of the connected peer it is
    /// for, timed by the protocol's clock.
    pub fn create_unreliable_fragment(&self, scheduled: Scheduled<Unreliable, Fragment>) -> (r: Packet<
        ToSend,
        Fragment,
    >)
        requires
            has_key(self.service.spec_connected()@, scheduled.message.connection_id),
        ensures
            created(r, scheduled, value_of(self.service.spec_connected()@, scheduled.message.connection_id)),
    {
        let peer = self.service.connected().get(&scheduled.message.connection_id).unwrap();
        let sequence = peer.sequence_tracker;
        let ack = peer.remote_ack_tracker;
        let packet = scheduled.into_packet(sequence, ack, elapsed(&self.timer));
        packet
    }

    /// The packet for `scheduled`, with the sequence number and ack of the connected peer it is
    /// for, timed by the protocol's clock.
    pub fn create_reliable_fragment(&self, scheduled: Scheduled<Reliable, Fragment>) -> (r: Packet<
        ToSend,
        Fragment,
    >)
        requires
            has_key(self.service.spec_connected()@, scheduled.message.connection_id),
        ensures
            created(r, scheduled, value_of(self.service.spec_connected()@, scheduled.message.connection_id)),
    {
        let peer = self.service.connected().get(&scheduled.message.connection_id).unwrap();
        let sequence = peer.sequence_tracker;
        let ack = peer.remote_ack_tracker;
        let packet = scheduled.into_packet(sequence, ack, elapsed(&self.timer));
        packet
    }

    /// The packet for `scheduled`, with the sequence number and ack of the connected peer it is
    /// for, timed by the protocol's clock.
    pub fn create_unreliable_heartbeat(&self, scheduled: Scheduled<Unreliable, Heartbeat>) -> (r: Packet<
        ToSend,
        Heartbeat,
    >)
        requires
            has_key(self.service.spec_connected()@, scheduled.message.connection_id),
        ensures
            created(r, scheduled, value_of(self.service.spec_connected()@, scheduled.message.connection_id)),
    {
        let peer = self.service.connected().get(&scheduled.message.connection_id).unwrap();
        let sequence = peer.sequence_tracker;
        let ack = peer.remote_ack_tracker;
        let packet = scheduled.into_packet(sequence, ack, elapsed(&self.timer));
        packet
    }

    /// The packet for `scheduled`, with the sequence number and ack of the connected peer it is
    /// for, timed by the protocol's clock.
    pub fn create_reliable_heartbeat(&self, scheduled: Scheduled<Reliable, Heartbeat>) -> (r: Packet<
        ToSend,
        Heartbeat,
    >)
        requires
            has_key(self.service.spec_connected()@, scheduled.message.connection_id),
        ensures
            created(r, scheduled, value_of(self.service.spec_connected()@, scheduled.message.connection_id)),
    {
        let peer = self.service.connected().get(&scheduled.message.connection_id).unwrap();
        let sequence = peer.sequence_tracker;
        let ack = peer.remote_ack_tracker;
        let packet = scheduled.into_packet(sequence, ack, elapsed(&self.timer));
        packet
    }

    /// Takes the scheduled packets at positions `start..end` out of their list.
    pub fn drain_unreliable_data_transfer(&mut self, start: usize, end: usize) -> (r: Vec<
        Scheduled<Unreliable, DataTransfer>,
    >)
        requires
            start <= end <= old(self).service.spec_scheduler().list_scheduled_unreliable_data_transfer@.len(),
        ensures
            drained(
                old(self).service.spec_scheduler().list_scheduled_unreliable_data_transfer@,
                final(self).service.spec_scheduler().list_scheduled_unreliable_data_transfer@,
                r@,
                start as int,
                end as int,
            ),
            final(self).service.spec_scheduler().list_scheduled_reliable_data_transfer@ == old(self).service.spec_scheduler().list_scheduled_reliable_data_transfer@,
            old(self).service.spec_scheduler().keeps_fragments(final(self).service.spec_scheduler()),
            old(self).service.spec_scheduler().keeps_heartbeats(final(self).service.spec_scheduler()),
            final(self).service.spec_scheduler().service == old(self).service.spec_scheduler().service,
            old(self).same_but_scheduler(*final(self)),
    {
        let scheduler = self.service.scheduler_mut();
        crate::drain_range(&mut scheduler.list_scheduled_unreliable_data_transfer, start, end)
    }

    /// Takes the scheduled packets at positions `start..end` out of their list.
    pub fn drain_reliable_data_transfer(&mut self, start: usize, end: usize) -> (r: Vec<
        Scheduled<Reliable, DataTransfer>,
    >)
        requires
            start <= end <= old(self).service.spec_scheduler().list_scheduled_reliable_data_transfer@.len(),
        ensures
            drained(
                old(self).service.spec_scheduler().list_scheduled_reliable_data_transfer@,
                final(self).service.spec_scheduler().list_scheduled_reliable_data_transfer@,
                r@,
                start as int,
                end as int,
            ),
            final(self).service.spec_scheduler().list_scheduled_unreliable_data_transfer@ == old(self).service.spec_scheduler().list_scheduled_unreliable_data_transfer@,
            old(self).service.spec_scheduler().keeps_fragments(final(self).service.spec_scheduler()),
            old(self).service.spec_scheduler().keeps_heartbeats(final(self).service.spec_scheduler()),
            final(self).service.spec_scheduler().service == old(self).service.spec_scheduler().service,
            old(self).same_but_scheduler(*final(self)),
    {
        let scheduler = self.service.scheduler_mut();
        crate::drain_range(&mut scheduler.list_scheduled_reliable_data_transfer, start, end)
    }

    /// Takes the scheduled packets at positions `start..end` out of their list.
    pub fn drain_unreliable_fragment(&mut self, start: usize, end: usize) -> (r: Vec<
        Scheduled<Unreliable, Fragment>,
    >)
        requires
            start <= end <= old(self).service.spec_scheduler().list_scheduled_unreliable_fragment@.len(),
        ensures
            drained(
                old(self).service.spec_scheduler().list_scheduled_unreliable_fragment@,
                final(self).service.spec_scheduler().list_scheduled_unreliable_fragment@,
                r@,
                start as int,
                end as int,
            ),
            final(self).service.spec_scheduler().list_scheduled_reliable_fragment@ == old(self).service.spec_scheduler().list_scheduled_reliable_fragment@,
            old(self).service.spec_scheduler().keeps_data_transfers(final(self).service.spec_scheduler()),
            old(self).service.spec_scheduler().keeps_heartbeats(final(self).service.spec_scheduler()),
            final(self).service.spec_scheduler().service == old(self).service.spec_scheduler().service,
            old(self).same_but_scheduler(*final(self)),
    {
        let scheduler = self.service.scheduler_mut();
        crate::drain_range(&mut scheduler.list_scheduled_unreliable_fragment, start, end)
    }

    /// Takes the scheduled packets at positions `start..end` out of their list.
    pub fn drain_reliable_fragment(&mut self, start: usize, end: usize) -> (r: Vec<
        Scheduled<Reliable, Fragment>,
    >)
        requires
            start <= end <= old(self).service.spec_scheduler().list_scheduled_reliable_fragment@.len(),
        ensures
            drained(
                old(self).service.spec_scheduler().list_scheduled_reliable_fragment@,
                final(self).service.spec_scheduler().list_scheduled_reliable_fragment@,
                r@,
                start as int,
                end as int,
            ),
            final(self).service.spec_scheduler().list_scheduled_unreliable_fragment@ == old(self).service.spec_scheduler().list_scheduled_unreliable_fragment@,
            old(self).service.spec_scheduler().keeps_data_transfers(final(self).service.spec_scheduler()),
            old(self).service.spec_scheduler().keeps_heartbeats(final(self).service.spec_scheduler()),
            final(self).service.spec_scheduler().service == old(self).service.spec_scheduler().service,
            old(self).same_but_scheduler(*final(self)),
    {
        let scheduler = self.service.scheduler_mut();
        crate::drain_range(&mut scheduler.list_scheduled_reliable_fragment, start, end)
    }

    /// Takes the scheduled packets at positions `start..end` out of their list.
    pub fn drain_unreliable_heartbeat(&mut self, start: usize, end: usize) -> (r: Vec<
        Scheduled<Unreliable, Heartbeat>,
    >)
        requires
            start <= end <= old(self).service.spec_scheduler().list_scheduled_unreliable_heartbeat@.len(),
        ensures
            drained(
                old(self).service.spec_scheduler().list_scheduled_unreliable_heartbeat@,
                final(self).service.spec_scheduler().list_scheduled_unreliable_heartbeat@,
                r@,
                start as int,
                end as int,
            ),
            final(self).service.spec_scheduler().list_scheduled_reliable_heartbeat@ == old(self).service.spec_scheduler().list_scheduled_reliable_heartbeat@,
            old(self).service.spec_scheduler().keeps_data_transfers(final(self).service.spec_scheduler()),
            old(self).service.spec_scheduler().keeps_fragments(final(self).service.spec_scheduler()),
            final(self).service.spec_scheduler().service == old(self).service.spec_scheduler().service,
            old(self).same_but_scheduler(*final(self)),
    {
        let scheduler = self.service.scheduler_mut();
        crate::drain_range(&mut scheduler.list_scheduled_unreliable_heartbeat, start, end)
    }

    /// Takes the scheduled packets at positions `start..end` out of their list.
    pub fn drain_reliable_heartbeat(&mut self, start: usize, end: usize) -> (r: Vec<
        Scheduled<Reliable, Heartbeat>,
    >)
        requires
            start <= end <= old(self).service.spec_scheduler().list_scheduled_reliable_heartbeat@.len(),
        ensures
            drained(
                old(self).service.spec_scheduler().list_scheduled_reliable_heartbeat@,
                final(self).service.spec_scheduler().list_scheduled_reliable_heartbeat@,
                r@,
                start as int,
                end as int,
            ),
            final(self).service.spec_scheduler().list_scheduled_unreliable_heartbeat@ == old(self).service.spec_scheduler().list_scheduled_unreliable_heartbeat@,
            old(self).service.spec_scheduler().keeps_data_transfers(final(self).service.spec_scheduler()),
            old(self).service.spec_scheduler().keeps_fragments(final(self).service.spec_scheduler()),
            final(self).service.spec_scheduler().service == old(self).service.spec_scheduler().service,
            old(self).same_but_scheduler(*final(self)),
    {
        let scheduler = self.service.scheduler_mut();
        crate::drain_range(&mut scheduler.list_scheduled_reliable_heartbeat, start, end)
    }

    /// Takes the last sent reliable packet of its kind and returns it ready to be sent again at
    /// the protocol's clock, if its send time plus that clock exceeds the retry threshold.
    /// When that sum is too large for a duration, or the threshold is not passed, nothing is taken.
    pub fn retry_reliable_data_transfer(&mut self) -> (r: Option<Packet<ToSend, DataTransfer>>)
        ensures
            exists|now: Duration|
                #[trigger] retried(
                    old(self).service.spec_reliability_handler().list_sent_reliable_data_transfer@,
                    final(self).service.spec_reliability_handler().list_sent_reliable_data_transfer@,
                    now,
                    r,
                ),
            final(self).service.spec_reliability_handler().list_sent_reliable_heartbeat@ == old(self).service.spec_reliability_handler().list_sent_reliable_heartbeat@,
            final(self).service.spec_reliability_handler().list_sent_reliable_fragment@ == old(self).service.spec_reliability_handler().list_sent_reliable_fragment@,
            old(self).same_but_sent(*final(self)),
    {
        let now = elapsed(&self.timer);
        let handler = self.service.reliability_handler_mut();
        let r = if retry_fits(&handler.list_sent_reliable_data_transfer, now) {
            handler.retry_reliable_data_transfer(now)
        } else {
            None
        };
        assert(retried(
            old(self).service.spec_reliability_handler().list_sent_reliable_data_transfer@,
            self.service.spec_reliability_handler().list_sent_reliable_data_transfer@,
            now,
            r,
        ));
        r
    }

    /// Takes the last sent reliable packet of its kind and returns it ready to be sent again at
    /// the protocol's clock, if its send time plus that clock exceeds the retry threshold.
    /// When that sum is too large for a duration, or the threshold is not passed, nothing is taken.
    pub fn retry_reliable_fragment(&mut self) -> (r: Option<Packet<ToSend, Fragment>>)
        ensures
            exists|now: Duration|
                #[trigger] retried(
                    old(self).service.spec_reliability_handler().list_sent_reliable_fragment@,
                    final(self).service.spec_reliability_handler().list_sent_reliable_fragment@,
                    now,
                    r,
                ),
            final(self).service.spec_reliability_handler().list_sent_reliable_heartbeat@ == old(self).service.spec_reliability_handler().list_sent_reliable_heartbeat@,
            final(self).service.spec_reliability_handler().list_sent_reliable_data_transfer@ == old(self).service.spec_reliability_handler().list_sent_reliable_data_transfer@,
            old(self).same_but_sent(*final(self)),
    {
        let now = elapsed(&self.timer);
        let handler = self.service.reliability_handler_mut();
        let r = if retry_fits(&handler.list_sent_reliable_fragment, now) {
            handler.retry_reliable_fragment(now)
        } else {
            None
        };
        assert(retried(
            old(self).service.spec_reliability_handler().list_sent_reliable_fragment@,
            self.service.spec_reliability_handler().list_sent_reliable_fragment@,
            now,
            r,
        ));
        r
    }

    /// Takes the last sent reliable packet of its kind and returns it ready to be sent again at
    /// the protocol's clock, if its send time plus that clock exceeds the retry threshold.
    /// When that sum is too large for a duration, or the threshold is not passed, nothing is taken.
    pub fn retry_reliable_heartbeat(&mut self) -> (r: Option<Packet<ToSend, Heartbeat>>)
        ensures
            exists|now: Duration|
                #[trigger] retried(
                    old(self).service.spec_reliability_handler().list_sent_reliable_heartbeat@,
                    final(self).service.spec_reliability_handler().list_sent_reliable_heartbeat@,
                    now,
                    r,
                ),
            final(self).service.spec_reliability_handler().list_sent_reliable_fragment@ == old(self).service.spec_reliability_handler().list_sent_reliable_fragment@,
            final(self).service.spec_reliability_handler().list_sent_reliable_data_transfer@ == old(self).service.spec_reliability_handler().list_sent_reliable_data_transfer@,
            old(self).same_but_sent(*final(self)),
    {
        let now = elapsed(&self.timer);
        let handler = self.service.reliability_handler_mut();
        let r = if retry_fits(&handler.list_sent_reliable_heartbeat, now) {
            handler.retry_reliable_heartbeat(now)
        } else {
            None
        };
        assert(retried(
            old(self).service.spec_reliability_handler().list_sent_reliable_heartbeat@,
            self.service.spec_reliability_handler().list_sent_reliable_heartbeat@,
            now,
            r,
        ));
        r
    }

    /// Schedules `payload` for `send_to` under the next packet id, at the protocol's clock: cut
    /// in chunks that fit in a fragment, every chunk for every target, chunk by chunk. Returns
    /// that id, by which the scheduled packets are known; the next packet id moves past it.
    pub fn schedule(&mut self, reliability: ReliabilityType, send_to: SendTo, payload: Payload) -> (r:
        Result<PacketId, ProtocolError>)
        requires
            schedule_error(
                old(self).service.spec_connected()@,
                send_to,
                chunks(payload@, (MAX_FRAGMENT_SIZE - <Fragment as Encoder>::spec_header_size()) as nat).len(),
            ) is None ==> old(self).packet_id_tracker < u64::MAX,
        ensures
            exists|time: Duration|
                #[trigger] scheduled_payload(
                    old(self).service,
                    final(self).service,
                    reliability,
                    send_to,
                    payload@,
                    (MAX_FRAGMENT_SIZE - <Fragment as Encoder>::spec_header_size()) as nat,
                    old(self).packet_id_tracker,
                    time,
                    r,
                ),
            final(self).timer == old(self).timer,
            final(self).receiver_pipe@ == old(self).receiver_pipe@,
            final(self).reliable_ttl == old(self).reliable_ttl,
            r is Ok ==> final(self).packet_id_tracker == old(self).packet_id_tracker + 1,
            r is Err ==> final(self).packet_id_tracker == old(self).packet_id_tracker,
    {
        let size = MAX_FRAGMENT_SIZE - <Fragment as Encoder>::header_size();
        let time = elapsed(&self.timer);
        let result = schedule_payload(
            &mut self.service,
            reliability,
            send_to,
            &payload,
            size,
            self.packet_id_tracker,
            time,
        );
        assert(scheduled_payload(
            old(self).service,
            self.service,
            reliability,
            send_to,
            payload@,
            (MAX_FRAGMENT_SIZE - <Fragment as Encoder>::spec_header_size()) as nat,
            old(self).packet_id_tracker,
            time,
            result,
        ));
        let r = match result {
            Ok(packet_id) => {
                self.packet_id_tracker = self.packet_id_tracker + 1;
                Ok(packet_id)
            },
            Err(e) => Err(e),
        };
        assert(scheduled_payload(
            old(self).service,
            self.service,
            reliability,
            send_to,
            payload@,
            (MAX_FRAGMENT_SIZE - <Fragment as Encoder>::spec_header_size()) as nat,
            old(self).packet_id_tracker,
            time,
            r,
        ));
        r
    }

    /// Schedules a heartbeat for `send_to` under the next packet id, at the protocol's clock.
    /// Returns that id, by which the scheduled heartbeats are known; the next packet id moves
    /// past it.
    pub fn heartbeat(&mut self, reliability: ReliabilityType, send_to: SendTo) -> (r: Result<
        PacketId,
        ProtocolError,
    >)
        requires
            schedule_error(old(self).service.spec_connected()@, send_to, 1) is None
                ==> old(self).packet_id_tracker < u64::MAX,
        ensures
            exists|time: Duration|
                #[trigger] scheduled_heartbeat(
                    old(self).service,
                    final(self).service,
                    reliability,
                    send_to,
                    old(self).packet_id_tracker,
                    time,
                    r,
                ),
            final(self).timer == old(self).timer,
            final(self).receiver_pipe@ == old(self).receiver_pipe@,
            final(self).reliable_ttl == old(self).reliable_ttl,
            r is Ok ==> final(self).packet_id_tracker == old(self).packet_id_tracker + 1,
            r is Err ==> final(self).packet_id_tracker == old(self).packet_id_tracker,
    {
        let time = elapsed(&self.timer);
        let result = schedule_heartbeat(
            &mut self.service,
            reliability,
            send_to,
            self.packet_id_tracker,
            time,
        );
        assert(scheduled_heartbeat(
            old(self).service,
            self.service,
            reliability,
            send_to,
            old(self).packet_id_tracker,
            time,
            result,
        ));
        let r = match result {
            Ok(packet_id) => {
                self.packet_id_tracker = self.packet_id_tracker + 1;
                Ok(packet_id)
            },
            Err(e) => Err(e),
        };
        assert(scheduled_heartbeat(
            old(self).service,
            self.service,
            reliability,
            send_to,
            old(self).packet_id_tracker,
            time,
            r,
        ));
        r
    }
}

} // verus!
