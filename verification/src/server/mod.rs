//! The server side of the protocol.
pub mod laws;
pub mod service;

pub use service::{Server, ServerReliabilityHandler, ServerScheduler};

use vstd::prelude::*;

use crate::duration::Duration;
use crate::errors::ProtocolError;
use crate::events::{ProtocolEvent, ServerEvent};
use crate::packets::raw::{decodable, lemma_decoded_kind, RawPacket};
use crate::packets::scheduled::{Reliable, Scheduled};
use crate::packets::{ConnectionAccepted, Packet, ToSend};
use crate::peers::{peers_polled, poll_peers};
use crate::protocol::{elapsed, instant_now, Protocol};
use crate::reliability::{retried, retry_fits};
use crate::table::{has_key, value_of};

verus! {

/// What handling a packet that `handled` reports gives the user: nothing on success, the error
/// otherwise.
pub open spec fn reported(handled: Result<bool, ProtocolError>) -> Result<(), ProtocolError> {
    match handled {
        Ok(_) => Ok(()),
        Err(e) => Err(e),
    }
}

impl Protocol<Server> {
    /// A server protocol: a server with no peers, packet ids from zero, a clock started now,
    /// room for `capacity` received packets, and reliable packets kept for `reliable_ttl` once
    /// sent.
    pub fn new_server(capacity: usize, reliable_ttl: Duration) -> (r: Self)
        ensures
            r.packet_id_tracker == 0,
            r.service.fresh(),
            r.receiver_pipe@.len() == 0,
            r.reliable_ttl == reliable_ttl,
    {
        let service = Server::new();
        Protocol {
            packet_id_tracker: 0,
            timer: instant_now(),
            service,
            receiver_pipe: Vec::with_capacity(capacity),
            reliable_ttl,
        }
    }

    /// Whether `next` is `self` once the packet `bytes` from `address` was handled at `time`,
    /// with `handled` as the service's result: a connection request that was accepted used up
    /// the next packet id.
    pub open spec fn handled(
        self,
        next: Self,
        bytes: Seq<u8>,
        address: crate::socket_addr::SocketAddr,
        time: Duration,
        handled: Result<bool, ProtocolError>,
    ) -> bool {
        &&& self.service.received(next.service, bytes, address, self.packet_id_tracker, time, handled)
        &&& next.packet_id_tracker == if handled == Ok::<bool, ProtocolError>(true) {
            (self.packet_id_tracker + 1) as u64
        } else {
            self.packet_id_tracker
        }
        &&& next.timer == self.timer
        &&& next.receiver_pipe@ == self.receiver_pipe@
        &&& next.reliable_ttl == self.reliable_ttl
    }

    /// Handles the packet `raw_packet`, received at the protocol's clock; a connection accepted
    /// packet it schedules takes the next packet id.
    pub fn on_received(&mut self, raw_packet: RawPacket<Server>) -> (r: Result<(), ProtocolError>)
        requires
            decodable(raw_packet.bytes@),
            old(self).service.can_receive(raw_packet.bytes@, raw_packet.address),
            old(self).service.accepts_request(raw_packet.bytes@, raw_packet.address) ==> old(self).packet_id_tracker < u64::MAX,
        ensures
            exists|time: Duration, handled: Result<bool, ProtocolError>|
                #[trigger] old(self).handled(
                    *final(self),
                    raw_packet.bytes@,
                    raw_packet.address,
                    time,
                    handled,
                ) && r == reported(handled),
    {
        let time = elapsed(&self.timer);
        let ghost bytes = raw_packet.bytes@;
        let ghost address = raw_packet.address;
        proof {
            lemma_decoded_kind(bytes, address, time, 0);
        }
        let packet_id = self.packet_id_tracker;
        let handled = self.service.on_received(raw_packet, packet_id, time);
        let r = match handled {
            Ok(true) => {
                self.packet_id_tracker = self.packet_id_tracker + 1;
                Ok(())
            },
            Ok(false) => Ok(()),
            Err(e) => Err(e),
        };
        assert(old(self).handled(*self, bytes, address, time, handled));
        r
    }

    /// Handles the packet `raw_packet`, received at the protocol's clock, when this server can:
    /// decoding it reads only bytes that exist, it is not a fragment, and a connection request
    /// overflows no counter. Otherwise nothing happens and nothing is returned.
    pub fn receive(&mut self, raw_packet: RawPacket<Server>) -> (r: Option<Result<(), ProtocolError>>)
        ensures
            r is None <==> !(decodable(raw_packet.bytes@) && old(self).service.can_receive(
                raw_packet.bytes@,
                raw_packet.address,
            ) && (old(self).service.accepts_request(raw_packet.bytes@, raw_packet.address) ==> old(self).packet_id_tracker < u64::MAX)),
            r is None ==> *final(self) == *old(self),
            r matches Some(result) ==> exists|time: Duration, handled: Result<bool, ProtocolError>|
                #[trigger] old(self).handled(
                    *final(self),
                    raw_packet.bytes@,
                    raw_packet.address,
                    time,
                    handled,
                ) && result == reported(handled),
    {
        if !raw_packet.is_decodable() {
            return None;
        }
        let (can_handle, connection_request) = self.service.check_received(&raw_packet);
        let accepted = connection_request && !self.service.connection_request_another_state(
            &raw_packet.address,
        ) && !self.service.is_banned(&raw_packet.address);
        if can_handle && (!accepted || self.packet_id_tracker < u64::MAX) {
            Some(self.on_received(raw_packet))
        } else {
            None
        }
    }

    /// The connection accepted packet for `scheduled`, with the sequence number and ack of the
    /// peer it accepts, timed by the protocol's clock.
    pub fn create_connection_accepted(&self, scheduled: Scheduled<Reliable, ConnectionAccepted>) -> (r:
        Packet<ToSend, ConnectionAccepted>)
        requires
            has_key(self.service.awaiting_connection_ack@, scheduled.message.connection_id),
        ensures
            ({
                let peer = value_of(
                    self.service.awaiting_connection_ack@,
                    scheduled.message.connection_id,
                );
                &&& r.delivery.id == scheduled.packet_id
                &&& r.delivery.meta.address == scheduled.address
                &&& r.sequence == peer.sequence_tracker
                &&& r.ack == peer.remote_ack_tracker
                &&& r.message == scheduled.message
            }),
    {
        self.service.create_connection_accepted(scheduled, elapsed(&self.timer))
    }

    /// Records that the connection accepted `packet` was sent, at the protocol's clock; it is
    /// kept for the protocol's time to live.
    pub fn sent_connection_accepted(&mut self, packet: Packet<ToSend, ConnectionAccepted>)
        requires
            has_key(old(self).service.awaiting_connection_ack@, packet.message.connection_id)
                ==> value_of(
                old(self).service.awaiting_connection_ack@,
                packet.message.connection_id,
            ).sequence_tracker@ < u32::MAX,
        ensures
            old(self).same_but_service(*final(self)),
            exists|time: Duration|
                #[trigger] old(self).service.sent_accept(
                    final(self).service,
                    packet,
                    time,
                    old(self).reliable_ttl,
                ),
    {
        let time = elapsed(&self.timer);
        let ttl = self.reliable_ttl;
        self.service.sent_connection_accepted(packet, time, ttl);
        assert(old(self).service.sent_accept(self.service, packet, time, old(self).reliable_ttl));
    }

    /// Takes the last sent connection accepted packet and returns it ready to be sent again at
    /// the protocol's clock, if its send time plus that clock exceeds the retry threshold. When
    /// that sum is too large for a duration, or the threshold is not passed, nothing is taken.
    pub fn retry_reliable_connection_accepted(&mut self) -> (r: Option<
        Packet<ToSend, ConnectionAccepted>,
    >)
        ensures
            exists|now: Duration|
                #[trigger] retried(
                    old(self).service.reliability_handler.service.list_sent_connection_accepted@,
                    final(self).service.reliability_handler.service.list_sent_connection_accepted@,
                    now,
                    r,
                ),
            old(self).same_but_service(*final(self)),
            final(self).service.api == old(self).service.api,
            final(self).service.connection_id_tracker == old(self).service.connection_id_tracker,
            final(self).service.requesting_connection@ == old(self).service.requesting_connection@,
            final(self).service.awaiting_connection_ack@ == old(self).service.awaiting_connection_ack@,
            final(self).service.connected@ == old(self).service.connected@,
            final(self).service.scheduler == old(self).service.scheduler,
            final(self).service.ban_list == old(self).service.ban_list,
            final(self).service.reliability_handler.list_sent_reliable_data_transfer == old(self).service.reliability_handler.list_sent_reliable_data_transfer,
            final(self).service.reliability_handler.list_sent_reliable_heartbeat == old(self).service.reliability_handler.list_sent_reliable_heartbeat,
            final(self).service.reliability_handler.list_sent_reliable_fragment == old(self).service.reliability_handler.list_sent_reliable_fragment,
    {
        let now = elapsed(&self.timer);
        let r = if retry_fits(&self.service.reliability_handler.service.list_sent_connection_accepted, now) {
            self.service.resend_reliable_connection_accepted(now)
        } else {
            None
        };
        assert(retried(
            old(self).service.reliability_handler.service.list_sent_connection_accepted@,
            self.service.reliability_handler.service.list_sent_connection_accepted@,
            now,
            r,
        ));
        r
    }

    /// Polls the reliability handler and every connected peer at the protocol's clock, then
    /// takes every event waiting for the user, in order.
    pub fn poll(&mut self) -> (r: Vec<ProtocolEvent<ServerEvent>>)
        requires
        ensures
            r@ == old(self).service.api@,
            final(self).service.api@.len() == 0,
            exists|now: Duration|
                #[trigger] old(self).service.reliability_handler.polled(
                    final(self).service.reliability_handler,
                    now,
                ) && peers_polled(old(self).service.connected@, final(self).service.connected@, now),
            old(self).same_but_service(*final(self)),
            final(self).service.last_antarc_schedule_check == old(self).service.last_antarc_schedule_check,
            final(self).service.connection_id_tracker == old(self).service.connection_id_tracker,
            final(self).service.requesting_connection@ == old(self).service.requesting_connection@,
            final(self).service.awaiting_connection_ack@ == old(self).service.awaiting_connection_ack@,
            final(self).service.ban_list == old(self).service.ban_list,
            final(self).service.scheduler == old(self).service.scheduler,
    {
        let now = elapsed(&self.timer);
        self.service.reliability_handler.poll(now);
        poll_peers(&mut self.service.connected, now);
        let mut events: Vec<ProtocolEvent<ServerEvent>> = Vec::new();
        std::mem::swap(&mut events, &mut self.service.api);
        assert(old(self).service.reliability_handler.polled(self.service.reliability_handler, now));
        assert(peers_polled(old(self).service.connected@, self.service.connected@, now));
        events
    }
}

} // verus!
