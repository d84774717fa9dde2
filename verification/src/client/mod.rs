//! The client side of the protocol.
pub mod laws;
pub mod reassembly;
pub mod service;

pub use service::{Client, ClientReliabilityHandler, ClientScheduler};

use vstd::prelude::*;

use crate::duration::{Duration, NANOS_PER_SECOND};
use crate::errors::ProtocolError;
use crate::events::{ClientEvent, ProtocolEvent};
use crate::packets::raw::{decodable, RawPacket};
use crate::packets::scheduled::{Reliable, Scheduled};
use crate::packets::{ConnectionRequest, Packet, ToSend};
use crate::protocol::{elapsed, instant_now, Protocol};
use crate::reliability::{retried, retry_fits};
use crate::socket_addr::SocketAddr;
use crate::table::{has_key, value_of};

verus! {

impl Protocol<Client> {
    /// A client protocol: a client with no peers, packet ids from zero, a clock started now,
    /// and reliable packets kept for two seconds once sent.
    pub fn new_client() -> (r: Self)
        ensures
            r.packet_id_tracker == 0,
            r.service.fresh(),
            r.receiver_pipe@.len() == 0,
            r.reliable_ttl == 2 * NANOS_PER_SECOND,
    {
        let service = Client::new();
        Protocol {
            packet_id_tracker: 0,
            timer: instant_now(),
            service,
            receiver_pipe: Vec::with_capacity(32),
            reliable_ttl: 2 * NANOS_PER_SECOND,
        }
    }

    /// The connection request packet for `scheduled`, with the sequence number and ack of the
    /// peer it requests, timed by the protocol's clock.
    pub fn create_connection_request(&self, scheduled: Scheduled<Reliable, ConnectionRequest>) -> (r:
        Packet<ToSend, ConnectionRequest>)
        requires
            has_key(self.service.requesting_connection@, scheduled.address),
        ensures
            ({
                let peer = value_of(self.service.requesting_connection@, scheduled.address);
                &&& r.delivery.id == scheduled.packet_id
                &&& r.delivery.meta.address == scheduled.address
                &&& r.sequence == peer.sequence_tracker
                &&& r.ack == peer.remote_ack_tracker
                &&& r.message == scheduled.message
            }),
    {
        self.service.create_connection_request(scheduled, elapsed(&self.timer))
    }

    /// Records that the connection request `packet` was sent, at the protocol's clock: the peer
    /// waits for its connection ack, and the packet is kept for the protocol's time to live.
    pub fn sent_connection_request(&mut self, packet: Packet<ToSend, ConnectionRequest>)
        requires
            has_key(old(self).service.requesting_connection@, packet.delivery.meta.address),
            value_of(
                old(self).service.requesting_connection@,
                packet.delivery.meta.address,
            ).sequence_tracker@ < u32::MAX,
        ensures
            old(self).same_but_service(*final(self)),
            exists|time: Duration|
                #[trigger] old(self).service.sent_request(
                    final(self).service,
                    packet,
                    time,
                    old(self).reliable_ttl,
                ),
    {
        let time = elapsed(&self.timer);
        let ttl = self.reliable_ttl;
        self.service.sent_connection_request(packet, time, ttl);
        assert(old(self).service.sent_request(self.service, packet, time, old(self).reliable_ttl));
    }

    /// Handles the packet `raw_packet`, received at the protocol's clock.
    pub fn on_received(&mut self, raw_packet: RawPacket<Client>) -> (r: Result<(), ProtocolError>)
        requires
            decodable(raw_packet.bytes@),
        ensures
            old(self).same_but_service(*final(self)),
            exists|time: Duration|
                #[trigger] old(self).service.received(
                    final(self).service,
                    raw_packet.bytes@,
                    raw_packet.address,
                    time,
                    r,
                ),
    {
        let time = elapsed(&self.timer);
        let ghost bytes = raw_packet.bytes@;
        let ghost address = raw_packet.address;
        let r = self.service.on_received(raw_packet, time);
        assert(old(self).service.received(self.service, bytes, address, time, r));
        r
    }

    /// Handles the packet `raw_packet`, received at the protocol's clock, when decoding it reads
    /// only bytes that exist; otherwise nothing happens and nothing is returned.
    pub fn receive(&mut self, raw_packet: RawPacket<Client>) -> (r: Option<Result<(), ProtocolError>>)
        ensures
            r is None <==> !decodable(raw_packet.bytes@),
            r is None ==> *final(self) == *old(self),
            r matches Some(result) ==> {
                &&& old(self).same_but_service(*final(self))
                &&& exists|time: Duration|
                    #[trigger] old(self).service.received(
                        final(self).service,
                        raw_packet.bytes@,
                        raw_packet.address,
                        time,
                        result,
                    )
            },
    {
        if raw_packet.is_decodable() {
            Some(self.on_received(raw_packet))
        } else {
            None
        }
    }

    /// Starts connecting to `remote_address` at the protocol's clock, under the next packet id;
    /// on success the packet id after it becomes the next one.
    pub fn connect(&mut self, remote_address: SocketAddr) -> (r: Result<(), ProtocolError>)
        requires
            !old(self).service.spec_known_peer(remote_address) ==> old(self).packet_id_tracker
                < u64::MAX,
        ensures
            exists|time: Duration|
                #[trigger] old(self).service.connect_outcome(
                    final(self).service,
                    remote_address,
                    old(self).packet_id_tracker,
                    time,
                    r,
                ),
            final(self).timer == old(self).timer,
            final(self).receiver_pipe@ == old(self).receiver_pipe@,
            final(self).reliable_ttl == old(self).reliable_ttl,
            r is Ok ==> final(self).packet_id_tracker == old(self).packet_id_tracker + 1,
            r is Err ==> final(self).packet_id_tracker == old(self).packet_id_tracker,
    {
        let time = elapsed(&self.timer);
        let packet_id = self.packet_id_tracker;
        let result = self.service.connect(remote_address, packet_id, time);
        let r = match result {
            Ok(()) => {
                self.packet_id_tracker = self.packet_id_tracker + 1;
                Ok(())
            },
            Err(e) => Err(e),
        };
        assert(old(self).service.connect_outcome(
            self.service,
            remote_address,
            old(self).packet_id_tracker,
            time,
            r,
        ));
        r
    }

    /// Takes the last sent connection request and returns it ready to be sent again at the
    /// protocol's clock, if its send time plus that clock exceeds the retry threshold. When that
    /// sum is too large for a duration, or the threshold is not passed, nothing is taken.
    pub fn resend_reliable_connection_request(&mut self) -> (r: Option<
        Packet<ToSend, ConnectionRequest>,
    >)
        ensures
            exists|now: Duration|
                #[trigger] retried(
                    old(self).service.reliability_handler.service.list_sent_connection_request@,
                    final(self).service.reliability_handler.service.list_sent_connection_request@,
                    now,
                    r,
                ),
            old(self).same_but_service(*final(self)),
            final(self).service.api == old(self).service.api,
            final(self).service.last_sent_time == old(self).service.last_sent_time,
            final(self).service.requesting_connection@ == old(self).service.requesting_connection@,
            final(self).service.awaiting_connection_ack@ == old(self).service.awaiting_connection_ack@,
            final(self).service.connected@ == old(self).service.connected@,
            final(self).service.scheduler == old(self).service.scheduler,
            final(self).service.reliability_handler.list_sent_reliable_data_transfer == old(self).service.reliability_handler.list_sent_reliable_data_transfer,
            final(self).service.reliability_handler.list_sent_reliable_heartbeat == old(self).service.reliability_handler.list_sent_reliable_heartbeat,
            final(self).service.reliability_handler.list_sent_reliable_fragment == old(self).service.reliability_handler.list_sent_reliable_fragment,
    {
        let now = elapsed(&self.timer);
        let r = if retry_fits(&self.service.reliability_handler.service.list_sent_connection_request, now) {
            self.service.resend_reliable_connection_request(now)
        } else {
            None
        };
        assert(retried(
            old(self).service.reliability_handler.service.list_sent_connection_request@,
            self.service.reliability_handler.service.list_sent_connection_request@,
            now,
            r,
        ));
        r
    }

    /// Polls the reliability handler at the protocol's clock, then takes every event waiting
    /// for the user, in order.
    pub fn poll(&mut self) -> (r: Vec<ProtocolEvent<ClientEvent>>)
        requires
        ensures
            r@ == old(self).service.api@,
            final(self).service.api@.len() == 0,
            exists|now: Duration|
                #[trigger] old(self).service.reliability_handler.polled(
                    final(self).service.reliability_handler,
                    now,
                ),
            old(self).same_but_service(*final(self)),
            final(self).service.last_sent_time == old(self).service.last_sent_time,
            final(self).service.requesting_connection@ == old(self).service.requesting_connection@,
            final(self).service.awaiting_connection_ack@ == old(self).service.awaiting_connection_ack@,
            final(self).service.connected@ == old(self).service.connected@,
            final(self).service.scheduler == old(self).service.scheduler,
    {
        let now = elapsed(&self.timer);
        self.service.reliability_handler.poll(now);
        let mut events: Vec<ProtocolEvent<ClientEvent>> = Vec::new();
        std::mem::swap(&mut events, &mut self.service.api);
        assert(old(self).service.reliability_handler.polled(self.service.reliability_handler, now));
        events
    }
}

} // verus!
