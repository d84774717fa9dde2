//! What the two sides of the protocol, client and server, provide to it.
use vstd::prelude::*;

use crate::duration::Duration;
use crate::packets::scheduled::ReliabilityType;
use crate::packets::{ConnectionId, DataTransfer, Fragment, Heartbeat, Packet, ToSend};
use crate::peers::{Connected, Peer};
use crate::reliability::ReliabilityHandler;
use crate::scheduler::Scheduler;
use crate::table::Table;

verus! {

/// The part of a scheduler that only one side of the protocol has.
pub trait ServiceScheduler: Sized {
    /// Whether nothing is scheduled.
    spec fn spec_is_empty(&self) -> bool;

    /// An empty scheduler with room for `capacity` packets.
    fn new(capacity: usize) -> (r: Self)
        ensures
            r.spec_is_empty(),
    ;
}

/// The part of a reliability handler that only one side of the protocol has.
pub trait ServiceReliability: Sized {
    /// Whether no sent packet is kept.
    spec fn spec_is_empty(&self) -> bool;

    /// Whether `next` is what `poll` at `now` makes of `self`.
    spec fn spec_polled(&self, now: Duration, next: Self) -> bool;

    /// An empty handler with room for `capacity` packets.
    fn new(capacity: usize) -> (r: Self)
        ensures
            r.spec_is_empty(),
    ;

    /// Drops sent packets that need no more waiting.
    fn poll(&mut self, now: Duration)
        ensures
            old(self).spec_polled(now, *final(self)),
    ;
}

/// One side of the protocol, client or server: its scheduler, its reliability handler, its
/// connected peers, and what it does once a packet was sent.
pub trait Service: Sized {
    type SchedulerType: ServiceScheduler;

    type ReliabilityHandlerType: ServiceReliability;

    /// The scheduler of this side.
    spec fn spec_scheduler(&self) -> Scheduler<Self::SchedulerType>;

    /// The reliability handler of this side.
    spec fn spec_reliability_handler(&self) -> ReliabilityHandler<Self::ReliabilityHandlerType>;

    /// The connected peers of this side.
    spec fn spec_connected(&self) -> Table<ConnectionId, Peer<Connected>>;

    /// Whether `other` differs from `self` in the scheduler alone.
    spec fn spec_same_but_scheduler(&self, other: Self) -> bool;

    /// Whether `other` differs from `self` in the reliability handler alone.
    spec fn spec_same_but_reliability_handler(&self, other: Self) -> bool;

    /// Whether sending `packet` can be recorded without overflowing a counter.
    spec fn spec_can_send_data_transfer(&self, packet: Packet<ToSend, DataTransfer>) -> bool;

    /// Whether `next` is `self` once `packet` was sent at `time`.
    spec fn spec_sent_data_transfer(
        &self,
        packet: Packet<ToSend, DataTransfer>,
        time: Duration,
        reliability: ReliabilityType,
        ttl: Duration,
        next: Self,
    ) -> bool;

    /// Whether sending `packet` can be recorded without overflowing a counter.
    spec fn spec_can_send_fragment(&self, packet: Packet<ToSend, Fragment>) -> bool;

    /// Whether `next` is `self` once `packet` was sent at `time`.
    spec fn spec_sent_fragment(
        &self,
        packet: Packet<ToSend, Fragment>,
        time: Duration,
        reliability: ReliabilityType,
        ttl: Duration,
        next: Self,
    ) -> bool;

    /// Whether sending `packet` can be recorded without overflowing a counter.
    spec fn spec_can_send_heartbeat(&self, packet: Packet<ToSend, Heartbeat>) -> bool;

    /// Whether `next` is `self` once `packet` was sent at `time`.
    spec fn spec_sent_heartbeat(
        &self,
        packet: Packet<ToSend, Heartbeat>,
        time: Duration,
        reliability: ReliabilityType,
        ttl: Duration,
        next: Self,
    ) -> bool;

    /// The scheduler of this side.
    fn scheduler(&self) -> (r: &Scheduler<Self::SchedulerType>)
        ensures
            *r == self.spec_scheduler(),
    ;

    /// The scheduler of this side, to change it.
    fn scheduler_mut(&mut self) -> (r: &mut Scheduler<Self::SchedulerType>)
        ensures
            *r == old(self).spec_scheduler(),
            final(self).spec_scheduler() == *final(r),
            old(self).spec_same_but_scheduler(*final(self)),
    ;

    /// The reliability handler of this side.
    fn reliability_handler(&self) -> (r: &ReliabilityHandler<Self::ReliabilityHandlerType>)
        ensures
            *r == self.spec_reliability_handler(),
    ;

    /// The reliability handler of this side, to change it.
    fn reliability_handler_mut(&mut self) -> (r: &mut ReliabilityHandler<
        Self::ReliabilityHandlerType,
    >)
        ensures
            *r == old(self).spec_reliability_handler(),
            final(self).spec_reliability_handler() == *final(r),
            old(self).spec_same_but_reliability_handler(*final(self)),
    ;

    /// The connected peers of this side.
    fn connected(&self) -> (r: &Table<ConnectionId, Peer<Connected>>)
        ensures
            *r == self.spec_connected(),
    ;

    /// Records that `packet` was sent at `time`.
    fn sent_data_transfer(
        &mut self,
        packet: Packet<ToSend, DataTransfer>,
        time: Duration,
        reliability: ReliabilityType,
        ttl: Duration,
    )
        requires
            old(self).spec_can_send_data_transfer(packet),
        ensures
            old(self).spec_sent_data_transfer(packet, time, reliability, ttl, *final(self)),
    ;

    /// Records that `packet` was sent at `time`.
    fn sent_fragment(
        &mut self,
        packet: Packet<ToSend, Fragment>,
        time: Duration,
        reliability: ReliabilityType,
        ttl: Duration,
    )
        requires
            old(self).spec_can_send_fragment(packet),
        ensures
            old(self).spec_sent_fragment(packet, time, reliability, ttl, *final(self)),
    ;

    /// Records that `packet` was sent at `time`.
    fn sent_heartbeat(
        &mut self,
        packet: Packet<ToSend, Heartbeat>,
        time: Duration,
        reliability: ReliabilityType,
        ttl: Duration,
    )
        requires
            old(self).spec_can_send_heartbeat(packet),
        ensures
            old(self).spec_sent_heartbeat(packet, time, reliability, ttl, *final(self)),
    ;
}

} // verus!
