//! The reliability handler: reliable packets that were sent and may need to be sent again.
use vstd::prelude::*;

use crate::duration::{Duration, MAX_DURATION};
use crate::packets::{
    as_sent, DataTransfer, Encoder, Fragment, Heartbeat, Message, MetaDelivery, Packet, Sent,
    ToSend,
};
use crate::service_traits::ServiceReliability;

verus! {

/// The time past which a sent packet is sent again: the packet's send time plus the time of the
/// retry must exceed 1000 seconds.
pub const RETRY_THRESHOLD: Duration = 1_000_000_000_000;

/// The reliable packets sent and not yet dropped, and those of one side of the protocol.
#[derive(Debug)]
pub struct ReliabilityHandler<S: ServiceReliability> {
    pub list_sent_reliable_data_transfer: Vec<Packet<Sent, DataTransfer>>,
    pub list_sent_reliable_heartbeat: Vec<Packet<Sent, Heartbeat>>,
    pub list_sent_reliable_fragment: Vec<Packet<Sent, Fragment>>,
    pub service: S,
}

/// Whether `r` is the packet `p`, ready to be sent again at `now`.
pub open spec fn resends<M: Message + Encoder>(
    r: Packet<ToSend, M>,
    p: Packet<Sent, M>,
    now: Duration,
) -> bool {
    &&& r.delivery == ToSend {
        id: p.delivery.id,
        meta: MetaDelivery { time: now, address: p.delivery.meta.address },
    }
    &&& r.sequence == p.sequence
    &&& r.ack == p.ack
    &&& r.message == p.message
}

/// Whether a retry at `now` can add the time of the last sent packet to `now` without overflow.
pub open spec fn can_retry<M: Message + Encoder>(sent: Seq<Packet<Sent, M>>, now: Duration) -> bool {
    sent.len() > 0 ==> sent.last().delivery.meta.time + now <= MAX_DURATION
}

/// What a retry at `now` does: when the last sent packet's send time plus `now` exceeds
/// `RETRY_THRESHOLD`, it takes that packet off the list and returns it ready to be sent again;
/// otherwise the list stays as it was and nothing is returned.
pub open spec fn retry_outcome<M: Message + Encoder>(
    old_sent: Seq<Packet<Sent, M>>,
    new_sent: Seq<Packet<Sent, M>>,
    now: Duration,
    r: Option<Packet<ToSend, M>>,
) -> bool {
    if old_sent.len() > 0 && old_sent.last().delivery.meta.time + now > RETRY_THRESHOLD {
        &&& new_sent == old_sent.drop_last()
        &&& r matches Some(p) && resends(p, old_sent.last(), now)
    } else {
        new_sent == old_sent && r is None
    }
}

/// What a retry at `now` does: as `retry_outcome` says when the last sent packet's time plus
/// `now` is a duration; otherwise nothing changes and nothing is returned.
pub open spec fn retried<M: Message + Encoder>(
    old_sent: Seq<Packet<Sent, M>>,
    new_sent: Seq<Packet<Sent, M>>,
    now: Duration,
    r: Option<Packet<ToSend, M>>,
) -> bool {
    if can_retry(old_sent, now) {
        retry_outcome(old_sent, new_sent, now, r)
    } else {
        new_sent == old_sent && r is None
    }
}

/// A reliable packet that was just sent is what the next retry takes back: retried at `now`,
/// it is returned ready to be sent again at `now`, with its id, address, sequence number, ack
/// and message, exactly when its send time plus `now` exceeds the retry threshold, and the
/// packets sent before it stay; otherwise the list keeps it and nothing is returned.
pub proof fn law_sent_then_retried<M: Message + Encoder>(
    sent: Seq<Packet<Sent, M>>,
    packet: Packet<ToSend, M>,
    time: Duration,
    ttl: Duration,
    now: Duration,
    after: Seq<Packet<Sent, M>>,
    r: Option<Packet<ToSend, M>>,
)
    requires
        retried(sent.push(as_sent(packet, time, ttl)), after, now, r),
    ensures
        (r is Some) == (time + now > RETRY_THRESHOLD && time + now <= MAX_DURATION),
        r is Some ==> after == sent,
        r is None ==> after == sent.push(as_sent(packet, time, ttl)),
        r matches Some(p) ==> {
            &&& p.delivery == ToSend {
                id: packet.delivery.id,
                meta: MetaDelivery { time: now, address: packet.delivery.meta.address },
            }
            &&& p.sequence == packet.sequence
            &&& p.ack == packet.ack
            &&& p.message == packet.message
        },
{
    let list = sent.push(as_sent(packet, time, ttl));
    assert(list.last() == as_sent(packet, time, ttl));
    assert(list.drop_last() =~= sent);
}

/// Whether the last sent packet of `list`, if any, has a send time that added to `now` is a
/// duration.
pub fn retry_fits<M: Message + Encoder>(list: &Vec<Packet<Sent, M>>, now: Duration) -> (r: bool)
    ensures
        r == can_retry(list@, now),
{
    if list.len() == 0 {
        return true;
    }
    match list[list.len() - 1].delivery.meta.time.checked_add(now) {
        Some(sum) => sum <= MAX_DURATION,
        None => false,
    }
}

/// Takes the last packet off `list` and returns it ready to be sent again at `now`, if its send
/// time plus `now` exceeds `RETRY_THRESHOLD`; otherwise leaves `list` as it is.
pub fn retry_last<M: Message + Encoder>(list: &mut Vec<Packet<Sent, M>>, now: Duration) -> (r:
    Option<Packet<ToSend, M>>)
    requires
        can_retry(old(list)@, now),
    ensures
        retry_outcome(old(list)@, final(list)@, now, r),
{
    let len: usize = list.len();
    if len == 0 || list[len - 1].delivery.meta.time + now <= RETRY_THRESHOLD {
        return None;
    }
    let packet = list.pop().unwrap();
    let meta = MetaDelivery { time: now, address: packet.delivery.meta.address };
    let delivery = ToSend { id: packet.delivery.id, meta };
    Some(Packet { delivery, sequence: packet.sequence, ack: packet.ack, message: packet.message })
}

/// Whether the sent packet `p` still waits for its acknowledgement at `now`: its send time plus
/// its time to live lies after `now`.
pub open spec fn alive<M: Message + Encoder>(p: Packet<Sent, M>, now: Duration) -> bool {
    p.delivery.meta.time + p.delivery.ttl > now
}

/// The packets of `sent` that still wait at `now`, in their order.
pub open spec fn unexpired<M: Message + Encoder>(sent: Seq<Packet<Sent, M>>, now: Duration) -> Seq<
    Packet<Sent, M>,
> {
    sent.filter(|p: Packet<Sent, M>| alive(p, now))
}

/// Taking one more packet of `sent` into account adds it to the waiting ones exactly when it
/// still waits.
proof fn lemma_unexpired_step<M: Message + Encoder>(sent: Seq<Packet<Sent, M>>, j: int, now: Duration)
    requires
        0 <= j < sent.len(),
    ensures
        unexpired(sent.take(j + 1), now) == if alive(sent[j], now) {
            unexpired(sent.take(j), now).push(sent[j])
        } else {
            unexpired(sent.take(j), now)
        },
{
    reveal(Seq::filter);
    assert(sent.take(j + 1).drop_last() =~= sent.take(j));
    assert(sent.take(j + 1).last() == sent[j]);
}

/// A reliable packet sent at `time` with the time to live `ttl` outlives a poll at `now` exactly
/// when `time + ttl` lies after `now`: it then stays last behind the packets kept before it,
/// and otherwise the poll keeps just those.
pub proof fn law_sent_then_polled<M: Message + Encoder>(
    sent: Seq<Packet<Sent, M>>,
    packet: Packet<ToSend, M>,
    time: Duration,
    ttl: Duration,
    now: Duration,
)
    ensures
        time + ttl > now ==> unexpired(sent.push(as_sent(packet, time, ttl)), now) == unexpired(
            sent,
            now,
        ).push(as_sent(packet, time, ttl)),
        time + ttl <= now ==> unexpired(sent.push(as_sent(packet, time, ttl)), now) == unexpired(
            sent,
            now,
        ),
{
    let list = sent.push(as_sent(packet, time, ttl));
    reveal(Seq::filter);
    assert(list.drop_last() =~= sent);
    assert(list.last() == as_sent(packet, time, ttl));
}

/// Keeps the packets of `list` that still wait at `now`, in their order, and drops the others.
pub fn keep_unexpired<M: Message + Encoder>(list: &mut Vec<Packet<Sent, M>>, now: Duration)
    ensures
        final(list)@ == unexpired(old(list)@, now),
{
    let ghost original = list@;
    let mut i: usize = 0;
    let ghost mut j: int = 0;
    while i < list.len()
        invariant
            0 <= j <= original.len(),
            i == unexpired(original.take(j), now).len(),
            list@ == unexpired(original.take(j), now) + original.skip(j),
        decreases list.len() - i,
    {
        proof {
            lemma_unexpired_step(original, j, now);
            assert(list@[i as int] == original[j]);
        }
        let time: Duration = list[i].delivery.meta.time;
        let ttl: Duration = list[i].delivery.ttl;
        if time > now || ttl > now - time {
            proof {
                assert(list@ =~= unexpired(original.take(j + 1), now) + original.skip(j + 1));
            }
            i = i + 1;
        } else {
            list.remove(i);
            proof {
                assert(list@ =~= unexpired(original.take(j + 1), now) + original.skip(j + 1));
            }
        }
        proof {
            j = j + 1;
        }
    }
    proof {
        assert(original.skip(j).len() == 0);
        assert(original.take(j) =~= original);
        assert(list@ =~= unexpired(original, now));
    }
}

impl<S: ServiceReliability> ReliabilityHandler<S> {
    /// An empty handler with room for `capacity` packets in each list.
    pub fn new(capacity: usize) -> (r: Self)
        ensures
            r.list_sent_reliable_data_transfer@.len() == 0,
            r.list_sent_reliable_heartbeat@.len() == 0,
            r.list_sent_reliable_fragment@.len() == 0,
            r.service.spec_is_empty(),
    {
        ReliabilityHandler {
            list_sent_reliable_data_transfer: Vec::with_capacity(capacity),
            list_sent_reliable_heartbeat: Vec::with_capacity(capacity),
            list_sent_reliable_fragment: Vec::with_capacity(capacity),
            service: S::new(capacity),
        }
    }

    /// What polling at `now` does: it drops the sent data transfers and fragments whose time to
    /// live has run out, keeps the others in their order, keeps the heartbeats, and polls the
    /// packets of the service.
    pub open spec fn polled(self, next: Self, now: Duration) -> bool {
        &&& next.list_sent_reliable_heartbeat@ == self.list_sent_reliable_heartbeat@
        &&& next.list_sent_reliable_data_transfer@ == unexpired(self.list_sent_reliable_data_transfer@, now)
        &&& next.list_sent_reliable_fragment@ == unexpired(self.list_sent_reliable_fragment@, now)
        &&& self.service.spec_polled(now, next.service)
    }

    /// Drops the sent data transfers and fragments whose time to live has run out at `now`;
    /// then polls the packets of the service.
    pub fn poll(&mut self, now: Duration)
        ensures
            old(self).polled(*final(self), now),
    {
        keep_unexpired(&mut self.list_sent_reliable_data_transfer, now);
        keep_unexpired(&mut self.list_sent_reliable_fragment, now);
        self.service.poll(now);
    }

    /// Takes the last sent data transfer and returns it ready to be sent again at `now`, if
    /// its send time plus `now` exceeds `RETRY_THRESHOLD`;
    /// otherwise the list stays as it is.
    pub fn retry_reliable_data_transfer(&mut self, now: Duration) -> (r: Option<
        Packet<ToSend, DataTransfer>,
    >)
        requires
            can_retry(old(self).list_sent_reliable_data_transfer@, now),
        ensures
            retry_outcome(
                old(self).list_sent_reliable_data_transfer@,
                final(self).list_sent_reliable_data_transfer@,
                now,
                r,
            ),
            final(self).list_sent_reliable_heartbeat@ == old(self).list_sent_reliable_heartbeat@,
            final(self).list_sent_reliable_fragment@ == old(self).list_sent_reliable_fragment@,
            final(self).service == old(self).service,
    {
        retry_last(&mut self.list_sent_reliable_data_transfer, now)
    }

    /// Takes the last sent fragment and returns it ready to be sent again at `now`, if its send
    /// time plus `now` exceeds `RETRY_THRESHOLD`;
    /// otherwise the list stays as it is.
    pub fn retry_reliable_fragment(&mut self, now: Duration) -> (r: Option<
        Packet<ToSend, Fragment>,
    >)
        requires
            can_retry(old(self).list_sent_reliable_fragment@, now),
        ensures
            retry_outcome(
                old(self).list_sent_reliable_fragment@,
                final(self).list_sent_reliable_fragment@,
                now,
                r,
            ),
            final(self).list_sent_reliable_heartbeat@ == old(self).list_sent_reliable_heartbeat@,
            final(self).list_sent_reliable_data_transfer@ == old(self).list_sent_reliable_data_transfer@,
            final(self).service == old(self).service,
    {
        retry_last(&mut self.list_sent_reliable_fragment, now)
    }

    /// Takes the last sent heartbeat and returns it ready to be sent again at `now`, if its
    /// send time plus `now` exceeds `RETRY_THRESHOLD`;
    /// otherwise the list stays as it is.
    pub fn retry_reliable_heartbeat(&mut self, now: Duration) -> (r: Option<
        Packet<ToSend, Heartbeat>,
    >)
        requires
            can_retry(old(self).list_sent_reliable_heartbeat@, now),
        ensures
            retry_outcome(
                old(self).list_sent_reliable_heartbeat@,
                final(self).list_sent_reliable_heartbeat@,
                now,
                r,
            ),
            final(self).list_sent_reliable_fragment@ == old(self).list_sent_reliable_fragment@,
            final(self).list_sent_reliable_data_transfer@ == old(self).list_sent_reliable_data_transfer@,
            final(self).service == old(self).service,
    {
        retry_last(&mut self.list_sent_reliable_heartbeat, now)
    }
}

} // verus!
