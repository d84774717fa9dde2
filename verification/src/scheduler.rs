//! The scheduler: packets that wait to be sent, one list per kind and reliability.
use vstd::prelude::*;

use crate::duration::Duration;
use crate::packets::scheduled::{
    schedules_data_transfer, schedules_fragment, schedules_heartbeat, Reliability, Reliable,
    ReliabilityType, Scheduled, Unreliable,
};
use crate::packets::{ConnectionId, DataTransfer, Fragment, Heartbeat, PacketId, Payload};
use crate::service_traits::ServiceScheduler;
use crate::payload::{chunk_count, chunks, flatten, law_chunks_rebuild};
use crate::socket_addr::SocketAddr;

verus! {

/// The packets waiting to be sent, and the scheduled packets of one side of the protocol.
#[derive(Debug)]
pub struct Scheduler<S: ServiceScheduler> {
    pub list_scheduled_reliable_data_transfer: Vec<Scheduled<Reliable, DataTransfer>>,
    pub list_scheduled_unreliable_data_transfer: Vec<Scheduled<Unreliable, DataTransfer>>,
    pub list_scheduled_reliable_fragment: Vec<Scheduled<Reliable, Fragment>>,
    pub list_scheduled_unreliable_fragment: Vec<Scheduled<Unreliable, Fragment>>,
    pub list_scheduled_reliable_heartbeat: Vec<Scheduled<Reliable, Heartbeat>>,
    pub list_scheduled_unreliable_heartbeat: Vec<Scheduled<Unreliable, Heartbeat>>,
    pub service: S,
}

/// One packet to schedule: for whom, with which bytes, and which part of the payload it is.
pub struct PlannedEntry {
    pub connection_id: ConnectionId,
    pub address: SocketAddr,
    pub payload: Seq<u8>,
    pub index: int,
    pub total: int,
}

/// Whether `new` is `old` followed by fragments scheduled under `packet_id` at `time` as `plan`
/// says, in its order.
pub open spec fn fragments_follow<R: Reliability>(
    old: Seq<Scheduled<R, Fragment>>,
    new: Seq<Scheduled<R, Fragment>>,
    packet_id: PacketId,
    time: Duration,
    plan: Seq<PlannedEntry>,
) -> bool {
    &&& new.len() == old.len() + plan.len()
    &&& new.subrange(0, old.len() as int) == old
    &&& forall|j: int|
        0 <= j < plan.len() ==> schedules_fragment(
            #[trigger] new[old.len() + j],
            packet_id,
            plan[j].connection_id,
            plan[j].payload,
            plan[j].index,
            plan[j].total,
            time,
            plan[j].address,
        )
}

/// Whether `new` is `old` followed by data transfers scheduled under `packet_id` at `time` as
/// `plan` says, in its order.
pub open spec fn data_transfers_follow<R: Reliability>(
    old: Seq<Scheduled<R, DataTransfer>>,
    new: Seq<Scheduled<R, DataTransfer>>,
    packet_id: PacketId,
    time: Duration,
    plan: Seq<PlannedEntry>,
) -> bool {
    &&& new.len() == old.len() + plan.len()
    &&& new.subrange(0, old.len() as int) == old
    &&& forall|j: int|
        0 <= j < plan.len() ==> schedules_data_transfer(
            #[trigger] new[old.len() + j],
            packet_id,
            plan[j].connection_id,
            plan[j].payload,
            time,
            plan[j].address,
        )
}

/// Whether `new` is `old` followed by heartbeats scheduled under `packet_id` at `time` for
/// `targets`, in their order.
pub open spec fn heartbeats_follow<R: Reliability>(
    old: Seq<Scheduled<R, Heartbeat>>,
    new: Seq<Scheduled<R, Heartbeat>>,
    packet_id: PacketId,
    time: Duration,
    targets: Seq<(ConnectionId, SocketAddr)>,
) -> bool {
    &&& new.len() == old.len() + targets.len()
    &&& new.subrange(0, old.len() as int) == old
    &&& forall|j: int|
        0 <= j < targets.len() ==> schedules_heartbeat(
            #[trigger] new[old.len() + j],
            packet_id,
            targets[j].0,
            time,
            targets[j].1,
        )
}

/// The entries that scheduling the chunk `chunk`, number `index` of `total`, makes: one per
/// target, in the targets' order.
pub open spec fn plan_row(
    chunk: Seq<u8>,
    index: int,
    total: int,
    targets: Seq<(ConnectionId, SocketAddr)>,
) -> Seq<PlannedEntry> {
    Seq::new(
        targets.len(),
        |j: int|
            PlannedEntry {
                connection_id: targets[j].0,
                address: targets[j].1,
                payload: chunk,
                index,
                total,
            },
    )
}

/// The entries that scheduling the first `n` of `chunks` for `targets` makes: chunk by chunk,
/// and for each chunk target by target.
pub open spec fn plan_rows(
    chunks: Seq<Seq<u8>>,
    targets: Seq<(ConnectionId, SocketAddr)>,
    n: nat,
) -> Seq<PlannedEntry>
    decreases n,
{
    if n == 0 {
        Seq::empty()
    } else {
        plan_rows(chunks, targets, (n - 1) as nat) + plan_row(
            chunks[n - 1],
            n - 1,
            chunks.len() as int,
            targets,
        )
    }
}

/// The entries that scheduling all of `chunks` for `targets` makes.
pub open spec fn payload_plan(
    chunks: Seq<Seq<u8>>,
    targets: Seq<(ConnectionId, SocketAddr)>,
) -> Seq<PlannedEntry> {
    plan_rows(chunks, targets, chunks.len())
}

proof fn lemma_plan_rows_single(
    chunks: Seq<Seq<u8>>,
    target: (ConnectionId, SocketAddr),
    n: nat,
)
    requires
        n <= chunks.len(),
    ensures
        plan_rows(chunks, seq![target], n).len() == n,
        forall|j: int|
            0 <= j < n ==> #[trigger] plan_rows(chunks, seq![target], n)[j] == (PlannedEntry {
                connection_id: target.0,
                address: target.1,
                payload: chunks[j],
                index: j,
                total: chunks.len() as int,
            }),
    decreases n,
{
    if n > 0 {
        lemma_plan_rows_single(chunks, target, (n - 1) as nat);
        let row = plan_row(chunks[n - 1], n - 1, chunks.len() as int, seq![target]);
        assert(row.len() == 1);
        assert(row[0] == (PlannedEntry {
            connection_id: target.0,
            address: target.1,
            payload: chunks[n - 1],
            index: n - 1,
            total: chunks.len() as int,
        }));
    }
}

/// Scheduling a payload for one target and joining the payloads of what was scheduled, in
/// order, gives the payload back: there is one entry per chunk, each numbered by its place
/// among all the chunks, each holding between one and `size` bytes.
pub proof fn law_single_target_plan_rebuilds(
    payload: Seq<u8>,
    size: nat,
    target: (ConnectionId, SocketAddr),
)
    requires
        size > 0,
    ensures
        ({
            let plan = payload_plan(chunks(payload, size), seq![target]);
            &&& plan.len() == chunk_count(payload.len(), size)
            &&& forall|i: int|
                0 <= i < plan.len() ==> {
                    &&& (#[trigger] plan[i]).index == i
                    &&& plan[i].total == plan.len()
                    &&& plan[i].connection_id == target.0
                    &&& plan[i].address == target.1
                    &&& 0 < plan[i].payload.len() <= size
                }
            &&& flatten(plan.map_values(|e: PlannedEntry| e.payload)) == payload
        }),
{
    let parts = chunks(payload, size);
    law_chunks_rebuild(payload, size);
    lemma_plan_rows_single(parts, target, parts.len());
    let plan = payload_plan(parts, seq![target]);
    assert(plan.map_values(|e: PlannedEntry| e.payload) =~= parts);
    assert forall|i: int| 0 <= i < plan.len() implies 0 < (#[trigger] plan[i]).payload.len() <= size by {
        assert(plan[i].payload == parts[i]);
    }
}

proof fn lemma_fragments_follow_push<R: Reliability>(
    a: Seq<Scheduled<R, Fragment>>,
    b: Seq<Scheduled<R, Fragment>>,
    c: Seq<Scheduled<R, Fragment>>,
    packet_id: PacketId,
    time: Duration,
    plan: Seq<PlannedEntry>,
    e: PlannedEntry,
)
    requires
        fragments_follow(a, b, packet_id, time, plan),
        fragments_follow(b, c, packet_id, time, seq![e]),
    ensures
        fragments_follow(a, c, packet_id, time, plan.push(e)),
{
    assert(c.subrange(0, b.len() as int) == b);
    assert(c.subrange(0, a.len() as int) =~= b.subrange(0, a.len() as int));
    let p = plan.push(e);
    assert forall|j: int| 0 <= j < p.len() implies schedules_fragment(
        #[trigger] c[a.len() + j],
        packet_id,
        p[j].connection_id,
        p[j].payload,
        p[j].index,
        p[j].total,
        time,
        p[j].address,
    ) by {
        if j < plan.len() {
            assert(c[a.len() + j] == c.subrange(0, b.len() as int)[a.len() + j]);
            assert(b[a.len() + j] == c[a.len() + j]);
        } else {
            assert(seq![e][0] == e);
            assert(c[b.len() + 0int] == c[a.len() + j]);
        }
    }
}

proof fn lemma_data_transfers_follow_push<R: Reliability>(
    a: Seq<Scheduled<R, DataTransfer>>,
    b: Seq<Scheduled<R, DataTransfer>>,
    c: Seq<Scheduled<R, DataTransfer>>,
    packet_id: PacketId,
    time: Duration,
    plan: Seq<PlannedEntry>,
    e: PlannedEntry,
)
    requires
        data_transfers_follow(a, b, packet_id, time, plan),
        data_transfers_follow(b, c, packet_id, time, seq![e]),
    ensures
        data_transfers_follow(a, c, packet_id, time, plan.push(e)),
{
    assert(c.subrange(0, b.len() as int) == b);
    assert(c.subrange(0, a.len() as int) =~= b.subrange(0, a.len() as int));
    let p = plan.push(e);
    assert forall|j: int| 0 <= j < p.len() implies schedules_data_transfer(
        #[trigger] c[a.len() + j],
        packet_id,
        p[j].connection_id,
        p[j].payload,
        time,
        p[j].address,
    ) by {
        if j < plan.len() {
            assert(c[a.len() + j] == c.subrange(0, b.len() as int)[a.len() + j]);
            assert(b[a.len() + j] == c[a.len() + j]);
        } else {
            assert(seq![e][0] == e);
            assert(c[b.len() + 0int] == c[a.len() + j]);
        }
    }
}

proof fn lemma_heartbeats_follow_push<R: Reliability>(
    a: Seq<Scheduled<R, Heartbeat>>,
    b: Seq<Scheduled<R, Heartbeat>>,
    c: Seq<Scheduled<R, Heartbeat>>,
    packet_id: PacketId,
    time: Duration,
    targets: Seq<(ConnectionId, SocketAddr)>,
    e: (ConnectionId, SocketAddr),
)
    requires
        heartbeats_follow(a, b, packet_id, time, targets),
        heartbeats_follow(b, c, packet_id, time, seq![e]),
    ensures
        heartbeats_follow(a, c, packet_id, time, targets.push(e)),
{
    assert(c.subrange(0, b.len() as int) == b);
    assert(c.subrange(0, a.len() as int) =~= b.subrange(0, a.len() as int));
    let p = targets.push(e);
    assert forall|j: int| 0 <= j < p.len() implies schedules_heartbeat(
        #[trigger] c[a.len() + j],
        packet_id,
        p[j].0,
        time,
        p[j].1,
    ) by {
        if j < targets.len() {
            assert(c[a.len() + j] == c.subrange(0, b.len() as int)[a.len() + j]);
            assert(b[a.len() + j] == c[a.len() + j]);
        } else {
            assert(seq![e][0] == e);
            assert(c[b.len() + 0int] == c[a.len() + j]);
        }
    }
}

impl<S: ServiceScheduler> Scheduler<S> {
    /// Whether `new` is `self` with the entries of `plan` scheduled, under `packet_id` at `time`:
    /// as fragments when `fragmented`, otherwise as data transfers, in the list of their
    /// reliability; nothing else changes.
    pub open spec fn schedules_plan(
        self,
        new: Self,
        reliability: ReliabilityType,
        packet_id: PacketId,
        time: Duration,
        plan: Seq<PlannedEntry>,
        fragmented: bool,
    ) -> bool {
        &&& new.service == self.service
        &&& new.list_scheduled_reliable_heartbeat@ == self.list_scheduled_reliable_heartbeat@
        &&& new.list_scheduled_unreliable_heartbeat@ == self.list_scheduled_unreliable_heartbeat@
        &&& if fragmented {
            &&& new.list_scheduled_reliable_data_transfer@
                == self.list_scheduled_reliable_data_transfer@
            &&& new.list_scheduled_unreliable_data_transfer@
                == self.list_scheduled_unreliable_data_transfer@
            &&& match reliability {
                ReliabilityType::Reliable => {
                    &&& fragments_follow(
                        self.list_scheduled_reliable_fragment@,
                        new.list_scheduled_reliable_fragment@,
                        packet_id,
                        time,
                        plan,
                    )
                    &&& new.list_scheduled_unreliable_fragment@
                        == self.list_scheduled_unreliable_fragment@
                },
                ReliabilityType::Unreliable => {
                    &&& fragments_follow(
                        self.list_scheduled_unreliable_fragment@,
                        new.list_scheduled_unreliable_fragment@,
                        packet_id,
                        time,
                        plan,
                    )
                    &&& new.list_scheduled_reliable_fragment@
                        == self.list_scheduled_reliable_fragment@
                },
            }
        } else {
            &&& new.list_scheduled_reliable_fragment@ == self.list_scheduled_reliable_fragment@
            &&& new.list_scheduled_unreliable_fragment@
                == self.list_scheduled_unreliable_fragment@
            &&& match reliability {
                ReliabilityType::Reliable => {
                    &&& data_transfers_follow(
                        self.list_scheduled_reliable_data_transfer@,
                        new.list_scheduled_reliable_data_transfer@,
                        packet_id,
                        time,
                        plan,
                    )
                    &&& new.list_scheduled_unreliable_data_transfer@
                        == self.list_scheduled_unreliable_data_transfer@
                },
                ReliabilityType::Unreliable => {
                    &&& data_transfers_follow(
                        self.list_scheduled_unreliable_data_transfer@,
                        new.list_scheduled_unreliable_data_transfer@,
                        packet_id,
                        time,
                        plan,
                    )
                    &&& new.list_scheduled_reliable_data_transfer@
                        == self.list_scheduled_reliable_data_transfer@
                },
            }
        }
    }

    /// Whether `new` is `self` with heartbeats for `targets` scheduled, under `packet_id` at
    /// `time`, in the list of their reliability; nothing else changes.
    pub open spec fn schedules_heartbeats(
        self,
        new: Self,
        reliability: ReliabilityType,
        packet_id: PacketId,
        time: Duration,
        targets: Seq<(ConnectionId, SocketAddr)>,
    ) -> bool {
        &&& new.service == self.service
        &&& new.list_scheduled_reliable_data_transfer@
            == self.list_scheduled_reliable_data_transfer@
        &&& new.list_scheduled_unreliable_data_transfer@
            == self.list_scheduled_unreliable_data_transfer@
        &&& new.list_scheduled_reliable_fragment@ == self.list_scheduled_reliable_fragment@
        &&& new.list_scheduled_unreliable_fragment@ == self.list_scheduled_unreliable_fragment@
        &&& match reliability {
            ReliabilityType::Reliable => {
                &&& heartbeats_follow(
                    self.list_scheduled_reliable_heartbeat@,
                    new.list_scheduled_reliable_heartbeat@,
                    packet_id,
                    time,
                    targets,
                )
                &&& new.list_scheduled_unreliable_heartbeat@
                    == self.list_scheduled_unreliable_heartbeat@
            },
            ReliabilityType::Unreliable => {
                &&& heartbeats_follow(
                    self.list_scheduled_unreliable_heartbeat@,
                    new.list_scheduled_unreliable_heartbeat@,
                    packet_id,
                    time,
                    targets,
                )
                &&& new.list_scheduled_reliable_heartbeat@
                    == self.list_scheduled_reliable_heartbeat@
            },
        }
    }

    /// Whether `new` holds the same scheduled data transfers as `self`.
    pub open spec fn keeps_data_transfers(self, new: Self) -> bool {
        &&& new.list_scheduled_reliable_data_transfer@ == self.list_scheduled_reliable_data_transfer@
        &&& new.list_scheduled_unreliable_data_transfer@ == self.list_scheduled_unreliable_data_transfer@
    }

    /// Whether `new` holds the same scheduled fragments as `self`.
    pub open spec fn keeps_fragments(self, new: Self) -> bool {
        &&& new.list_scheduled_reliable_fragment@ == self.list_scheduled_reliable_fragment@
        &&& new.list_scheduled_unreliable_fragment@ == self.list_scheduled_unreliable_fragment@
    }

    /// Whether `new` holds the same scheduled heartbeats as `self`.
    pub open spec fn keeps_heartbeats(self, new: Self) -> bool {
        &&& new.list_scheduled_reliable_heartbeat@ == self.list_scheduled_reliable_heartbeat@
        &&& new.list_scheduled_unreliable_heartbeat@ == self.list_scheduled_unreliable_heartbeat@
    }

    /// An empty scheduler with room for `capacity` packets in each list.
    pub fn new(capacity: usize) -> (r: Self)
        ensures
            r.list_scheduled_reliable_data_transfer@.len() == 0,
            r.list_scheduled_unreliable_data_transfer@.len() == 0,
            r.list_scheduled_reliable_fragment@.len() == 0,
            r.list_scheduled_unreliable_fragment@.len() == 0,
            r.list_scheduled_reliable_heartbeat@.len() == 0,
            r.list_scheduled_unreliable_heartbeat@.len() == 0,
            r.service.spec_is_empty(),
    {
        Scheduler {
            list_scheduled_reliable_data_transfer: Vec::with_capacity(capacity),
            list_scheduled_unreliable_data_transfer: Vec::with_capacity(capacity),
            list_scheduled_reliable_fragment: Vec::with_capacity(capacity),
            list_scheduled_unreliable_fragment: Vec::with_capacity(capacity),
            list_scheduled_reliable_heartbeat: Vec::with_capacity(capacity),
            list_scheduled_unreliable_heartbeat: Vec::with_capacity(capacity),
            service: S::new(capacity),
        }
    }

    /// Adds `scheduled` at the end of its list.
    pub fn reliable_fragment(&mut self, scheduled: Scheduled<Reliable, Fragment>)
        ensures
            final(self).list_scheduled_reliable_fragment@ == old(self).list_scheduled_reliable_fragment@.push(scheduled),
            final(self).list_scheduled_unreliable_fragment@ == old(self).list_scheduled_unreliable_fragment@,
            final(self).list_scheduled_reliable_data_transfer@ == old(self).list_scheduled_reliable_data_transfer@,
            final(self).list_scheduled_unreliable_data_transfer@ == old(self).list_scheduled_unreliable_data_transfer@,
            final(self).list_scheduled_reliable_heartbeat@ == old(self).list_scheduled_reliable_heartbeat@,
            final(self).list_scheduled_unreliable_heartbeat@ == old(self).list_scheduled_unreliable_heartbeat@,
            final(self).service == old(self).service,
    {
        self.list_scheduled_reliable_fragment.push(scheduled);
    }

    /// Adds `scheduled` at the end of its list.
    pub fn unreliable_fragment(&mut self, scheduled: Scheduled<Unreliable, Fragment>)
        ensures
            final(self).list_scheduled_unreliable_fragment@ == old(self).list_scheduled_unreliable_fragment@.push(scheduled),
            final(self).list_scheduled_reliable_fragment@ == old(self).list_scheduled_reliable_fragment@,
            final(self).list_scheduled_reliable_data_transfer@ == old(self).list_scheduled_reliable_data_transfer@,
            final(self).list_scheduled_unreliable_data_transfer@ == old(self).list_scheduled_unreliable_data_transfer@,
            final(self).list_scheduled_reliable_heartbeat@ == old(self).list_scheduled_reliable_heartbeat@,
            final(self).list_scheduled_unreliable_heartbeat@ == old(self).list_scheduled_unreliable_heartbeat@,
            final(self).service == old(self).service,
    {
        self.list_scheduled_unreliable_fragment.push(scheduled);
    }

    /// Adds `scheduled` at the end of its list.
    pub fn reliable_data_transfer(&mut self, scheduled: Scheduled<Reliable, DataTransfer>)
        ensures
            final(self).list_scheduled_reliable_data_transfer@ == old(self).list_scheduled_reliable_data_transfer@.push(scheduled),
            final(self).list_scheduled_reliable_fragment@ == old(self).list_scheduled_reliable_fragment@,
            final(self).list_scheduled_unreliable_fragment@ == old(self).list_scheduled_unreliable_fragment@,
            final(self).list_scheduled_unreliable_data_transfer@ == old(self).list_scheduled_unreliable_data_transfer@,
            final(self).list_scheduled_reliable_heartbeat@ == old(self).list_scheduled_reliable_heartbeat@,
            final(self).list_scheduled_unreliable_heartbeat@ == old(self).list_scheduled_unreliable_heartbeat@,
            final(self).service == old(self).service,
    {
        self.list_scheduled_reliable_data_transfer.push(scheduled);
    }

    /// Adds `scheduled` at the end of its list.
    pub fn unreliable_data_transfer(&mut self, scheduled: Scheduled<Unreliable, DataTransfer>)
        ensures
            final(self).list_scheduled_unreliable_data_transfer@ == old(self).list_scheduled_unreliable_data_transfer@.push(scheduled),
            final(self).list_scheduled_reliable_fragment@ == old(self).list_scheduled_reliable_fragment@,
            final(self).list_scheduled_unreliable_fragment@ == old(self).list_scheduled_unreliable_fragment@,
            final(self).list_scheduled_reliable_data_transfer@ == old(self).list_scheduled_reliable_data_transfer@,
            final(self).list_scheduled_reliable_heartbeat@ == old(self).list_scheduled_reliable_heartbeat@,
            final(self).list_scheduled_unreliable_heartbeat@ == old(self).list_scheduled_unreliable_heartbeat@,
            final(self).service == old(self).service,
    {
        self.list_scheduled_unreliable_data_transfer.push(scheduled);
    }

    /// Adds `scheduled` at the end of its list.
    pub fn reliable_heartbeat(&mut self, scheduled: Scheduled<Reliable, Heartbeat>)
        ensures
            final(self).list_scheduled_reliable_heartbeat@ == old(self).list_scheduled_reliable_heartbeat@.push(scheduled),
            final(self).list_scheduled_reliable_fragment@ == old(self).list_scheduled_reliable_fragment@,
            final(self).list_scheduled_unreliable_fragment@ == old(self).list_scheduled_unreliable_fragment@,
            final(self).list_scheduled_reliable_data_transfer@ == old(self).list_scheduled_reliable_data_transfer@,
            final(self).list_scheduled_unreliable_data_transfer@ == old(self).list_scheduled_unreliable_data_transfer@,
            final(self).list_scheduled_unreliable_heartbeat@ == old(self).list_scheduled_unreliable_heartbeat@,
            final(self).service == old(self).service,
    {
        self.list_scheduled_reliable_heartbeat.push(scheduled);
    }

    /// Adds `scheduled` at the end of its list.
    pub fn unreliable_heartbeat(&mut self, scheduled: Scheduled<Unreliable, Heartbeat>)
        ensures
            final(self).list_scheduled_unreliable_heartbeat@ == old(self).list_scheduled_unreliable_heartbeat@.push(scheduled),
            final(self).list_scheduled_reliable_fragment@ == old(self).list_scheduled_reliable_fragment@,
            final(self).list_scheduled_unreliable_fragment@ == old(self).list_scheduled_unreliable_fragment@,
            final(self).list_scheduled_reliable_data_transfer@ == old(self).list_scheduled_reliable_data_transfer@,
            final(self).list_scheduled_unreliable_data_transfer@ == old(self).list_scheduled_unreliable_data_transfer@,
            final(self).list_scheduled_reliable_heartbeat@ == old(self).list_scheduled_reliable_heartbeat@,
            final(self).service == old(self).service,
    {
        self.list_scheduled_unreliable_heartbeat.push(scheduled);
    }

    proof fn lemma_plan_empty(self, reliability: ReliabilityType, packet_id: PacketId, time: Duration, fragmented: bool)
        ensures
            self.schedules_plan(self, reliability, packet_id, time, Seq::empty(), fragmented),
    {
        assert(self.list_scheduled_reliable_fragment@.subrange(0, self.list_scheduled_reliable_fragment@.len() as int) =~= self.list_scheduled_reliable_fragment@);
        assert(self.list_scheduled_unreliable_fragment@.subrange(0, self.list_scheduled_unreliable_fragment@.len() as int) =~= self.list_scheduled_unreliable_fragment@);
        assert(self.list_scheduled_reliable_data_transfer@.subrange(0, self.list_scheduled_reliable_data_transfer@.len() as int) =~= self.list_scheduled_reliable_data_transfer@);
        assert(self.list_scheduled_unreliable_data_transfer@.subrange(0, self.list_scheduled_unreliable_data_transfer@.len() as int) =~= self.list_scheduled_unreliable_data_transfer@);
    }

    proof fn lemma_plan_push(
        self,
        mid: Self,
        new: Self,
        reliability: ReliabilityType,
        packet_id: PacketId,
        time: Duration,
        plan: Seq<PlannedEntry>,
        e: PlannedEntry,
        fragmented: bool,
    )
        requires
            self.schedules_plan(mid, reliability, packet_id, time, plan, fragmented),
            mid.schedules_plan(new, reliability, packet_id, time, seq![e], fragmented),
        ensures
            self.schedules_plan(new, reliability, packet_id, time, plan.push(e), fragmented),
    {
        if fragmented {
            match reliability {
                ReliabilityType::Reliable => lemma_fragments_follow_push(
                    self.list_scheduled_reliable_fragment@,
                    mid.list_scheduled_reliable_fragment@,
                    new.list_scheduled_reliable_fragment@,
                    packet_id,
                    time,
                    plan,
                    e,
                ),
                ReliabilityType::Unreliable => lemma_fragments_follow_push(
                    self.list_scheduled_unreliable_fragment@,
                    mid.list_scheduled_unreliable_fragment@,
                    new.list_scheduled_unreliable_fragment@,
                    packet_id,
                    time,
                    plan,
                    e,
                ),
            }
        } else {
            match reliability {
                ReliabilityType::Reliable => lemma_data_transfers_follow_push(
                    self.list_scheduled_reliable_data_transfer@,
                    mid.list_scheduled_reliable_data_transfer@,
                    new.list_scheduled_reliable_data_transfer@,
                    packet_id,
                    time,
                    plan,
                    e,
                ),
                ReliabilityType::Unreliable => lemma_data_transfers_follow_push(
                    self.list_scheduled_unreliable_data_transfer@,
                    mid.list_scheduled_unreliable_data_transfer@,
                    new.list_scheduled_unreliable_data_transfer@,
                    packet_id,
                    time,
                    plan,
                    e,
                ),
            }
        }
    }

    proof fn lemma_heartbeats_empty(self, reliability: ReliabilityType, packet_id: PacketId, time: Duration)
        ensures
            self.schedules_heartbeats(self, reliability, packet_id, time, Seq::empty()),
    {
        assert(self.list_scheduled_reliable_heartbeat@.subrange(0, self.list_scheduled_reliable_heartbeat@.len() as int) =~= self.list_scheduled_reliable_heartbeat@);
        assert(self.list_scheduled_unreliable_heartbeat@.subrange(0, self.list_scheduled_unreliable_heartbeat@.len() as int) =~= self.list_scheduled_unreliable_heartbeat@);
    }

    proof fn lemma_heartbeats_push(
        self,
        mid: Self,
        new: Self,
        reliability: ReliabilityType,
        packet_id: PacketId,
        time: Duration,
        targets: Seq<(ConnectionId, SocketAddr)>,
        e: (ConnectionId, SocketAddr),
    )
        requires
            self.schedules_heartbeats(mid, reliability, packet_id, time, targets),
            mid.schedules_heartbeats(new, reliability, packet_id, time, seq![e]),
        ensures
            self.schedules_heartbeats(new, reliability, packet_id, time, targets.push(e)),
    {
        match reliability {
            ReliabilityType::Reliable => lemma_heartbeats_follow_push(
                self.list_scheduled_reliable_heartbeat@,
                mid.list_scheduled_reliable_heartbeat@,
                new.list_scheduled_reliable_heartbeat@,
                packet_id,
                time,
                targets,
                e,
            ),
            ReliabilityType::Unreliable => lemma_heartbeats_follow_push(
                self.list_scheduled_unreliable_heartbeat@,
                mid.list_scheduled_unreliable_heartbeat@,
                new.list_scheduled_unreliable_heartbeat@,
                packet_id,
                time,
                targets,
                e,
            ),
        }
    }

    /// Schedules every chunk of a payload for every target, under `packet_id` at `time`: chunk
    /// by chunk, and for each chunk target by target; as fragments when there is more than one
    /// chunk, otherwise as data transfers.
    pub fn schedule_chunks(
        &mut self,
        reliability: ReliabilityType,
        chunks: &Vec<Vec<u8>>,
        targets: &Vec<(ConnectionId, SocketAddr)>,
        packet_id: PacketId,
        time: Duration,
    )
        ensures
            old(self).schedules_plan(
                *final(self),
                reliability,
                packet_id,
                time,
                payload_plan(chunks@.map_values(|c: Vec<u8>| c@), targets@),
                chunks@.len() > 1,
            ),
    {
        let ghost start = *self;
        let ghost views = chunks@.map_values(|c: Vec<u8>| c@);
        let total = chunks.len();
        proof {
            start.lemma_plan_empty(reliability, packet_id, time, total > 1);
        }
        let mut i: usize = 0;
        while i < total
            invariant
                total == chunks@.len(),
                views == chunks@.map_values(|c: Vec<u8>| c@),
                i <= total,
                start.schedules_plan(
                    *self,
                    reliability,
                    packet_id,
                    time,
                    plan_rows(views, targets@, i as nat),
                    total > 1,
                ),
            decreases total - i,
        {
            let ghost row = plan_row(views[i as int], i as int, total as int, targets@);
            let mut j: usize = 0;
            proof {
                assert(plan_rows(views, targets@, i as nat) + row.take(0) =~= plan_rows(views, targets@, i as nat));
            }
            while j < targets.len()
                invariant
                    total == chunks@.len(),
                    views == chunks@.map_values(|c: Vec<u8>| c@),
                    i < total,
                    j <= targets@.len(),
                    row == plan_row(views[i as int], i as int, total as int, targets@),
                    start.schedules_plan(
                        *self,
                        reliability,
                        packet_id,
                        time,
                        plan_rows(views, targets@, i as nat) + row.take(j as int),
                        total > 1,
                    ),
                decreases targets@.len() - j,
            {
                let (connection_id, address) = targets[j];
                let payload = crate::payload::copy_range(chunks[i].as_slice(), 0, chunks[i].len());
                let ghost before = *self;
                self.schedule_for_connected_peer(
                    address,
                    payload,
                    reliability,
                    connection_id,
                    packet_id,
                    time,
                    i,
                    total,
                );
                proof {
                    let prefix = plan_rows(views, targets@, i as nat) + row.take(j as int);
                    let e = PlannedEntry {
                        connection_id,
                        address,
                        payload: payload@,
                        index: i as int,
                        total: total as int,
                    };
                    assert(payload@ =~= views[i as int]);
                    assert(e == row[j as int]);
                    start.lemma_plan_push(before, *self, reliability, packet_id, time, prefix, e, total > 1);
                    assert(prefix.push(e) =~= plan_rows(views, targets@, i as nat) + row.take(j + 1));
                }
                j = j + 1;
            }
            proof {
                assert(row.take(targets@.len() as int) =~= row);
                assert(plan_rows(views, targets@, (i + 1) as nat) == plan_rows(views, targets@, i as nat) + row);
            }
            i = i + 1;
        }
    }

    /// Schedules a heartbeat for every target, in their order, under `packet_id` at `time`.
    pub fn schedule_heartbeats(
        &mut self,
        reliability: ReliabilityType,
        targets: &Vec<(ConnectionId, SocketAddr)>,
        packet_id: PacketId,
        time: Duration,
    )
        ensures
            old(self).schedules_heartbeats(*final(self), reliability, packet_id, time, targets@),
    {
        let ghost start = *self;
        proof {
            start.lemma_heartbeats_empty(reliability, packet_id, time);
        }
        let mut j: usize = 0;
        while j < targets.len()
            invariant
                j <= targets@.len(),
                start.schedules_heartbeats(*self, reliability, packet_id, time, targets@.take(j as int)),
            decreases targets@.len() - j,
        {
            let (connection_id, address) = targets[j];
            let ghost before = *self;
            self.heartbeat_for_connected_peer(address, reliability, connection_id, packet_id, time);
            proof {
                start.lemma_heartbeats_push(
                    before,
                    *self,
                    reliability,
                    packet_id,
                    time,
                    targets@.take(j as int),
                    (connection_id, address),
                );
                assert(targets@.take(j as int).push((connection_id, address)) =~= targets@.take(j + 1));
            }
            j = j + 1;
        }
        proof {
            assert(targets@.take(targets@.len() as int) =~= targets@);
        }
    }

    /// Schedules one part of a payload for a connected peer: as a fragment when the payload
    /// has more than one part, otherwise as a data transfer.
    pub fn schedule_for_connected_peer(
        &mut self,
        address: SocketAddr,
        payload: Payload,
        reliability: ReliabilityType,
        connection_id: ConnectionId,
        packet_id: PacketId,
        time: Duration,
        fragment_index: usize,
        fragment_total: usize,
    )
        ensures
            old(self).schedules_plan(
                *final(self),
                reliability,
                packet_id,
                time,
                seq![
                    PlannedEntry {
                        connection_id,
                        address,
                        payload: payload@,
                        index: fragment_index as int,
                        total: fragment_total as int,
                    },
                ],
                fragment_total > 1,
            ),
    {
        let ghost entry = PlannedEntry {
            connection_id,
            address,
            payload: payload@,
            index: fragment_index as int,
            total: fragment_total as int,
        };
        if fragment_total > 1 {
            self.schedule_fragment(
                reliability,
                packet_id,
                connection_id,
                payload,
                fragment_index,
                fragment_total,
                time,
                address,
            );
            proof {
                let old_rf = old(self).list_scheduled_reliable_fragment@;
                let old_uf = old(self).list_scheduled_unreliable_fragment@;
                assert(self.list_scheduled_reliable_fragment@.subrange(0, old_rf.len() as int)
                    =~= old_rf || self.list_scheduled_reliable_fragment@ == old_rf);
                assert(self.list_scheduled_unreliable_fragment@.subrange(0, old_uf.len() as int)
                    =~= old_uf || self.list_scheduled_unreliable_fragment@ == old_uf);
                assert(seq![entry][0] == entry);
            }
        } else {
            self.schedule_data_transfer(reliability, packet_id, connection_id, payload, time, address);
            proof {
                let old_rd = old(self).list_scheduled_reliable_data_transfer@;
                let old_ud = old(self).list_scheduled_unreliable_data_transfer@;
                assert(self.list_scheduled_reliable_data_transfer@.subrange(0, old_rd.len() as int)
                    =~= old_rd || self.list_scheduled_reliable_data_transfer@ == old_rd);
                assert(self.list_scheduled_unreliable_data_transfer@.subrange(
                    0,
                    old_ud.len() as int,
                ) =~= old_ud || self.list_scheduled_unreliable_data_transfer@ == old_ud);
                assert(seq![entry][0] == entry);
            }
        }
    }

    /// Schedules a heartbeat for a connected peer.
    pub fn heartbeat_for_connected_peer(
        &mut self,
        address: SocketAddr,
        reliability: ReliabilityType,
        connection_id: ConnectionId,
        packet_id: PacketId,
        time: Duration,
    )
        ensures
            old(self).schedules_heartbeats(
                *final(self),
                reliability,
                packet_id,
                time,
                seq![(connection_id, address)],
            ),
    {
        self.schedule_heartbeat(reliability, packet_id, connection_id, time, address);
        proof {
            let old_rh = old(self).list_scheduled_reliable_heartbeat@;
            let old_uh = old(self).list_scheduled_unreliable_heartbeat@;
            assert(self.list_scheduled_reliable_heartbeat@.subrange(0, old_rh.len() as int) =~= old_rh
                || self.list_scheduled_reliable_heartbeat@ == old_rh);
            assert(self.list_scheduled_unreliable_heartbeat@.subrange(0, old_uh.len() as int)
                =~= old_uh || self.list_scheduled_unreliable_heartbeat@ == old_uh);
        }
    }

    fn schedule_fragment(
        &mut self,
        reliability: ReliabilityType,
        packet_id: PacketId,
        connection_id: ConnectionId,
        payload: Payload,
        fragment_index: usize,
        fragment_total: usize,
        time: Duration,
        address: SocketAddr,
    )
        ensures
            final(self).service == old(self).service,
            final(self).list_scheduled_reliable_data_transfer@ == old(self).list_scheduled_reliable_data_transfer@,
            final(self).list_scheduled_unreliable_data_transfer@ == old(self).list_scheduled_unreliable_data_transfer@,
            final(self).list_scheduled_reliable_heartbeat@ == old(self).list_scheduled_reliable_heartbeat@,
            final(self).list_scheduled_unreliable_heartbeat@ == old(self).list_scheduled_unreliable_heartbeat@,
            reliability == ReliabilityType::Reliable ==> {
                &&& final(self).list_scheduled_reliable_fragment@.len() == old(self).list_scheduled_reliable_fragment@.len() + 1
                &&& final(self).list_scheduled_reliable_fragment@.drop_last() == old(self).list_scheduled_reliable_fragment@
                &&& schedules_fragment(final(self).list_scheduled_reliable_fragment@.last(), packet_id, connection_id, payload@, fragment_index as int, fragment_total as int, time, address)
                &&& final(self).list_scheduled_unreliable_fragment@ == old(self).list_scheduled_unreliable_fragment@
            },
            reliability == ReliabilityType::Unreliable ==> {
                &&& final(self).list_scheduled_unreliable_fragment@.len() == old(self).list_scheduled_unreliable_fragment@.len() + 1
                &&& final(self).list_scheduled_unreliable_fragment@.drop_last() == old(self).list_scheduled_unreliable_fragment@
                &&& schedules_fragment(final(self).list_scheduled_unreliable_fragment@.last(), packet_id, connection_id, payload@, fragment_index as int, fragment_total as int, time, address)
                &&& final(self).list_scheduled_reliable_fragment@ == old(self).list_scheduled_reliable_fragment@
            },
    {
        match reliability {
            ReliabilityType::Reliable => {
                let scheduled: Scheduled<Reliable, Fragment> = Scheduled::new_reliable_fragment(
                    packet_id,
                    connection_id,
                    payload,
                    fragment_index,
                    fragment_total,
                    time,
                    address,
                );
                self.reliable_fragment(scheduled);
                proof {
                    assert(self.list_scheduled_reliable_fragment@.drop_last() =~= old(self).list_scheduled_reliable_fragment@);
                }
            },
            ReliabilityType::Unreliable => {
                let scheduled: Scheduled<Unreliable, Fragment> = Scheduled::new_unreliable_fragment(
                    packet_id,
                    connection_id,
                    payload,
                    fragment_index,
                    fragment_total,
                    time,
                    address,
                );
                self.unreliable_fragment(scheduled);
                proof {
                    assert(self.list_scheduled_unreliable_fragment@.drop_last() =~= old(self).list_scheduled_unreliable_fragment@);
                }
            },
        }
    }

    fn schedule_data_transfer(
        &mut self,
        reliability: ReliabilityType,
        packet_id: PacketId,
        connection_id: ConnectionId,
        payload: Payload,
        time: Duration,
        address: SocketAddr,
    )
        ensures
            final(self).service == old(self).service,
            final(self).list_scheduled_reliable_fragment@ == old(self).list_scheduled_reliable_fragment@,
            final(self).list_scheduled_unreliable_fragment@ == old(self).list_scheduled_unreliable_fragment@,
            final(self).list_scheduled_reliable_heartbeat@ == old(self).list_scheduled_reliable_heartbeat@,
            final(self).list_scheduled_unreliable_heartbeat@ == old(self).list_scheduled_unreliable_heartbeat@,
            reliability == ReliabilityType::Reliable ==> {
                &&& final(self).list_scheduled_reliable_data_transfer@.len() == old(self).list_scheduled_reliable_data_transfer@.len() + 1
                &&& final(self).list_scheduled_reliable_data_transfer@.drop_last() == old(self).list_scheduled_reliable_data_transfer@
                &&& schedules_data_transfer(final(self).list_scheduled_reliable_data_transfer@.last(), packet_id, connection_id, payload@, time, address)
                &&& final(self).list_scheduled_unreliable_data_transfer@ == old(self).list_scheduled_unreliable_data_transfer@
            },
            reliability == ReliabilityType::Unreliable ==> {
                &&& final(self).list_scheduled_unreliable_data_transfer@.len() == old(self).list_scheduled_unreliable_data_transfer@.len() + 1
                &&& final(self).list_scheduled_unreliable_data_transfer@.drop_last() == old(self).list_scheduled_unreliable_data_transfer@
                &&& schedules_data_transfer(final(self).list_scheduled_unreliable_data_transfer@.last(), packet_id, connection_id, payload@, time, address)
                &&& final(self).list_scheduled_reliable_data_transfer@ == old(self).list_scheduled_reliable_data_transfer@
            },
    {
        match reliability {
            ReliabilityType::Reliable => {
                let scheduled: Scheduled<Reliable, DataTransfer> =
                    Scheduled::new_reliable_data_transfer(
                    packet_id,
                    connection_id,
                    payload,
                    time,
                    address,
                );
                self.reliable_data_transfer(scheduled);
                proof {
                    assert(self.list_scheduled_reliable_data_transfer@.drop_last() =~= old(self).list_scheduled_reliable_data_transfer@);
                }
            },
            ReliabilityType::Unreliable => {
                let scheduled: Scheduled<Unreliable, DataTransfer> =
                    Scheduled::new_unreliable_data_transfer(
                    packet_id,
                    connection_id,
                    payload,
                    time,
                    address,
                );
                self.unreliable_data_transfer(scheduled);
                proof {
                    assert(self.list_scheduled_unreliable_data_transfer@.drop_last() =~= old(self).list_scheduled_unreliable_data_transfer@);
                }
            },
        }
    }

    fn schedule_heartbeat(
        &mut self,
        reliability: ReliabilityType,
        packet_id: PacketId,
        connection_id: ConnectionId,
        time: Duration,
        address: SocketAddr,
    )
        ensures
            final(self).service == old(self).service,
            final(self).list_scheduled_reliable_fragment@ == old(self).list_scheduled_reliable_fragment@,
            final(self).list_scheduled_unreliable_fragment@ == old(self).list_scheduled_unreliable_fragment@,
            final(self).list_scheduled_reliable_data_transfer@ == old(self).list_scheduled_reliable_data_transfer@,
            final(self).list_scheduled_unreliable_data_transfer@ == old(self).list_scheduled_unreliable_data_transfer@,
            reliability == ReliabilityType::Reliable ==> {
                &&& final(self).list_scheduled_reliable_heartbeat@.len() == old(self).list_scheduled_reliable_heartbeat@.len() + 1
                &&& final(self).list_scheduled_reliable_heartbeat@.drop_last() == old(self).list_scheduled_reliable_heartbeat@
                &&& schedules_heartbeat(final(self).list_scheduled_reliable_heartbeat@.last(), packet_id, connection_id, time, address)
                &&& final(self).list_scheduled_unreliable_heartbeat@ == old(self).list_scheduled_unreliable_heartbeat@
            },
            reliability == ReliabilityType::Unreliable ==> {
                &&& final(self).list_scheduled_unreliable_heartbeat@.len() == old(self).list_scheduled_unreliable_heartbeat@.len() + 1
                &&& final(self).list_scheduled_unreliable_heartbeat@.drop_last() == old(self).list_scheduled_unreliable_heartbeat@
                &&& schedules_heartbeat(final(self).list_scheduled_unreliable_heartbeat@.last(), packet_id, connection_id, time, address)
                &&& final(self).list_scheduled_reliable_heartbeat@ == old(self).list_scheduled_reliable_heartbeat@
            },
    {
        match reliability {
            ReliabilityType::Reliable => {
                let scheduled: Scheduled<Reliable, Heartbeat> = Scheduled::new_reliable_heartbeat(
                    packet_id,
                    connection_id,
                    time,
                    address,
                );
                self.reliable_heartbeat(scheduled);
                proof {
                    assert(self.list_scheduled_reliable_heartbeat@.drop_last() =~= old(self).list_scheduled_reliable_heartbeat@);
                }
            },
            ReliabilityType::Unreliable => {
                let scheduled: Scheduled<Unreliable, Heartbeat> =
                    Scheduled::new_unreliable_heartbeat(packet_id, connection_id, time, address);
                self.unreliable_heartbeat(scheduled);
                proof {
                    assert(self.list_scheduled_unreliable_heartbeat@.drop_last() =~= old(self).list_scheduled_unreliable_heartbeat@);
                }
            },
        }
    }
}

} // verus!
