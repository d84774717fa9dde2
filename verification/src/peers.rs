//! Remote peers and the states of their connections.
use vstd::prelude::*;

use crate::duration::{Duration, NANOS_PER_SECOND};
use crate::packets::{Ack, ConnectionId, Fragment, Packet, PacketId, Received, Sequence};
use crate::socket_addr::SocketAddr;
use crate::table::{has_key, index_of, keys_unique, removed, upserted, value_of, Table, TableKey};

verus! {

/// How long to wait before resending a packet: half a second.
pub const RESEND_TIMEOUT_THRESHOLD: Duration = 500_000_000;

/// How long a connection may stay silent: two seconds.
pub const CONNECTION_TIMEOUT_THRESHOLD: Duration = 2_000_000_000;

/// How long received fragments wait for the rest of their group: one second.
pub const REASSEMBLY_TTL: Duration = 1_000_000_000;

/// A remote peer: the sequence number of the next packet sent to it, the acks exchanged with it,
/// its address and the state of its connection.
#[derive(Debug)]
pub struct Peer<Connection> {
    pub sequence_tracker: Sequence,
    pub remote_ack_tracker: Ack,
    pub local_ack_tracker: Ack,
    pub address: SocketAddr,
    pub connection: Connection,
}

/// To whom the user sends a payload: one connected peer, or every connected peer.
#[derive(Debug)]
pub enum SendTo {
    Single { connection_id: ConnectionId },
    Broadcast,
}

/// What every connection state records: when the state was entered, and the latest packet sent.
#[derive(Debug, Default, Clone, Copy, PartialEq, PartialOrd)]
pub struct MetaConnection {
    pub time_entered_state: Duration,
    pub latest_sent_packet_id: PacketId,
    pub latest_sent_packet_time: Duration,
}

/// A peer with no connection.
#[derive(Debug, Default, Clone, Copy, PartialEq, PartialOrd)]
pub struct Disconnected {
    pub meta: MetaConnection,
}

/// A peer whose connection request is under way.
#[derive(Debug, Clone, Copy, PartialEq, PartialOrd)]
pub struct RequestingConnection {
    pub meta: MetaConnection,
    pub attempts: u32,
}

/// A peer that waits for its connection to be acknowledged.
#[derive(Debug, Clone, Copy, PartialEq, PartialOrd)]
pub struct AwaitingConnectionAck {
    pub meta: MetaConnection,
    pub attempts: u32,
}

/// A connected peer, with the fragments received from it grouped by their group's sequence
/// number until the group is complete.
#[derive(Debug)]
pub struct Connected {
    pub meta: MetaConnection,
    pub connection_id: ConnectionId,
    pub rtt: Duration,
    pub reassembler: Reassembler,
}

/// Whether every group of fragments in `groups` holds at least one fragment, and every fragment
/// of a group carries the group's sequence number.
pub open spec fn reassembler_wf(groups: Seq<(Sequence, Vec<Packet<Received, Fragment>>)>) -> bool {
    forall|i: int|
        0 <= i < groups.len() ==> {
            &&& (#[trigger] groups[i]).1@.len() > 0
            &&& forall|j: int| 0 <= j < groups[i].1@.len() ==> groups[i].1@[j].sequence == groups[i].0
        }
}

/// Fragments received from a peer, grouped by the sequence number of their group until the
/// group is complete. Every group holds at least one fragment, and every fragment of a group
/// carries the group's sequence number.
#[derive(Debug)]
pub struct Reassembler {
    groups: Table<Sequence, Vec<Packet<Received, Fragment>>>,
}

impl View for Reassembler {
    type V = Seq<(Sequence, Vec<Packet<Received, Fragment>>)>;

    closed spec fn view(&self) -> Self::V {
        self.groups@
    }
}

impl Reassembler {
    #[verifier::type_invariant]
    closed spec fn inv(self) -> bool {
        reassembler_wf(self.groups@)
    }

    /// No group, with room for `capacity` of them.
    pub fn with_capacity(capacity: usize) -> (r: Self)
        ensures
            r@.len() == 0,
    {
        Reassembler { groups: Table::with_capacity(capacity) }
    }

    /// Facts about the groups: each holds fragments of its own sequence number, and no sequence
    /// number has two groups.
    pub fn facts(&self)
        ensures
            reassembler_wf(self@),
            keys_unique(self@),
    {
        proof {
            use_type_invariant(self);
        }
        self.groups.unique();
    }

    /// The number of groups.
    pub fn len(&self) -> (r: usize)
        ensures
            r == self@.len(),
            reassembler_wf(self@),
            keys_unique(self@),
    {
        self.facts();
        self.groups.len()
    }

    /// The group at `index`.
    pub fn entry(&self, index: usize) -> (r: &(Sequence, Vec<Packet<Received, Fragment>>))
        requires
            index < self@.len(),
        ensures
            *r == self@[index as int],
            reassembler_wf(self@),
            keys_unique(self@),
    {
        self.facts();
        self.groups.entry(index)
    }

    /// Whether there is a group for `sequence`.
    pub fn contains_key(&self, sequence: &Sequence) -> (r: bool)
        ensures
            r == has_key(self@, *sequence),
            reassembler_wf(self@),
            keys_unique(self@),
    {
        self.facts();
        self.groups.contains_key(sequence)
    }

    /// Removes the group of `sequence` and returns its fragments, if there is one.
    pub fn remove(&mut self, sequence: &Sequence) -> (r: Option<Vec<Packet<Received, Fragment>>>)
        ensures
            reassembler_wf(old(self)@),
            removed(old(self)@, final(self)@, *sequence),
            has_key(old(self)@, *sequence) ==> r == Some(value_of(old(self)@, *sequence)),
            !has_key(old(self)@, *sequence) ==> r is None,
    {
        proof {
            use_type_invariant(&*self);
        }
        let mut groups: Table<Sequence, Vec<Packet<Received, Fragment>>> = Table::with_capacity(0);
        std::mem::swap(&mut groups, &mut self.groups);
        let r = groups.remove(sequence);
        proof {
            let old_groups = old(self)@;
            if has_key(old_groups, *sequence) {
                let k = index_of(old_groups, *sequence);
                assert forall|i: int| 0 <= i < groups@.len() implies {
                    &&& (#[trigger] groups@[i]).1@.len() > 0
                    &&& forall|j: int| 0 <= j < groups@[i].1@.len() ==> groups@[i].1@[j].sequence == groups@[i].0
                } by {
                    if i < k {
                        assert(groups@[i] == old_groups[i]);
                    } else {
                        assert(groups@[i] == old_groups[i + 1]);
                    }
                }
            }
        }
        self.groups = groups;
        r
    }

    /// Drops every group whose last fragment arrived the reassembly time to live or longer
    /// before `now`; the other groups stay as they are, in their order.
    pub fn drop_expired(&mut self, now: Duration)
        ensures
            final(self)@ == fresh_groups(old(self)@, now),
    {
        proof {
            use_type_invariant(&*self);
        }
        let mut groups: Table<Sequence, Vec<Packet<Received, Fragment>>> = Table::with_capacity(0);
        std::mem::swap(&mut groups, &mut self.groups);
        let ghost original = groups@;
        let mut i: usize = 0;
        let ghost mut j: int = 0;
        while i < groups.len()
            invariant
                0 <= j <= original.len(),
                reassembler_wf(original),
                reassembler_wf(groups@),
                i == fresh_groups(original.take(j), now).len(),
                groups@ == fresh_groups(original.take(j), now) + original.skip(j),
            decreases groups@.len() - i,
        {
            proof {
                lemma_fresh_step(original, j, now);
                assert(groups@[i as int] == original[j]);
            }
            let entry = groups.entry(i);
            let last: usize = entry.1.len() - 1;
            let time: Duration = entry.1[last].delivery.meta.time;
            if time > now || REASSEMBLY_TTL > now - time {
                proof {
                    assert(groups@ =~= fresh_groups(original.take(j + 1), now) + original.skip(j + 1));
                }
                i = i + 1;
            } else {
                proof {
                    lemma_wf_remove(groups@, i as int);
                }
                let _ = groups.take_at(i);
                proof {
                    assert(groups@ =~= fresh_groups(original.take(j + 1), now) + original.skip(j + 1));
                }
            }
            proof {
                j = j + 1;
            }
        }
        proof {
            assert(original.skip(j).len() == 0);
            assert(original.take(j) =~= original);
            assert(groups@ =~= fresh_groups(original, now));
        }
        self.groups = groups;
    }

    /// Adds `packet` to the group of its sequence number, starting the group when there is none;
    /// returns how many fragments the group then holds.
    pub fn add(&mut self, packet: Packet<Received, Fragment>) -> (r: usize)
        ensures
            reassembler_wf(old(self)@),
            upserted(
                old(self)@,
                final(self)@,
                packet.sequence,
                |group: Vec<Packet<Received, Fragment>>|
                    if has_key(old(self)@, packet.sequence) {
                        group@ == value_of(old(self)@, packet.sequence)@.push(packet)
                    } else {
                        group@ == seq![packet]
                    },
            ),
            has_key(old(self)@, packet.sequence) ==> r == value_of(old(self)@, packet.sequence)@.len() + 1,
            !has_key(old(self)@, packet.sequence) ==> r == 1,
    {
        proof {
            use_type_invariant(&*self);
        }
        let key = packet.sequence;
        let mut groups: Table<Sequence, Vec<Packet<Received, Fragment>>> = Table::with_capacity(0);
        std::mem::swap(&mut groups, &mut self.groups);
        let ghost old_groups = groups@;
        let r = match groups.find(&key) {
            Some(i) => {
                let (k, mut fragments) = groups.take_at(i);
                fragments.push(packet);
                let len = fragments.len();
                groups.put_at(i, k, fragments);
                proof {
                    assert(groups@ =~= old_groups.update(i as int, (k, fragments)));
                    assert forall|a: int| 0 <= a < groups@.len() implies {
                        &&& (#[trigger] groups@[a]).1@.len() > 0
                        &&& forall|j: int| 0 <= j < groups@[a].1@.len() ==> groups@[a].1@[j].sequence == groups@[a].0
                    } by {
                        if a != i {
                            assert(groups@[a] == old_groups[a]);
                        } else {
                            assert forall|j: int| 0 <= j < groups@[a].1@.len() implies groups@[a].1@[j].sequence == groups@[a].0 by {
                                if j < old_groups[a].1@.len() {
                                    assert(groups@[a].1@[j] == old_groups[a].1@[j]);
                                }
                            }
                        }
                    }
                }
                len
            },
            None => {
                let mut fragments: Vec<Packet<Received, Fragment>> = Vec::with_capacity(1);
                fragments.push(packet);
                groups.put_at(groups.len(), key, fragments);
                proof {
                    assert(groups@ =~= old_groups.push((key, fragments)));
                    assert(groups@.drop_last() =~= old_groups);
                    assert forall|a: int| 0 <= a < groups@.len() implies {
                        &&& (#[trigger] groups@[a]).1@.len() > 0
                        &&& forall|j: int| 0 <= j < groups@[a].1@.len() ==> groups@[a].1@[j].sequence == groups@[a].0
                    } by {
                        if a < old_groups.len() {
                            assert(groups@[a] == old_groups[a]);
                        }
                    }
                }
                1
            },
        };
        self.groups = groups;
        r
    }
}

/// The time the last fragment of a group arrived.
pub open spec fn group_time(group: (Sequence, Vec<Packet<Received, Fragment>>)) -> Duration {
    group.1@.last().delivery.meta.time
}

/// Whether the group `group` may still be completed at `now`: its last fragment arrived less
/// than the reassembly time to live before `now`.
pub open spec fn group_fresh(group: (Sequence, Vec<Packet<Received, Fragment>>), now: Duration) -> bool {
    group_time(group) + REASSEMBLY_TTL > now
}

/// The groups of `groups` that may still be completed at `now`, in their order.
pub open spec fn fresh_groups(groups: Seq<(Sequence, Vec<Packet<Received, Fragment>>)>, now: Duration) -> Seq<
    (Sequence, Vec<Packet<Received, Fragment>>),
> {
    groups.filter(|g: (Sequence, Vec<Packet<Received, Fragment>>)| group_fresh(g, now))
}

/// Taking one more group of `groups` into account adds it to the fresh ones exactly when it is
/// fresh.
proof fn lemma_fresh_step(groups: Seq<(Sequence, Vec<Packet<Received, Fragment>>)>, j: int, now: Duration)
    requires
        0 <= j < groups.len(),
    ensures
        fresh_groups(groups.take(j + 1), now) == if group_fresh(groups[j], now) {
            fresh_groups(groups.take(j), now).push(groups[j])
        } else {
            fresh_groups(groups.take(j), now)
        },
{
    reveal(Seq::filter);
    assert(groups.take(j + 1).drop_last() =~= groups.take(j));
    assert(groups.take(j + 1).last() == groups[j]);
}

/// Taking a group out keeps the groups well formed.
proof fn lemma_wf_remove(groups: Seq<(Sequence, Vec<Packet<Received, Fragment>>)>, k: int)
    requires
        reassembler_wf(groups),
        0 <= k < groups.len(),
    ensures
        reassembler_wf(groups.remove(k)),
{
    let rest = groups.remove(k);
    assert forall|i: int| 0 <= i < rest.len() implies {
        &&& (#[trigger] rest[i]).1@.len() > 0
        &&& forall|j: int| 0 <= j < rest[i].1@.len() ==> rest[i].1@[j].sequence == rest[i].0
    } by {
        if i < k {
            assert(rest[i] == groups[i]);
        } else {
            assert(rest[i] == groups[i + 1]);
        }
    }
}

/// Whether `p` is the peer `q` connected under `connection_id` since `time`, with the acks
/// `remote_ack_tracker` and `local_ack_tracker` and no fragments waiting.
pub open spec fn connected_from(
    p: Peer<Connected>,
    q: Peer<AwaitingConnectionAck>,
    time: Duration,
    connection_id: ConnectionId,
    remote_ack_tracker: Ack,
    local_ack_tracker: Ack,
) -> bool {
    &&& p.sequence_tracker == q.sequence_tracker
    &&& p.remote_ack_tracker == remote_ack_tracker
    &&& p.local_ack_tracker == local_ack_tracker
    &&& p.address == q.address
    &&& p.connection.meta == MetaConnection {
        time_entered_state: time,
        latest_sent_packet_id: q.connection.meta.latest_sent_packet_id,
        latest_sent_packet_time: q.connection.meta.latest_sent_packet_time,
    }
    &&& p.connection.connection_id == connection_id
    &&& p.connection.rtt == 0
    &&& p.connection.reassembler@.len() == 0
}

/// Whether `p` is the peer `q` waiting for its connection ack since `time`.
pub open spec fn awaiting_from(
    p: Peer<AwaitingConnectionAck>,
    q: Peer<RequestingConnection>,
    time: Duration,
) -> bool {
    &&& p.sequence_tracker == q.sequence_tracker
    &&& p.remote_ack_tracker == q.remote_ack_tracker
    &&& p.local_ack_tracker == q.local_ack_tracker
    &&& p.address == q.address
    &&& p.connection == AwaitingConnectionAck {
        meta: MetaConnection {
            time_entered_state: time,
            latest_sent_packet_id: q.connection.meta.latest_sent_packet_id,
            latest_sent_packet_time: q.connection.meta.latest_sent_packet_time,
        },
        attempts: 0,
    }
}

/// Whether `p` is the peer `q` with the acks `remote_ack_tracker` and `local_ack_tracker`.
pub open spec fn acks_updated<C>(
    p: Peer<C>,
    q: Peer<C>,
    remote_ack_tracker: Ack,
    local_ack_tracker: Ack,
) -> bool {
    &&& p.sequence_tracker == q.sequence_tracker
    &&& p.remote_ack_tracker == remote_ack_tracker
    &&& p.local_ack_tracker == local_ack_tracker
    &&& p.address == q.address
    &&& p.connection == q.connection
}

/// Whether `p` is the peer `q` with its sequence number one higher.
pub open spec fn sequence_advanced<C>(p: Peer<C>, q: Peer<C>) -> bool {
    &&& p.sequence_tracker@ == q.sequence_tracker@ + 1
    &&& p.remote_ack_tracker == q.remote_ack_tracker
    &&& p.local_ack_tracker == q.local_ack_tracker
    &&& p.address == q.address
    &&& p.connection == q.connection
}

/// Whether `p` is the peer `q` connected under `connection_id` since `time`, keeping its acks,
/// with its sequence number one higher when `advance`.
pub open spec fn promoted(
    p: Peer<Connected>,
    q: Peer<AwaitingConnectionAck>,
    time: Duration,
    connection_id: ConnectionId,
    advance: bool,
) -> bool {
    &&& p.sequence_tracker@ == q.sequence_tracker@ + if advance {
        1int
    } else {
        0int
    }
    &&& p.remote_ack_tracker == q.remote_ack_tracker
    &&& p.local_ack_tracker == q.local_ack_tracker
    &&& p.address == q.address
    &&& p.connection.meta == MetaConnection {
        time_entered_state: time,
        latest_sent_packet_id: q.connection.meta.latest_sent_packet_id,
        latest_sent_packet_time: q.connection.meta.latest_sent_packet_time,
    }
    &&& p.connection.connection_id == connection_id
    &&& p.connection.rtt == 0
    &&& p.connection.reassembler@.len() == 0
}

/// Sets the acks of the connected peer `connection_id`, if there is one; returns whether there
/// was.
pub fn update_acks(
    table: &mut Table<ConnectionId, Peer<Connected>>,
    connection_id: ConnectionId,
    remote_ack_tracker: Ack,
    local_ack_tracker: Ack,
) -> (r: bool)
    ensures
        r == has_key(old(table)@, connection_id),
        r ==> upserted(
            old(table)@,
            final(table)@,
            connection_id,
            |p: Peer<Connected>|
                acks_updated(
                    p,
                    value_of(old(table)@, connection_id),
                    remote_ack_tracker,
                    local_ack_tracker,
                ),
        ),
        !r ==> final(table)@ == old(table)@,
{
    match table.find(&connection_id) {
        Some(i) => {
            let (k, mut peer) = table.take_at(i);
            peer.remote_ack_tracker = remote_ack_tracker;
            peer.local_ack_tracker = local_ack_tracker;
            proof {
                crate::table::lemma_index_of(old(table)@, connection_id, i as int);
            }
            table.put_at(i, k, peer);
            true
        },
        None => false,
    }
}

/// Advances the sequence number of the connected peer `connection_id`, if there is one.
pub fn advance_sequence(table: &mut Table<ConnectionId, Peer<Connected>>, connection_id: ConnectionId)
    requires
        has_key(old(table)@, connection_id) ==> value_of(old(table)@, connection_id).sequence_tracker@
            < u32::MAX,
    ensures
        has_key(old(table)@, connection_id) ==> upserted(
            old(table)@,
            final(table)@,
            connection_id,
            |p: Peer<Connected>| sequence_advanced(p, value_of(old(table)@, connection_id)),
        ),
        !has_key(old(table)@, connection_id) ==> final(table)@ == old(table)@,
{
    match table.find(&connection_id) {
        Some(i) => {
            let (k, mut peer) = table.take_at(i);
            proof {
                crate::table::lemma_index_of(old(table)@, connection_id, i as int);
            }
            peer.sequence_tracker = peer.sequence_tracker.next();
            table.put_at(i, k, peer);
        },
        None => {},
    }
}

impl Peer<RequestingConnection> {
    /// A peer at `address` that starts requesting a connection at `time_entered_state`.
    pub fn new(time_entered_state: Duration, address: SocketAddr, remote_ack_tracker: u32) -> (r:
        Self)
        ensures
            r.sequence_tracker@ == 1,
            r.remote_ack_tracker == remote_ack_tracker,
            r.local_ack_tracker == 0,
            r.address == address,
            r.connection == (RequestingConnection {
                meta: MetaConnection {
                    time_entered_state,
                    latest_sent_packet_id: 0,
                    latest_sent_packet_time: 0,
                },
                attempts: 0,
            }),
    {
        Peer {
            sequence_tracker: Sequence::one(),
            remote_ack_tracker,
            local_ack_tracker: 0,
            address,
            connection: RequestingConnection {
                meta: MetaConnection {
                    time_entered_state,
                    latest_sent_packet_id: 0,
                    latest_sent_packet_time: 0,
                },
                attempts: 0,
            },
        }
    }

    /// The peer, now waiting for its connection to be acknowledged since `time_entered_state`.
    pub fn await_connection_ack(self, time_entered_state: Duration) -> (r: Peer<
        AwaitingConnectionAck,
    >)
        ensures
            r.sequence_tracker == self.sequence_tracker,
            r.remote_ack_tracker == self.remote_ack_tracker,
            r.local_ack_tracker == self.local_ack_tracker,
            r.address == self.address,
            r.connection == (AwaitingConnectionAck {
                meta: MetaConnection {
                    time_entered_state,
                    latest_sent_packet_id: self.connection.meta.latest_sent_packet_id,
                    latest_sent_packet_time: self.connection.meta.latest_sent_packet_time,
                },
                attempts: 0,
            }),
    {
        Peer {
            sequence_tracker: self.sequence_tracker,
            remote_ack_tracker: self.remote_ack_tracker,
            local_ack_tracker: self.local_ack_tracker,
            address: self.address,
            connection: AwaitingConnectionAck {
                meta: MetaConnection {
                    time_entered_state,
                    latest_sent_packet_id: self.connection.meta.latest_sent_packet_id,
                    latest_sent_packet_time: self.connection.meta.latest_sent_packet_time,
                },
                attempts: 0,
            },
        }
    }
}

impl Peer<AwaitingConnectionAck> {
    /// The peer, now connected under `connection_id` since `time_entered_state`, with no
    /// fragments waiting.
    pub fn connected(self, time_entered_state: Duration, connection_id: ConnectionId) -> (r: Peer<
        Connected,
    >)
        ensures
            r.sequence_tracker == self.sequence_tracker,
            r.remote_ack_tracker == self.remote_ack_tracker,
            r.local_ack_tracker == self.local_ack_tracker,
            r.address == self.address,
            r.connection.meta == (MetaConnection {
                time_entered_state,
                latest_sent_packet_id: self.connection.meta.latest_sent_packet_id,
                latest_sent_packet_time: self.connection.meta.latest_sent_packet_time,
            }),
            r.connection.connection_id == connection_id,
            r.connection.rtt == 0,
            r.connection.reassembler@ == Seq::<(Sequence, Vec<Packet<Received, Fragment>>)>::empty(),
    {
        Peer {
            sequence_tracker: self.sequence_tracker,
            remote_ack_tracker: self.remote_ack_tracker,
            local_ack_tracker: self.local_ack_tracker,
            address: self.address,
            connection: Connected {
                meta: MetaConnection {
                    time_entered_state,
                    latest_sent_packet_id: self.connection.meta.latest_sent_packet_id,
                    latest_sent_packet_time: self.connection.meta.latest_sent_packet_time,
                },
                connection_id,
                rtt: 0,
                reassembler: Reassembler::with_capacity(2),
            },
        }
    }
}

impl Peer<Connected> {
    /// Whether `self` is `old` once polled at `now`: every group of fragments whose last
    /// fragment arrived the reassembly time to live or longer before `now` is dropped, the other
    /// groups stay in their order, and nothing else changes.
    pub open spec fn polled_from(self, old: Self, now: Duration) -> bool {
        &&& self.sequence_tracker == old.sequence_tracker
        &&& self.remote_ack_tracker == old.remote_ack_tracker
        &&& self.local_ack_tracker == old.local_ack_tracker
        &&& self.address == old.address
        &&& self.connection.meta == old.connection.meta
        &&& self.connection.connection_id == old.connection.connection_id
        &&& self.connection.rtt == old.connection.rtt
        &&& self.connection.reassembler@ == fresh_groups(old.connection.reassembler@, now)
    }

    /// Drops the groups of fragments that can no longer be completed at `now`: those whose last
    /// fragment arrived the reassembly time to live or longer before it.
    pub fn poll(&mut self, now: Duration)
        ensures
            final(self).polled_from(*old(self), now),
    {
        self.connection.reassembler.drop_expired(now);
    }
}

/// Whether `new` is the table `old` with every peer polled at `now`, each under its id.
pub open spec fn peers_polled(
    old: Seq<(ConnectionId, Peer<Connected>)>,
    new: Seq<(ConnectionId, Peer<Connected>)>,
    now: Duration,
) -> bool {
    &&& new.len() == old.len()
    &&& forall|i: int|
        0 <= i < old.len() ==> (#[trigger] new[i]).0 == old[i].0 && new[i].1.polled_from(
            old[i].1,
            now,
        )
}

/// Polls every connected peer of `table` at `now`, in the table's order.
pub fn poll_peers(table: &mut Table<ConnectionId, Peer<Connected>>, now: Duration)
    ensures
        peers_polled(old(table)@, final(table)@, now),
{
    let count = table.len();
    let mut i: usize = 0;
    while i < count
        invariant
            count == old(table)@.len(),
            count == table@.len(),
            i <= count,
            forall|j: int| i <= j < count ==> #[trigger] table@[j] == old(table)@[j],
            forall|j: int|
                0 <= j < i ==> (#[trigger] table@[j]).0 == old(table)@[j].0
                    && table@[j].1.polled_from(old(table)@[j].1, now),
        decreases count - i,
    {
        let ghost before = table@;
        let (key, mut peer) = table.take_at(i);
        assert(peer == old(table)@[i as int].1);
        peer.poll(now);
        proof {
            assert forall|j: int| 0 <= j < table@.len() implies (#[trigger] table@[j]).0 != key by {
                if j < i {
                    assert(table@[j] == before[j]);
                } else {
                    assert(table@[j] == before[j + 1]);
                }
            }
        }
        table.put_at(i, key, peer);
        proof {
            assert forall|j: int| 0 <= j < count implies #[trigger] table@[j] == if j == i {
                (key, peer)
            } else {
                before[j]
            } by {
                if j < i {
                } else if j > i {
                }
            }
        }
        i = i + 1;
    }
}

/// The position of the first entry of `s` whose peer is at `address`.
pub open spec fn first_at_address<K, C>(s: Seq<(K, Peer<C>)>, address: SocketAddr) -> Option<
    int,
>
    decreases s.len(),
{
    if s.len() == 0 {
        None
    } else if s[0].1.address == address {
        Some(0)
    } else {
        match first_at_address(s.drop_first(), address) {
            Some(i) => Some(i + 1),
            None => None,
        }
    }
}

/// The first peer at `address` is at `i` when none before `i` is there and the peer at `i` is,
/// and there is none when no peer is there.
pub proof fn lemma_first_at_address<K, C>(s: Seq<(K, Peer<C>)>, address: SocketAddr, i: int)
    requires
        0 <= i <= s.len(),
        forall|j: int| 0 <= j < i ==> (#[trigger] s[j]).1.address != address,
        i < s.len() ==> s[i].1.address == address,
    ensures
        i < s.len() ==> first_at_address(s, address) == Some(i),
        i == s.len() ==> first_at_address(s, address) is None,
    decreases i,
{
    if s.len() > 0 && i > 0 {
        let t = s.drop_first();
        assert forall|j: int| 0 <= j < i - 1 implies (#[trigger] t[j]).1.address != address by {
            assert(t[j] == s[j + 1]);
        }
        lemma_first_at_address(t, address, i - 1);
    }
}

/// Whether some entry of `s` has its peer at `address`.
pub open spec fn has_peer_at<K, C>(s: Seq<(K, Peer<C>)>, address: SocketAddr) -> bool {
    exists|i: int| 0 <= i < s.len() && (#[trigger] s[i]).1.address == address
}

/// The first position in `s` whose peer is at `address`, if any.
pub fn find_address<K: TableKey, C>(table: &Table<K, Peer<C>>, address: &SocketAddr) -> (r: Option<usize>)
    ensures
        r is None <==> first_at_address(table@, *address) is None,
        r matches Some(i) ==> first_at_address(table@, *address) == Some(i as int) && i < table@.len(),
        r is None <==> !has_peer_at(table@, *address),
{
    let count = table.len();
    let mut i: usize = 0;
    while i < count
        invariant
            count == table@.len(),
            i <= count,
            forall|j: int| 0 <= j < i ==> (#[trigger] table@[j]).1.address != *address,
        decreases count - i,
    {
        if table.entry(i).1.address == *address {
            proof {
                lemma_first_at_address(table@, *address, i as int);
            }
            return Some(i);
        }
        i = i + 1;
    }
    proof {
        lemma_first_at_address(table@, *address, i as int);
    }
    None
}

} // verus!
