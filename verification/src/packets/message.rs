//! The messages that packets carry, with their views and constructors.
use vstd::prelude::*;

use crate::payload::flatten;

use super::{
    ConnectionId, Message, Packet, PacketType, Payload, Received, CONNECTION_ACCEPTED, CONNECTION_REQUEST,
    DATA_TRANSFER, FRAGMENT, HEARTBEAT,
};

verus! {

/// What every message carries: its packet type.
#[derive(Debug, Clone, Copy, PartialEq)]
pub struct MetaMessage {
    pub packet_type: PacketType,
}

/// A client asks a server for a connection.
#[derive(Debug, Clone, Copy, PartialEq)]
pub struct ConnectionRequest {
    pub meta: MetaMessage,
}

/// A server accepts a connection and gives the client its connection id.
#[derive(Debug, Clone, Copy, PartialEq)]
pub struct ConnectionAccepted {
    pub meta: MetaMessage,
    pub connection_id: ConnectionId,
}

/// A payload small enough for one packet.
#[derive(Debug, Clone, PartialEq)]
pub struct DataTransfer {
    pub meta: MetaMessage,
    pub connection_id: ConnectionId,
    pub payload: Payload,
}

/// One part of a payload too large for one packet. The parts of one payload share their
/// packet's sequence number, which serves as the id of the group.
#[derive(Debug, Clone, PartialEq)]
pub struct Fragment {
    pub meta: MetaMessage,
    pub connection_id: ConnectionId,
    pub index: u8,
    pub total: u8,
    pub payload: Payload,
}

/// Keeps a connection alive.
#[derive(Debug, Clone, Copy, PartialEq)]
pub struct Heartbeat {
    pub meta: MetaMessage,
    pub connection_id: ConnectionId,
}

/// A connection request, seen as plain values.
pub struct ConnectionRequestView {
    pub packet_type: u8,
}

/// A connection accepted message, seen as plain values.
pub struct ConnectionAcceptedView {
    pub packet_type: u8,
    pub connection_id: u16,
}

/// A data transfer, seen as plain values.
pub struct DataTransferView {
    pub packet_type: u8,
    pub connection_id: u16,
    pub payload: Seq<u8>,
}

/// A fragment, seen as plain values.
pub struct FragmentView {
    pub packet_type: u8,
    pub connection_id: u16,
    pub index: u8,
    pub total: u8,
    pub payload: Seq<u8>,
}

/// A heartbeat, seen as plain values.
pub struct HeartbeatView {
    pub packet_type: u8,
    pub connection_id: u16,
}

impl View for ConnectionRequest {
    type V = ConnectionRequestView;

    open spec fn view(&self) -> ConnectionRequestView {
        ConnectionRequestView { packet_type: self.meta.packet_type@ }
    }
}

impl View for ConnectionAccepted {
    type V = ConnectionAcceptedView;

    open spec fn view(&self) -> ConnectionAcceptedView {
        ConnectionAcceptedView {
            packet_type: self.meta.packet_type@,
            connection_id: self.connection_id@,
        }
    }
}

impl View for DataTransfer {
    type V = DataTransferView;

    open spec fn view(&self) -> DataTransferView {
        DataTransferView {
            packet_type: self.meta.packet_type@,
            connection_id: self.connection_id@,
            payload: self.payload@,
        }
    }
}

impl View for Fragment {
    type V = FragmentView;

    open spec fn view(&self) -> FragmentView {
        FragmentView {
            packet_type: self.meta.packet_type@,
            connection_id: self.connection_id@,
            index: self.index,
            total: self.total,
            payload: self.payload@,
        }
    }
}

impl View for Heartbeat {
    type V = HeartbeatView;

    open spec fn view(&self) -> HeartbeatView {
        HeartbeatView { packet_type: self.meta.packet_type@, connection_id: self.connection_id@ }
    }
}

impl Message for ConnectionRequest {
    open spec fn spec_packet_type() -> u8 {
        CONNECTION_REQUEST
    }

    fn packet_type() -> (r: PacketType) {
        PacketType::new_unchecked(CONNECTION_REQUEST)
    }

    fn packet_type_bytes() -> (r: [u8; 1]) {
        PacketType::new_unchecked(CONNECTION_REQUEST).to_be_bytes()
    }
}

impl Message for ConnectionAccepted {
    open spec fn spec_packet_type() -> u8 {
        CONNECTION_ACCEPTED
    }

    fn packet_type() -> (r: PacketType) {
        PacketType::new_unchecked(CONNECTION_ACCEPTED)
    }

    fn packet_type_bytes() -> (r: [u8; 1]) {
        PacketType::new_unchecked(CONNECTION_ACCEPTED).to_be_bytes()
    }
}

impl Message for DataTransfer {
    open spec fn spec_packet_type() -> u8 {
        DATA_TRANSFER
    }

    fn packet_type() -> (r: PacketType) {
        PacketType::new_unchecked(DATA_TRANSFER)
    }

    fn packet_type_bytes() -> (r: [u8; 1]) {
        PacketType::new_unchecked(DATA_TRANSFER).to_be_bytes()
    }
}

impl Message for Fragment {
    open spec fn spec_packet_type() -> u8 {
        FRAGMENT
    }

    fn packet_type() -> (r: PacketType) {
        PacketType::new_unchecked(FRAGMENT)
    }

    fn packet_type_bytes() -> (r: [u8; 1]) {
        PacketType::new_unchecked(FRAGMENT).to_be_bytes()
    }
}

impl Message for Heartbeat {
    open spec fn spec_packet_type() -> u8 {
        HEARTBEAT
    }

    fn packet_type() -> (r: PacketType) {
        PacketType::new_unchecked(HEARTBEAT)
    }

    fn packet_type_bytes() -> (r: [u8; 1]) {
        PacketType::new_unchecked(HEARTBEAT).to_be_bytes()
    }
}

impl Fragment {
    /// The fragment `fragment_index` of `fragment_total` of a payload; both counts are kept in
    /// one byte each, so larger counts wrap around.
    pub fn new(
        connection_id: ConnectionId,
        payload: Payload,
        fragment_index: usize,
        fragment_total: usize,
    ) -> (r: Self)
        ensures
            r.meta.packet_type@ == FRAGMENT,
            r.connection_id == connection_id,
            r.index == fragment_index as u8,
            r.total == fragment_total as u8,
            r.payload@ == payload@,
    {
        let meta = MetaMessage { packet_type: <Fragment as Message>::packet_type() };
        let fragment = Fragment {
            meta,
            connection_id,
            index: fragment_index as u8,
            total: fragment_total as u8,
            payload,
        };
        fragment
    }
}

/// The index and payload of every fragment of `fragments`, in order.
pub open spec fn indexed_payloads(fragments: Seq<Packet<Received, Fragment>>) -> Seq<(u8, Seq<u8>)> {
    fragments.map_values(|f: Packet<Received, Fragment>| (f.message.index, f.message.payload@))
}

/// Where a part with index `index` goes into the parts `sorted`: after the last part whose
/// index is not larger than `index`, or first when there is none.
pub open spec fn insert_position(sorted: Seq<(u8, Seq<u8>)>, index: u8) -> int
    decreases sorted.len(),
{
    if sorted.len() == 0 {
        0
    } else if sorted.last().0 <= index {
        sorted.len() as int
    } else {
        insert_position(sorted.drop_last(), index)
    }
}

/// The parts `parts` ordered by their index; parts of equal index keep the order they came in.
pub open spec fn sort_by_index(parts: Seq<(u8, Seq<u8>)>) -> Seq<(u8, Seq<u8>)>
    decreases parts.len(),
{
    if parts.len() == 0 {
        parts
    } else {
        let sorted = sort_by_index(parts.drop_last());
        sorted.insert(insert_position(sorted, parts.last().0), parts.last())
    }
}

/// The payloads of the parts `parts`, joined in the order of their indexes.
pub open spec fn joined_by_index(parts: Seq<(u8, Seq<u8>)>) -> Seq<u8> {
    flatten(sort_by_index(parts).map_values(|part: (u8, Seq<u8>)| part.1))
}

/// Whether `sorted` is ordered by index.
pub open spec fn index_ordered(sorted: Seq<(u8, Seq<u8>)>) -> bool {
    forall|a: int, b: int| 0 <= a < b < sorted.len() ==> sorted[a].0 <= sorted[b].0
}

/// Sorting keeps every part and orders them by index.
pub proof fn lemma_sort_by_index(parts: Seq<(u8, Seq<u8>)>)
    ensures
        sort_by_index(parts).len() == parts.len(),
        index_ordered(sort_by_index(parts)),
    decreases parts.len(),
{
    if parts.len() > 0 {
        let sorted = sort_by_index(parts.drop_last());
        lemma_sort_by_index(parts.drop_last());
        let x = parts.last();
        let k: int = insert_position(sorted, x.0);
        lemma_insert_position(sorted, x.0);
        let r = sorted.insert(k, x);
        assert forall|a: int, b: int| 0 <= a < b < r.len() implies r[a].0 <= r[b].0 by {
            if b < k {
            } else if b == k {
                assert(r[a] == sorted[a]);
            } else if a < k {
                assert(r[b] == sorted[b - 1]);
            } else if a == k {
                assert(r[b] == sorted[b - 1]);
            } else {
                assert(r[a] == sorted[a - 1]);
                assert(r[b] == sorted[b - 1]);
            }
        }
    }
}

/// In parts ordered by index, a part goes after every part whose index is not larger, and
/// before every part whose index is larger.
pub proof fn lemma_insert_position(sorted: Seq<(u8, Seq<u8>)>, index: u8)
    requires
        index_ordered(sorted),
    ensures
        0 <= insert_position(sorted, index) <= sorted.len(),
        forall|a: int| 0 <= a < insert_position(sorted, index) ==> sorted[a].0 <= index,
        forall|a: int| insert_position(sorted, index) <= a < sorted.len() ==> sorted[a].0 > index,
    decreases sorted.len(),
{
    if sorted.len() > 0 {
        let n: int = sorted.len() as int;
        if sorted.last().0 > index {
            let rest = sorted.drop_last();
            assert(index_ordered(rest)) by {
                assert forall|a: int, b: int| 0 <= a < b < rest.len() implies rest[a].0 <= rest[b].0 by {
                    assert(rest[a] == sorted[a]);
                    assert(rest[b] == sorted[b]);
                }
            }
            lemma_insert_position(rest, index);
            let k: int = insert_position(sorted, index);
            assert forall|a: int| 0 <= a < k implies sorted[a].0 <= index by {
                assert(rest[a] == sorted[a]);
            }
            assert forall|a: int| k <= a < n implies sorted[a].0 > index by {
                if a < n - 1 {
                    assert(rest[a] == sorted[a]);
                }
            }
        } else {
            assert forall|a: int| 0 <= a < n implies sorted[a].0 <= index by {
                if a < n - 1 {
                    assert(sorted[a].0 <= sorted[n - 1].0);
                }
            }
        }
    }
}

/// Parts that already come in the order of their indexes are joined as they come: a group
/// whose fragments arrived in index order makes the payload of their payloads, in that order.
pub proof fn law_ordered_parts_join_as_they_come(parts: Seq<(u8, Seq<u8>)>)
    requires
        index_ordered(parts),
    ensures
        joined_by_index(parts) == flatten(parts.map_values(|part: (u8, Seq<u8>)| part.1)),
{
    lemma_sorted_unchanged(parts);
}

/// Sorting parts that are already ordered by index leaves them as they are.
proof fn lemma_sorted_unchanged(parts: Seq<(u8, Seq<u8>)>)
    requires
        index_ordered(parts),
    ensures
        sort_by_index(parts) == parts,
    decreases parts.len(),
{
    if parts.len() > 0 {
        let rest = parts.drop_last();
        let n: int = parts.len() as int;
        assert(index_ordered(rest)) by {
            assert forall|a: int, b: int| 0 <= a < b < rest.len() implies rest[a].0 <= rest[b].0 by {
                assert(rest[a] == parts[a]);
                assert(rest[b] == parts[b]);
            }
        }
        lemma_sorted_unchanged(rest);
        if n > 1 {
            assert(rest.last() == parts[n - 2]);
            assert(parts[n - 2].0 <= parts[n - 1].0);
        }
        assert(rest.insert(rest.len() as int, parts.last()) =~= parts);
    }
}

/// Sorting keeps the parts themselves: the sorted parts are the parts, each as often.
pub proof fn lemma_sort_keeps_parts(parts: Seq<(u8, Seq<u8>)>)
    ensures
        sort_by_index(parts).to_multiset() == parts.to_multiset(),
    decreases parts.len(),
{
    broadcast use vstd::seq_lib::group_to_multiset_ensures;

    if parts.len() > 0 {
        let rest = parts.drop_last();
        lemma_sort_keeps_parts(rest);
        lemma_sort_by_index(rest);
        let sorted = sort_by_index(rest);
        let k: int = insert_position(sorted, parts.last().0);
        lemma_insert_position(sorted, parts.last().0);
        vstd::seq_lib::to_multiset_insert(sorted, k, parts.last());
        assert(rest.push(parts.last()) =~= parts);
    }
}

/// Parts whose indexes rise strictly and stay below their number have the indexes 0, 1, ... in
/// turn.
proof fn lemma_rising_indexes(sorted: Seq<(u8, Seq<u8>)>, i: int)
    requires
        forall|a: int, b: int| 0 <= a < b < sorted.len() ==> sorted[a].0 < sorted[b].0,
        forall|a: int| 0 <= a < sorted.len() ==> (sorted[a].0 as int) < sorted.len(),
        0 <= i < sorted.len(),
    ensures
        sorted[i].0 == i,
{
    lemma_at_least(sorted, i);
    lemma_at_most(sorted, i);
}

proof fn lemma_at_least(sorted: Seq<(u8, Seq<u8>)>, i: int)
    requires
        forall|a: int, b: int| 0 <= a < b < sorted.len() ==> sorted[a].0 < sorted[b].0,
        0 <= i < sorted.len(),
    ensures
        sorted[i].0 >= i,
    decreases i,
{
    if i > 0 {
        lemma_at_least(sorted, i - 1);
        assert(sorted[i - 1].0 < sorted[i].0);
    }
}

proof fn lemma_at_most(sorted: Seq<(u8, Seq<u8>)>, i: int)
    requires
        forall|a: int, b: int| 0 <= a < b < sorted.len() ==> sorted[a].0 < sorted[b].0,
        forall|a: int| 0 <= a < sorted.len() ==> (sorted[a].0 as int) < sorted.len(),
        0 <= i < sorted.len(),
    ensures
        sorted[i].0 <= i,
    decreases sorted.len() - i,
{
    if i < sorted.len() - 1 {
        lemma_at_most(sorted, i + 1);
        assert(sorted[i].0 < sorted[i + 1].0);
    }
}

/// Whether some part of `parts` has the index `i`.
pub open spec fn has_index(parts: Seq<(u8, Seq<u8>)>, i: int) -> bool {
    exists|j: int| 0 <= j < parts.len() && parts[j].0 == i
}

/// Whatever order the fragments of a group arrive in, when their indexes are 0, 1, ... up to
/// one less than their number, each once, sorting puts every part at the position of its index,
/// so the payload joins them as 0, 1, 2, ...
pub proof fn law_any_arrival_order_joins_by_index(parts: Seq<(u8, Seq<u8>)>)
    requires
        forall|j: int| 0 <= j < parts.len() ==> (parts[j].0 as int) < parts.len(),
        forall|a: int, b: int| 0 <= a < b < parts.len() ==> parts[a].0 != parts[b].0,
    ensures
        sort_by_index(parts).len() == parts.len(),
        forall|j: int| 0 <= j < parts.len() ==> sort_by_index(parts)[parts[j].0 as int] == parts[j],
        forall|i: int| 0 <= i < parts.len() ==> #[trigger] has_index(parts, i),
{
    broadcast use vstd::seq_lib::group_to_multiset_ensures;

    let sorted = sort_by_index(parts);
    lemma_sort_by_index(parts);
    lemma_sort_keeps_parts(parts);
    let n: int = parts.len() as int;
    assert(parts.no_duplicates()) by {
        assert forall|a: int, b: int| 0 <= a < n && 0 <= b < n && a != b implies parts[a] != parts[b] by {
            if a < b {
                assert(parts[a].0 != parts[b].0);
            } else {
                assert(parts[b].0 != parts[a].0);
            }
        }
    }
    parts.lemma_multiset_has_no_duplicates();
    assert forall|x: (u8, Seq<u8>)| sorted.to_multiset().contains(x) implies sorted.to_multiset().count(x) == 1 by {}
    sorted.lemma_multiset_has_no_duplicates_conv();
    assert forall|a: int| 0 <= a < n implies #[trigger] parts.contains(sorted[a]) by {
        assert(sorted.contains(sorted[a]));
        assert(sorted.to_multiset().count(sorted[a]) > 0);
        assert(parts.to_multiset().count(sorted[a]) > 0);
    }
    assert forall|a: int| 0 <= a < n implies (#[trigger] sorted[a].0 as int) < n by {
        assert(parts.contains(sorted[a]));
        let j: int = choose|j: int| 0 <= j < n && parts[j] == sorted[a];
        assert(parts[j] == sorted[a]);
    }
    assert forall|a: int, b: int| 0 <= a < b < n implies sorted[a].0 < sorted[b].0 by {
        assert(sorted[a].0 <= sorted[b].0);
        if sorted[a].0 == sorted[b].0 {
            assert(parts.contains(sorted[a]));
            assert(parts.contains(sorted[b]));
            let ja: int = choose|j: int| 0 <= j < n && parts[j] == sorted[a];
            let jb: int = choose|j: int| 0 <= j < n && parts[j] == sorted[b];
            if ja < jb {
                assert(parts[ja].0 != parts[jb].0);
            } else if jb < ja {
                assert(parts[jb].0 != parts[ja].0);
            }
            assert(sorted[a] == sorted[b]);
        }
    }
    assert forall|j: int| 0 <= j < n implies sorted[parts[j].0 as int] == parts[j] by {
        assert(parts.contains(parts[j]));
        assert(parts.to_multiset().count(parts[j]) > 0);
        assert(sorted.to_multiset().count(parts[j]) > 0);
        assert(sorted.contains(parts[j]));
        let a: int = choose|a: int| 0 <= a < n && sorted[a] == parts[j];
        lemma_rising_indexes(sorted, a);
    }
    assert forall|i: int| 0 <= i < n implies #[trigger] has_index(parts, i) by {
        assert(parts.contains(sorted[i]));
        let j: int = choose|j: int| 0 <= j < n && parts[j] == sorted[i];
        lemma_rising_indexes(sorted, i);
        assert(parts[j].0 == i);
    }
}

/// The position where a part with index `index` goes into `parts`, found from the end.
fn find_insert_position(parts: &Vec<Packet<Received, Fragment>>, index: u8) -> (r: usize)
    ensures
        r == insert_position(indexed_payloads(parts@), index),
{
    let ghost all = indexed_payloads(parts@);
    let mut p: usize = parts.len();
    proof {
        assert(all.take(p as int) =~= all);
    }
    while p > 0 && parts[p - 1].message.index > index
        invariant
            p <= parts@.len(),
            all == indexed_payloads(parts@),
            insert_position(all, index) == insert_position(all.take(p as int), index),
        decreases p,
    {
        proof {
            assert(all.take(p as int).drop_last() =~= all.take(p as int - 1));
            assert(all.take(p as int).last() == all[p as int - 1]);
        }
        p = p - 1;
    }
    proof {
        if p > 0 {
            assert(all.take(p as int).last() == all[p as int - 1]);
        } else {
            assert(all.take(0) =~= Seq::<(u8, Seq<u8>)>::empty());
        }
    }
    p
}

impl Packet<Received, DataTransfer> {
    /// The data transfer that a complete group of fragments makes: it carries the delivery,
    /// sequence, ack and connection id of the last fragment received, and the payloads of all
    /// the fragments, joined in the order of their indexes.
    pub fn from_fragments(fragments: Vec<Packet<Received, Fragment>>) -> (r: Self)
        requires
            fragments@.len() > 0,
        ensures
            r.delivery == (Received { meta: fragments@.last().delivery.meta }),
            r.sequence == fragments@.last().sequence,
            r.ack == fragments@.last().ack,
            r.message.meta.packet_type@ == DATA_TRANSFER,
            r.message.connection_id == fragments@.last().message.connection_id,
            r.message.payload@ == joined_by_index(indexed_payloads(fragments@)),
    {
        let count: usize = fragments.len();
        let last = &fragments[count - 1];
        let delivery = Received { meta: last.delivery.meta };
        let sequence = last.sequence;
        let ack: u32 = last.ack;
        let connection_id = last.message.connection_id;
        let ghost original = fragments@;
        let mut rest = fragments;
        let mut sorted: Vec<Packet<Received, Fragment>> = Vec::with_capacity(count);
        let mut k: usize = 0;
        while k < count
            invariant
                count == original.len(),
                k <= count,
                rest@ == original.skip(k as int),
                indexed_payloads(sorted@) == sort_by_index(indexed_payloads(original.take(k as int))),
            decreases count - k,
        {
            let fragment = rest.remove(0);
            let position: usize = find_insert_position(&sorted, fragment.message.index);
            proof {
                assert(fragment == original[k as int]);
                let parts = indexed_payloads(original.take(k as int + 1));
                assert(parts.drop_last() =~= indexed_payloads(original.take(k as int)));
                assert(parts.last() == (fragment.message.index, fragment.message.payload@));
                lemma_sort_by_index(indexed_payloads(original.take(k as int)));
                lemma_insert_position(indexed_payloads(sorted@), fragment.message.index);
            }
            sorted.insert(position, fragment);
            proof {
                assert(indexed_payloads(sorted@) =~= sort_by_index(
                    indexed_payloads(original.take(k as int + 1)),
                ));
                assert(rest@ =~= original.skip(k as int + 1));
            }
            k = k + 1;
        }
        proof {
            assert(original.take(count as int) =~= original);
        }
        let ghost ordered = sort_by_index(indexed_payloads(original));
        let ghost payloads = ordered.map_values(|part: (u8, Seq<u8>)| part.1);
        let mut payload: Vec<u8> = Vec::new();
        let mut i: usize = 0;
        while i < sorted.len()
            invariant
                indexed_payloads(sorted@) == ordered,
                payloads == ordered.map_values(|part: (u8, Seq<u8>)| part.1),
                i <= sorted@.len(),
                payload@ == flatten(payloads.subrange(0, i as int)),
            decreases sorted@.len() - i,
        {
            crate::packets::encode::push_all(&mut payload, sorted[i].message.payload.as_slice());
            proof {
                assert(payloads[i as int] == sorted@[i as int].message.payload@);
                lemma_flatten_push(payloads.subrange(0, i as int), payloads[i as int]);
                assert(payloads.subrange(0, i as int + 1) =~= payloads.subrange(0, i as int).push(
                    payloads[i as int],
                ));
            }
            i = i + 1;
        }
        proof {
            assert(payloads.subrange(0, sorted@.len() as int) =~= payloads);
        }
        let message = DataTransfer {
            meta: MetaMessage { packet_type: <DataTransfer as Message>::packet_type() },
            connection_id,
            payload,
        };
        Packet { delivery, sequence, ack, message }
    }
}

/// Joining parts and then one more is joining them with that part at the end.
pub proof fn lemma_flatten_push(parts: Seq<Seq<u8>>, last: Seq<u8>)
    ensures
        flatten(parts.push(last)) == flatten(parts) + last,
    decreases parts.len(),
{
    if parts.len() == 0 {
        assert(parts.push(last).drop_first() =~= Seq::<Seq<u8>>::empty());
        assert(flatten(parts.push(last).drop_first()) == Seq::<u8>::empty());
        assert(flatten(parts.push(last)) =~= last + Seq::<u8>::empty());
        assert(flatten(parts) == Seq::<u8>::empty());
        assert(flatten(parts) + last =~= last);
    } else {
        lemma_flatten_push(parts.drop_first(), last);
        assert(parts.push(last).drop_first() =~= parts.drop_first().push(last));
        assert(flatten(parts.push(last)) =~= parts[0] + (flatten(parts.drop_first()) + last));
    }
}

impl DataTransfer {
    /// A data transfer of `payload` for the peer `connection_id`.
    pub fn new(connection_id: ConnectionId, payload: Payload) -> (r: Self)
        ensures
            r.meta.packet_type@ == DATA_TRANSFER,
            r.connection_id == connection_id,
            r.payload@ == payload@,
    {
        let meta = MetaMessage { packet_type: <DataTransfer as Message>::packet_type() };
        let data_transfer = DataTransfer { meta, connection_id, payload };
        data_transfer
    }
}

impl Heartbeat {
    /// A heartbeat for the peer `connection_id`.
    pub fn new(connection_id: ConnectionId) -> (r: Self)
        ensures
            r.meta.packet_type@ == HEARTBEAT,
            r.connection_id == connection_id,
    {
        let meta = MetaMessage { packet_type: <Heartbeat as Message>::packet_type() };
        let heartbeat = Heartbeat { meta, connection_id };
        heartbeat
    }
}

} // verus!
