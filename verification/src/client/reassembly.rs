//! What a client makes of a whole group of fragments received one after the other.
use vstd::prelude::*;

use crate::duration::Duration;
use crate::errors::ProtocolError;
use crate::events::is_data_transfer_event;
use crate::packets::message::{
    has_index, indexed_payloads, joined_by_index, law_any_arrival_order_joins_by_index, sort_by_index,
};
use crate::packets::{
    connection_id_of, ConnectionId, Fragment, FragmentView, Packet, PacketView, Received,
};
use crate::payload::flatten;
use crate::sequence::{sequence_of, Sequence};
use crate::table::{has_key, index_of, keys_unique, removed, upserted, value_of};

use super::service::{completes_group, grown_group, peer_after_fragment, Client};

verus! {

/// The index and payload of every fragment of `ps`, in order.
pub open spec fn fragment_parts(ps: Seq<PacketView<Received, FragmentView>>) -> Seq<(u8, Seq<u8>)> {
    ps.map_values(|p: PacketView<Received, FragmentView>| (p.message.index, p.message.payload))
}

/// The payloads of the fragments `ps` by index: position `i` holds the payload of the fragment
/// whose index is `i`.
pub open spec fn payloads_in_index_order(ps: Seq<PacketView<Received, FragmentView>>) -> Seq<Seq<u8>> {
    Seq::new(
        ps.len(),
        |i: int| ps[choose|j: int| 0 <= j < ps.len() && ps[j].message.index == i].message.payload,
    )
}

/// Whether `ps` are the fragments of one group: all for the peer `id`, under the sequence
/// number `key`, each giving their number as the total, with the indexes 0, 1, ... up to one
/// less than their number, each once, in whatever order.
pub open spec fn one_group(ps: Seq<PacketView<Received, FragmentView>>, id: ConnectionId, key: Sequence) -> bool {
    &&& forall|k: int|
        #![trigger ps[k]]
        0 <= k < ps.len() ==> {
            &&& connection_id_of(ps[k].message.connection_id) == id
            &&& sequence_of(ps[k].sequence) == key
            &&& ps[k].message.total == ps.len()
            &&& (ps[k].message.index as int) < ps.len()
        }
    &&& forall|a: int, b: int| 0 <= a < b < ps.len() ==> ps[a].message.index != ps[b].message.index
}

/// Whether the client `states[k + 1]` is `states[k]` once it received `ps[k]` at `times[k]`,
/// with the result `rs[k]`, for every `k`.
pub open spec fn receives_in_turn(
    states: Seq<Client>,
    ps: Seq<PacketView<Received, FragmentView>>,
    times: Seq<Duration>,
    rs: Seq<Result<(), ProtocolError>>,
) -> bool {
    &&& states.len() == ps.len() + 1
    &&& times.len() == ps.len()
    &&& rs.len() == ps.len()
    &&& forall|k: int|
        #![trigger states[k], ps[k]]
        0 <= k < ps.len() ==> states[k].received_fragment(states[k + 1], ps[k], times[k], rs[k])
}

/// After the first `k` fragments of a group (all but the last), the peer is still connected,
/// its group holds exactly those fragments, in the order they came, and no event was reported.
proof fn lemma_gathered(
    states: Seq<Client>,
    ps: Seq<PacketView<Received, FragmentView>>,
    times: Seq<Duration>,
    rs: Seq<Result<(), ProtocolError>>,
    id: ConnectionId,
    key: Sequence,
    k: int,
)
    requires
        ps.len() >= 2,
        0 <= k < ps.len(),
        receives_in_turn(states, ps, times, rs),
        one_group(ps, id, key),
        keys_unique(states[0].connected@),
        has_key(states[0].connected@, id),
        keys_unique(value_of(states[0].connected@, id).connection.reassembler@),
        !has_key(value_of(states[0].connected@, id).connection.reassembler@, key),
    ensures
        keys_unique(states[k].connected@),
        has_key(states[k].connected@, id),
        keys_unique(value_of(states[k].connected@, id).connection.reassembler@),
        k == 0 ==> !has_key(value_of(states[k].connected@, id).connection.reassembler@, key),
        k > 0 ==> has_key(value_of(states[k].connected@, id).connection.reassembler@, key),
        k > 0 ==> indexed_payloads(
            value_of(value_of(states[k].connected@, id).connection.reassembler@, key)@,
        ) == fragment_parts(ps.take(k)),
        forall|j: int| 0 <= j < k ==> (#[trigger] rs[j]) is Ok,
        states[k].api == states[0].api,
    decreases k,
{
    if k > 0 {
        lemma_gathered(states, ps, times, rs, id, key, k - 1);
        let before = states[k - 1];
        let after = states[k];
        let p = ps[k - 1];
        assert(before.received_fragment(after, p, times[k - 1], rs[k - 1]));
        assert(connection_id_of(p.message.connection_id) == id);
        let old_peer = value_of(before.connected@, id);
        let groups = old_peer.connection.reassembler@;
        crate::table::lemma_upserted_get(
            before.connected@,
            after.connected@,
            id,
            |q: crate::peers::Peer<crate::peers::Connected>| peer_after_fragment(q, old_peer, p),
        );
        let peer = value_of(after.connected@, id);
        assert(peer_after_fragment(peer, old_peer, p));
        assert(!completes_group(groups, p)) by {
            if k - 1 > 0 {
                assert(indexed_payloads(value_of(groups, key)@).len() == k - 1);
            }
        }
        let f = |g: Vec<Packet<Received, Fragment>>| grown_group(g, groups, p);
        assert(upserted(groups, peer.connection.reassembler@, key, f));
        crate::table::lemma_upserted_get(groups, peer.connection.reassembler@, key, f);
        let g = value_of(peer.connection.reassembler@, key);
        assert(grown_group(g, groups, p));
        assert(g@ =~= g@.drop_last().push(g@.last()));
        assert(ps.take(k) =~= ps.take(k - 1).push(p));
        assert(fragment_parts(ps.take(k)) =~= fragment_parts(ps.take(k - 1)).push(
            (p.message.index, p.message.payload),
        ));
        if k - 1 == 0 {
            assert(g@.drop_last() =~= Seq::<Packet<Received, Fragment>>::empty());
            assert(ps.take(0) =~= Seq::<PacketView<Received, FragmentView>>::empty());
        }
        assert(indexed_payloads(g@) =~= indexed_payloads(g@.drop_last()).push(
            (p.message.index, p.message.payload),
        ));
    }
}

/// A whole group of fragments received one after the other, in whatever order, by a client
/// that is connected to their peer and holds nothing of their group yet: every reception
/// succeeds, the receptions before the last report nothing, and the last one reports one data
/// transfer for the peer whose payload is the payloads of the fragments joined in the order
/// of their indexes; the group is then gone.
pub proof fn law_fragments_reassemble(
    states: Seq<Client>,
    ps: Seq<PacketView<Received, FragmentView>>,
    times: Seq<Duration>,
    rs: Seq<Result<(), ProtocolError>>,
    id: ConnectionId,
    key: Sequence,
)
    requires
        ps.len() >= 2,
        receives_in_turn(states, ps, times, rs),
        one_group(ps, id, key),
        keys_unique(states[0].connected@),
        has_key(states[0].connected@, id),
        keys_unique(value_of(states[0].connected@, id).connection.reassembler@),
        !has_key(value_of(states[0].connected@, id).connection.reassembler@, key),
    ensures
        forall|j: int| 0 <= j < ps.len() ==> (#[trigger] rs[j]) is Ok,
        forall|j: int| 0 < j < ps.len() ==> (#[trigger] states[j]).api == states[0].api,
        states[ps.len() as int].api@.len() == states[0].api@.len() + 1,
        states[ps.len() as int].api@.drop_last() == states[0].api@,
        is_data_transfer_event(
            states[ps.len() as int].api@.last(),
            id,
            flatten(payloads_in_index_order(ps)),
        ),
        has_key(states[ps.len() as int].connected@, id),
        !has_key(value_of(states[ps.len() as int].connected@, id).connection.reassembler@, key),
{
    let n: int = ps.len() as int;
    assert forall|j: int| 0 < j < n implies (#[trigger] states[j]).api == states[0].api by {
        lemma_gathered(states, ps, times, rs, id, key, j);
    }
    lemma_gathered(states, ps, times, rs, id, key, n - 1);
    let before = states[n - 1];
    let after = states[n];
    let p = ps[n - 1];
    assert(before.received_fragment(after, p, times[n - 1], rs[n - 1]));
    assert(connection_id_of(p.message.connection_id) == id);
    let old_peer = value_of(before.connected@, id);
    let groups = old_peer.connection.reassembler@;
    crate::table::lemma_upserted_get(
        before.connected@,
        after.connected@,
        id,
        |q: crate::peers::Peer<crate::peers::Connected>| peer_after_fragment(q, old_peer, p),
    );
    let group = value_of(groups, key)@;
    assert(indexed_payloads(group).len() == n - 1);
    assert(completes_group(groups, p));
    let peer = value_of(after.connected@, id);
    assert(peer_after_fragment(peer, old_peer, p));
    assert(removed(groups, peer.connection.reassembler@, key));
    let rest = peer.connection.reassembler@;
    let i: int = index_of(groups, key);
    assert forall|a: int| 0 <= a < rest.len() implies rest[a].0 != key by {
        if a < i {
            assert(rest[a] == groups[a]);
        } else {
            assert(rest[a] == groups[a + 1]);
        }
    }
    assert(ps.take(n - 1).push(p) =~= ps);
    assert(fragment_parts(ps) =~= fragment_parts(ps.take(n - 1)).push((p.message.index, p.message.payload)));
    let parts = fragment_parts(ps);
    assert forall|j: int| 0 <= j < n implies (#[trigger] parts[j]).0 < n by {
        assert(parts[j].0 == ps[j].message.index);
    }
    assert forall|a: int, b: int| 0 <= a < b < n implies parts[a].0 != parts[b].0 by {
        assert(parts[a].0 == ps[a].message.index);
        assert(parts[b].0 == ps[b].message.index);
    }
    law_any_arrival_order_joins_by_index(parts);
    let sorted = sort_by_index(parts);
    assert(sorted.map_values(|part: (u8, Seq<u8>)| part.1) =~= payloads_in_index_order(ps)) by {
        assert forall|a: int| 0 <= a < n implies sorted[a].1 == #[trigger] payloads_in_index_order(ps)[a] by {
            assert(has_index(parts, a));
            let j: int = choose|j: int| 0 <= j < n && ps[j].message.index == a;
            assert(parts[j].0 == ps[j].message.index);
            assert(sorted[parts[j].0 as int] == parts[j]);
        }
    }
    assert(joined_by_index(parts) == flatten(payloads_in_index_order(ps)));
}

} // verus!
