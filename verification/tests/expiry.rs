use antarc_protocol::client::ClientReliabilityHandler;
use antarc_protocol::packets::{
    ConnectionId, DataTransfer, Fragment, MetaDelivery, Packet, Received, Sent, Sequence,
};
use antarc_protocol::peers::{Connected, Peer};
use antarc_protocol::reliability::ReliabilityHandler;
use antarc_protocol::socket_addr::SocketAddr;

const SECOND: u128 = 1_000_000_000;

fn address() -> SocketAddr {
    SocketAddr::v4(10, 1, 1, 1, 7000)
}

fn fragment(sequence: u32, index: u8, total: u8, time: u128, payload: Vec<u8>) -> Packet<Received, Fragment> {
    Packet {
        delivery: Received { meta: MetaDelivery { time, address: address() } },
        sequence: Sequence::new(sequence).unwrap(),
        ack: 9,
        message: Fragment::new(ConnectionId::new(3).unwrap(), payload, index as usize, total as usize),
    }
}

fn sent_transfer(id: u64, time: u128, ttl: u128) -> Packet<Sent, DataTransfer> {
    Packet {
        delivery: Sent { id, ttl, meta: MetaDelivery { time, address: address() } },
        sequence: Sequence::new(1).unwrap(),
        ack: 0,
        message: DataTransfer::new(ConnectionId::new(3).unwrap(), vec![id as u8]),
    }
}

fn connected_peer() -> Peer<Connected> {
    Peer::new(0, address(), 1).await_connection_ack(0).connected(0, ConnectionId::new(3).unwrap())
}

#[test]
fn fragments_join_in_index_order_whatever_their_arrival() {
    let arrived = vec![
        fragment(4, 2, 3, 10, vec![7, 8]),
        fragment(4, 0, 3, 11, vec![1, 2, 3]),
        fragment(4, 1, 3, 12, vec![4, 5, 6]),
    ];
    let joined = Packet::<Received, DataTransfer>::from_fragments(arrived);
    assert_eq!(joined.message.payload, vec![1, 2, 3, 4, 5, 6, 7, 8]);
    assert_eq!(joined.delivery.meta.time, 12);
    assert_eq!(joined.sequence.get(), 4);
    assert_eq!(joined.ack, 9);
    assert_eq!(joined.message.connection_id.get(), 3);
}

#[test]
fn a_single_fragment_is_its_own_payload() {
    let joined = Packet::<Received, DataTransfer>::from_fragments(vec![fragment(1, 0, 1, 0, vec![9])]);
    assert_eq!(joined.message.payload, vec![9]);
}

#[test]
fn peer_poll_drops_every_expired_group_and_keeps_the_fresh_ones() {
    let mut peer = connected_peer();
    peer.connection.reassembler.add(fragment(1, 0, 2, 0, vec![1]));
    peer.connection.reassembler.add(fragment(2, 0, 2, 5 * SECOND, vec![2]));
    peer.connection.reassembler.add(fragment(3, 0, 2, SECOND / 2, vec![3]));
    peer.connection.reassembler.add(fragment(5, 0, 3, 0, vec![4]));
    peer.connection.reassembler.add(fragment(5, 1, 3, 5 * SECOND, vec![5]));
    peer.poll(2 * SECOND);
    let reassembler = &peer.connection.reassembler;
    assert_eq!(reassembler.len(), 2);
    assert_eq!(reassembler.entry(0).0.get(), 2);
    assert_eq!(reassembler.entry(1).0.get(), 5);
    assert_eq!(reassembler.entry(1).1.len(), 2);
}

#[test]
fn peer_poll_keeps_a_group_until_its_time_to_live_has_passed() {
    let mut peer = connected_peer();
    peer.connection.reassembler.add(fragment(1, 0, 2, SECOND, vec![1]));
    peer.poll(2 * SECOND - 1);
    assert_eq!(peer.connection.reassembler.len(), 1);
    peer.poll(2 * SECOND);
    assert_eq!(peer.connection.reassembler.len(), 0);
}

#[test]
fn handler_poll_drops_exactly_the_expired_packets_in_order() {
    let mut handler: ReliabilityHandler<ClientReliabilityHandler> = ReliabilityHandler::new(4);
    handler.list_sent_reliable_data_transfer.push(sent_transfer(1, 0, SECOND));
    handler.list_sent_reliable_data_transfer.push(sent_transfer(2, 5 * SECOND, SECOND));
    handler.list_sent_reliable_data_transfer.push(sent_transfer(3, SECOND, 3 * SECOND));
    handler.list_sent_reliable_data_transfer.push(sent_transfer(4, SECOND, SECOND));
    handler.poll(2 * SECOND);
    let ids: Vec<u64> = handler.list_sent_reliable_data_transfer.iter().map(|p| p.delivery.id).collect();
    assert_eq!(ids, vec![2, 3]);
}

#[test]
fn handler_poll_keeps_everything_still_waiting() {
    let mut handler: ReliabilityHandler<ClientReliabilityHandler> = ReliabilityHandler::new(4);
    handler.list_sent_reliable_data_transfer.push(sent_transfer(1, 0, SECOND));
    handler.list_sent_reliable_data_transfer.push(sent_transfer(2, 0, SECOND));
    handler.poll(SECOND - 1);
    assert_eq!(handler.list_sent_reliable_data_transfer.len(), 2);
    handler.poll(u128::MAX);
    assert!(handler.list_sent_reliable_data_transfer.is_empty());
}

#[test]
fn fragments_in_index_order_join_as_they_come() {
    let arrived = vec![
        fragment(6, 0, 3, 1, vec![1]),
        fragment(6, 1, 3, 2, vec![2, 3]),
        fragment(6, 2, 3, 3, vec![4]),
    ];
    let joined = Packet::<Received, DataTransfer>::from_fragments(arrived);
    assert_eq!(joined.message.payload, vec![1, 2, 3, 4]);
    assert_eq!(joined.delivery.meta.time, 3);
}
