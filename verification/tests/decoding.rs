use std::time::Instant;

use antarc_protocol::client::Client;
use antarc_protocol::errors::ProtocolError;
use antarc_protocol::packet::header::{DataTransfer as DataTransferKind, Generic, Heartbeat as HeartbeatKind};
use antarc_protocol::packet::received::{is_legacy_decodable, Received};
use antarc_protocol::packet::Packet as LegacyPacket;
use antarc_protocol::packets::decode::{DecodedForClient, DecodedForServer};
use antarc_protocol::packets::delivery::{MetaDelivery, Received as ReceivedDelivery, ToSend};
use antarc_protocol::packets::message::{DataTransfer, Heartbeat};
use antarc_protocol::packets::raw::{Decode, FakeService, RawPacket, ServiceDecode};
use antarc_protocol::packets::{ConnectionId, Packet};
use antarc_protocol::sequence::Sequence;
use antarc_protocol::server::Server;
use antarc_protocol::socket_addr::SocketAddr;
use antarc_protocol::PROTOCOL_ID;

fn address() -> SocketAddr {
    SocketAddr::v4(172, 16, 0, 9, 9000)
}

/// A packet of the earlier layout: the body followed by the checksum of protocol id and body.
fn legacy_bytes(sequence: u32, ack: u32, status: u16, payload: &[u8], connection_id: Option<u16>) -> Vec<u8> {
    let mut body = Vec::new();
    body.extend_from_slice(&sequence.to_be_bytes());
    body.extend_from_slice(&ack.to_be_bytes());
    body.extend_from_slice(&3u16.to_be_bytes());
    body.extend_from_slice(&status.to_be_bytes());
    body.extend_from_slice(&(payload.len() as u16).to_be_bytes());
    body.extend_from_slice(payload);
    if let Some(id) = connection_id {
        body.extend_from_slice(&id.to_be_bytes());
    }
    let mut covered = PROTOCOL_ID.to_be_bytes().to_vec();
    covered.extend_from_slice(&body);
    let crc = crc32fast::hash(&covered);
    body.extend_from_slice(&crc.to_be_bytes());
    body
}

#[test]
fn earlier_layout_data_transfer_decodes() {
    let bytes = legacy_bytes(5, 4, 700, &[9, 8, 7], Some(2));
    let n = bytes.len();
    let crc = u32::from_be_bytes([bytes[n - 4], bytes[n - 3], bytes[n - 2], bytes[n - 1]]);
    assert!(is_legacy_decodable(&bytes));
    let timer = Instant::now();
    let decoded = LegacyPacket::<Received<Generic>>::decode(77, &bytes, address(), &timer);
    let (packet, payload) = decoded.unwrap();
    assert_eq!(packet.id, 77);
    assert_eq!(packet.state.header.info.sequence.get(), 5);
    assert_eq!(packet.state.header.info.ack, 4);
    assert_eq!(packet.state.header.info.past_acks, 3);
    assert_eq!(packet.state.header.info.status_code, 700);
    assert_eq!(packet.state.header.info.payload_length, 3);
    assert_eq!(packet.state.footer.connection_id.map(|c| c.get()), Some(2));
    assert_eq!(packet.state.footer.crc32, crc);
    assert_eq!(packet.state.source, address());
    assert_eq!(payload.0, vec![9, 8, 7]);

    let classified: LegacyPacket<Received<DataTransferKind>> = LegacyPacket::from(packet.clone());
    assert_eq!(classified.id, 77);
    assert_eq!(classified.state.header.info, packet.state.header.info);
    let beat: LegacyPacket<Received<HeartbeatKind>> = LegacyPacket::from(packet);
    assert_eq!(beat.state.source, address());
}

#[test]
fn earlier_layout_connection_request_has_no_connection_id() {
    let bytes = legacy_bytes(1, 0, 100, &[], None);
    let timer = Instant::now();
    let (packet, payload) = LegacyPacket::<Received<Generic>>::decode(0, &bytes, address(), &timer).unwrap();
    assert!(packet.state.footer.connection_id.is_none());
    assert!(payload.0.is_empty());
}

#[test]
fn earlier_layout_zero_connection_id_fails() {
    let bytes = legacy_bytes(1, 0, 600, &[], Some(0));
    let timer = Instant::now();
    let decoded = LegacyPacket::<Received<Generic>>::decode(0, &bytes, address(), &timer);
    assert!(matches!(decoded, Err(ProtocolError::IntConversion)));
}

#[test]
fn earlier_layout_wrong_checksum_fails() {
    let mut bytes = legacy_bytes(1, 0, 700, &[1], Some(1));
    let last = bytes.len() - 1;
    bytes[last] ^= 1;
    let timer = Instant::now();
    let decoded = LegacyPacket::<Received<Generic>>::decode(0, &bytes, address(), &timer);
    assert!(matches!(decoded, Err(ProtocolError::InvalidCrc32 { got, expected }) if got != expected));
}

#[test]
fn earlier_layout_short_packet_is_not_read() {
    let timer = Instant::now();
    assert!(LegacyPacket::<Received<Generic>>::try_decode(0, &[1, 2], address(), &timer).is_none());
    // The payload length claims more bytes than there are.
    let mut bytes = legacy_bytes(1, 0, 700, &[1, 2], Some(1));
    bytes[13] = 200;
    let mut covered = PROTOCOL_ID.to_be_bytes().to_vec();
    covered.extend_from_slice(&bytes[..bytes.len() - 4]);
    let crc = crc32fast::hash(&covered).to_be_bytes();
    let n = bytes.len();
    bytes[n - 4..].copy_from_slice(&crc);
    assert!(!is_legacy_decodable(&bytes));
    assert!(LegacyPacket::<Received<Generic>>::try_decode(0, &bytes, address(), &timer).is_none());
    let good = legacy_bytes(2, 0, 700, &[1], Some(1));
    assert!(matches!(
        LegacyPacket::<Received<Generic>>::try_decode(0, &good, address(), &timer),
        Some(Ok(_))
    ));
}

#[test]
fn decoding_at_another_time_keeps_the_kind() {
    let packet = Packet {
        delivery: ToSend { id: 1, meta: MetaDelivery { time: 0, address: address() } },
        sequence: Sequence::new(2).unwrap(),
        ack: 1,
        message: Heartbeat::new(ConnectionId::new(3).unwrap()),
    };
    let bytes = packet.as_raw::<Server>().bytes;
    let early = RawPacket::<Server>::new(address(), bytes.clone()).decode(1);
    let late = RawPacket::<Server>::new(address(), bytes).decode(1_000_000);
    match (early, late) {
        (Ok(DecodedForServer::Heartbeat { packet: a }), Ok(DecodedForServer::Heartbeat { packet: b })) => {
            assert_eq!(a.delivery.meta.time, 1);
            assert_eq!(b.delivery.meta.time, 1_000_000);
            assert_eq!(a.message, b.message);
        },
        other => panic!("unexpected {:?}", other),
    }
}

#[test]
fn server_checks_what_it_can_handle() {
    let server = antarc_protocol::Protocol::new_server(4, 5);
    let beat = Packet {
        delivery: ToSend { id: 1, meta: MetaDelivery { time: 0, address: address() } },
        sequence: Sequence::new(2).unwrap(),
        ack: 1,
        message: Heartbeat::new(ConnectionId::new(3).unwrap()),
    };
    let raw = beat.as_raw::<Server>();
    assert_eq!(server.service.check_received(&raw), (true, false));
    let request = antarc_protocol::packets::scheduled::Scheduled::connection_request(0, address(), 0)
        .into_packet(Sequence::one(), 0, 0);
    let raw = request.as_raw::<Server>();
    assert_eq!(server.service.check_received(&raw), (true, true));
    assert!(server.service.can_request_from(&address()));
}

#[test]
fn decode_wrappers_pick_the_variant() {
    let delivery = ReceivedDelivery { meta: MetaDelivery { time: 4, address: address() } };
    let transfer = Packet {
        delivery,
        sequence: Sequence::new(2).unwrap(),
        ack: 1,
        message: DataTransfer::new(ConnectionId::new(3).unwrap(), vec![1]),
    };
    assert!(matches!(
        <DecodedForServer as Decode>::data_transfer(transfer.clone()),
        DecodedForServer::DataTransfer { .. }
    ));
    assert!(matches!(
        <DecodedForClient as Decode>::data_transfer(transfer),
        DecodedForClient::DataTransfer { .. }
    ));
    assert_eq!(<FakeService as ServiceDecode>::packet_type().get(), 1);
}

#[test]
fn resend_past_the_threshold_gives_the_packet_back() {
    let mut client = Client::new();
    let server = SocketAddr::v4(127, 0, 0, 1, 1);
    client.connect(server, 0, 10).unwrap();
    let scheduled = client.drain_connection_request(0, 1);
    let packet = client.create_connection_request(scheduled[0].clone(), 20);
    client.sent_connection_request(packet, 30, 5);
    let resent = client.resend_reliable_connection_request(1_000_000_000_000).unwrap();
    assert_eq!(resent.delivery.id, 0);
    assert_eq!(resent.delivery.meta.time, 1_000_000_000_000);
    assert_eq!(resent.delivery.meta.address, server);
    assert_eq!(resent.sequence.get(), 1);
    assert!(client.reliability_handler.service.list_sent_connection_request.is_empty());
}

#[test]
fn broadcast_schedules_chunk_by_chunk_then_peer_by_peer() {
    let mut server = Server::new();
    let a = SocketAddr::v4(10, 0, 0, 1, 1);
    let b = SocketAddr::v4(10, 0, 0, 2, 2);
    let id_a = ConnectionId::new(1).unwrap();
    let id_b = ConnectionId::new(2).unwrap();
    for (id, address) in [(id_a, a), (id_b, b)] {
        let requesting = antarc_protocol::peers::Peer::new(0, address, 1);
        let connected = requesting.await_connection_ack(0).connected(0, id);
        server.connected.insert(id, connected);
    }
    let payload: Vec<u8> = (0..3001u32).map(|i| i as u8).collect();
    let r = server.schedule(
        antarc_protocol::packets::scheduled::ReliabilityType::Unreliable,
        antarc_protocol::peers::SendTo::Broadcast,
        payload.clone(),
        40,
        7,
    );
    assert!(matches!(r, Ok(40)));
    assert!(server.scheduler.list_scheduled_unreliable_fragment.iter().all(|s| s.packet_id == 40));
    let list = &server.scheduler.list_scheduled_unreliable_fragment;
    assert_eq!(list.len(), 6);
    let order: Vec<(u8, u16)> = list.iter().map(|s| (s.message.index, s.message.connection_id.get())).collect();
    assert_eq!(order, vec![(0, 1), (0, 2), (1, 1), (1, 2), (2, 1), (2, 2)]);
    assert!(list.iter().all(|s| s.message.total == 3 && s.packet_id == 40 && s.time == 7));
    let joined: Vec<u8> = list.iter().filter(|s| s.address == a).flat_map(|s| s.message.payload.clone()).collect();
    assert_eq!(joined, payload);
}
