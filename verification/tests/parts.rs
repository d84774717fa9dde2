use antarc_protocol::connection::ConnectionSystem;
use antarc_protocol::events::{ProtocolEvent, ServerEvent};
use antarc_protocol::errors::ProtocolError;
use antarc_protocol::legacy::hosts::{AwaitingConnectionAck, Host, CONNECTION_TIMEOUT_THRESHOLD, RESEND_TIMEOUT_THRESHOLD};
use antarc_protocol::packet::header::{ConnectionAccepted, ConnectionRequest, DataTransfer, Header, Heartbeat};
use antarc_protocol::packet::kind::PacketKind;
use antarc_protocol::packet::{StatusCode, CONNECTION_ACCEPTED, CONNECTION_REQUEST, DATA_TRANSFER, HEARTBEAT};
use antarc_protocol::packets::message::Fragment as FragmentMessage;
use antarc_protocol::packets::packet_type::PacketType;
use antarc_protocol::packets::scheduled::Scheduled;
use antarc_protocol::packets::ConnectionId;
use antarc_protocol::payload::{chunk_bytes, Fragment, Payload, FRAGMENT_SIZE};
use antarc_protocol::peers::Peer;
use antarc_protocol::readiness::{check_readiness, ReadinessEvent};
use antarc_protocol::sequence::Sequence;
use antarc_protocol::socket_addr::SocketAddr;
use antarc_protocol::table::Table;

#[test]
fn small_payload_stays_whole() {
    let payload = Payload(vec![1; FRAGMENT_SIZE]);
    assert_eq!(payload.len(), 1500);
    assert!(!payload.should_fragment());
    match payload.fragment() {
        Fragment::Single(p) => assert_eq!(p.0.len(), 1500),
        other => panic!("unexpected {:?}", other),
    }
}

#[test]
fn large_payload_is_cut_in_fragment_sized_parts() {
    let bytes: Vec<u8> = (0..3100u32).map(|i| i as u8).collect();
    let payload = Payload(bytes.clone());
    assert!(payload.should_fragment());
    match payload.fragment() {
        Fragment::Multiple(parts) => {
            let sizes: Vec<usize> = parts.iter().map(|p| p.0.len()).collect();
            assert_eq!(sizes, vec![1500, 1500, 100]);
            let joined: Vec<u8> = parts.into_iter().flat_map(|p| p.0).collect();
            assert_eq!(joined, bytes);
        },
        other => panic!("unexpected {:?}", other),
    }
}

#[test]
fn chunks_of_empty_bytes_are_none() {
    assert!(chunk_bytes(&[], 4).is_empty());
    assert_eq!(chunk_bytes(&[1, 2, 3, 4, 5], 2), vec![vec![1, 2], vec![3, 4], vec![5]]);
}

#[test]
fn sequence_next_counts_up() {
    let one = Sequence::one();
    assert_eq!(one.get(), 1);
    assert_eq!(one.next().get(), 2);
    assert!(Sequence::new(0).is_none());
    assert_eq!(Sequence::new_unchecked(5).get(), 5);
}

#[test]
fn packet_type_bytes_round_trip() {
    let t = PacketType::new(3).unwrap();
    assert_eq!(t.get(), 3);
    assert_eq!(t.to_be_bytes(), [3]);
    assert_eq!(PacketType::from_be_bytes([4]), 4);
    assert!(PacketType::new(0).is_none());
    assert!(PacketType::new(6).is_none());
    assert!(matches!(PacketType::try_from(200), Err(ProtocolError::PacketTypeConversion(200))));
}

#[test]
fn fragment_counts_wrap_in_a_byte() {
    let f = FragmentMessage::new(ConnectionId::new(1).unwrap(), vec![0], 300, 301);
    assert_eq!(f.index, 44);
    assert_eq!(f.total, 45);
}

#[test]
fn scheduled_connection_request_is_reliable_and_typed() {
    let address = SocketAddr::v4(1, 2, 3, 4, 5);
    let s = Scheduled::connection_request(11, address, 99);
    assert_eq!(s.packet_id, 11);
    assert_eq!(s.address, address);
    assert_eq!(s.time, 99);
    assert_eq!(s.message.meta.packet_type.get(), 1);
    let packet = s.into_packet(Sequence::new(4).unwrap(), 8, 120);
    assert_eq!(packet.delivery.id, 11);
    assert_eq!(packet.delivery.meta.time, 120);
    assert_eq!(packet.sequence.get(), 4);
    assert_eq!(packet.ack, 8);
}

#[test]
fn socket_address_v4_packs_octets() {
    let a = SocketAddr::v4(192, 168, 0, 1, 80);
    assert_eq!(a.ip, 0xc0a8_0001);
    assert_eq!(a.port, 80);
    assert!(!a.is_ipv6);
}

#[test]
fn table_insert_replaces_and_remove_keeps_order() {
    let mut t: Table<ConnectionId, u32> = Table::with_capacity(4);
    let a = ConnectionId::new(1).unwrap();
    let b = ConnectionId::new(2).unwrap();
    let c = ConnectionId::new(3).unwrap();
    assert!(t.insert(a, 10).is_none());
    assert!(t.insert(b, 20).is_none());
    assert!(t.insert(c, 30).is_none());
    assert_eq!(t.insert(b, 21), Some(20));
    assert_eq!(t.len(), 3);
    assert_eq!(*t.get(&b).unwrap(), 21);
    assert_eq!(t.entry(1).0, b);
    assert_eq!(t.remove(&a), Some(10));
    assert!(t.get(&a).is_none());
    assert_eq!(t.entry(0).0, b);
    assert_eq!(t.entry(1).0, c);
    assert!(t.remove(&a).is_none());
    assert!(!t.is_empty());
}

#[test]
fn event_from_error_is_a_failure() {
    let e: ProtocolEvent<ServerEvent> = ProtocolEvent::from(ProtocolError::NoPeersConnected);
    assert!(matches!(e, ProtocolEvent::Fail(ProtocolError::NoPeersConnected)));
}

#[test]
fn readiness_follows_the_events() {
    let none = check_readiness(&vec![], 0);
    assert!(none.0.is_none() && none.1.is_none());
    let events = vec![
        ReadinessEvent { token: 0, readable: false, writable: true },
        ReadinessEvent { token: 0, readable: true, writable: false },
    ];
    let (readable, writable) = check_readiness(&events, 0);
    assert!(readable.is_some());
    assert!(writable.is_some());
    let only_write = vec![ReadinessEvent { token: 7, readable: false, writable: true }];
    let (readable, writable) = check_readiness(&only_write, 7);
    assert!(readable.is_none());
    assert!(writable.is_some());
}

#[test]
fn earlier_headers_carry_their_status_codes() {
    let request = Header::<ConnectionRequest>::connection_request();
    assert_eq!(request.info.sequence.get(), 1);
    assert_eq!(request.info.status_code, 100);
    assert_eq!(request.info.ack, 0);
    let accepted = Header::<ConnectionAccepted>::connection_accepted(9);
    assert_eq!(accepted.info.ack, 9);
    assert_eq!(accepted.info.status_code, 400);
    let transfer = Header::<DataTransfer>::data_transfer(Sequence::new(3).unwrap(), 2, 77);
    assert_eq!(transfer.info.payload_length, 77);
    assert_eq!(transfer.info.status_code, 700);
    let beat = Header::<Heartbeat>::heartbeat(Sequence::new(3).unwrap(), 2);
    assert_eq!(beat.info.status_code, HEARTBEAT);
    assert_ne!(beat.info.status_code, DATA_TRANSFER);
    assert_eq!(beat.info.payload_length, 0);
    assert_eq!(beat.clone().info, beat.info);
}

#[test]
fn header_kinds_give_status_codes() {
    assert_eq!(StatusCode::from(ConnectionRequest), CONNECTION_REQUEST);
    assert_eq!(StatusCode::from(ConnectionAccepted), CONNECTION_ACCEPTED);
    assert_eq!(StatusCode::from(DataTransfer), 700);
    assert_eq!(StatusCode::from(Heartbeat), HEARTBEAT);
    assert_eq!(PacketKind::Ack(3), PacketKind::Ack(3));
}

#[test]
fn earlier_host_connects_keeping_its_trackers() {
    let address = SocketAddr::v4(127, 0, 0, 1, 1);
    let host = Host::new(address);
    assert_eq!(host.sequence_tracker.get(), 1);
    assert_eq!(host.remote_ack_tracker, 1);
    assert_eq!(host.local_ack_tracker, 0);
    assert_eq!(host.state.attempts, 0);
    let awaiting = Host {
        sequence_tracker: Sequence::new(4).unwrap(),
        remote_ack_tracker: 5,
        local_ack_tracker: 6,
        address,
        state: AwaitingConnectionAck { attempts: 2 },
    };
    let connected = awaiting.connected(ConnectionId::new(8).unwrap());
    assert_eq!(connected.sequence_tracker.get(), 4);
    assert_eq!(connected.remote_ack_tracker, 5);
    assert_eq!(connected.local_ack_tracker, 6);
    assert_eq!(connected.state.connection_id.get(), 8);
    assert_eq!(connected.state.rtt, 0);
    assert_eq!(RESEND_TIMEOUT_THRESHOLD, 500_000_000);
    assert_eq!(CONNECTION_TIMEOUT_THRESHOLD, 2_000_000_000);
}

#[test]
fn connection_system_finds_peers_by_address() {
    let mut system = ConnectionSystem::new(4);
    assert!(system.is_empty());
    let address = SocketAddr::v4(127, 0, 0, 1, 2);
    let other = SocketAddr::v4(127, 0, 0, 1, 3);
    system.requesting_connection.insert(address, Peer::new(0, address, 1));
    assert!(system.already_requesting_connection(&address));
    assert!(!system.already_requesting_connection(&other));
    assert!(!system.already_awaiting_connection_ack(&address));
    assert!(!system.already_connected(&address));
    // Empty while any of the three states has no peer.
    assert!(system.is_empty());
    let default = ConnectionSystem::default();
    assert_eq!(default.packet_id_tracker, 0);
}

#[test]
fn packet_type_converts_to_its_code() {
    let t = PacketType::new(5).unwrap();
    assert_eq!(u8::from(t), 5);
}

#[test]
fn payload_derefs_to_its_bytes() {
    let payload = Payload(vec![4, 5, 6]);
    assert_eq!(payload.first(), Some(&4));
    assert_eq!(payload.as_slice(), &[4, 5, 6]);
}
