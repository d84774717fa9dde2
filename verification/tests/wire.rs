use antarc_protocol::client::Client;
use antarc_protocol::errors::ProtocolError;
use antarc_protocol::packets::decode::{DecodedForClient, DecodedForServer};
use antarc_protocol::packets::delivery::{MetaDelivery, ToSend};
use antarc_protocol::packets::message::{
    ConnectionAccepted, ConnectionRequest, DataTransfer, Fragment, Heartbeat, MetaMessage,
};
use antarc_protocol::packets::packet_type::PacketType;
use antarc_protocol::packets::raw::RawPacket;
use antarc_protocol::packets::{ConnectionId, Packet, CONNECTION_ACCEPTED, CONNECTION_REQUEST};
use antarc_protocol::sequence::Sequence;
use antarc_protocol::server::Server;
use antarc_protocol::socket_addr::SocketAddr;
use antarc_protocol::PROTOCOL_ID;

fn address() -> SocketAddr {
    SocketAddr::v4(10, 0, 0, 2, 4000)
}

fn to_send(id: u64) -> ToSend {
    ToSend { id, meta: MetaDelivery { time: 5, address: address() } }
}

fn heartbeat_packet() -> Packet<ToSend, Heartbeat> {
    Packet {
        delivery: to_send(3),
        sequence: Sequence::new(7).unwrap(),
        ack: 6,
        message: Heartbeat::new(ConnectionId::new(0x0102).unwrap()),
    }
}

#[test]
fn heartbeat_bytes_are_header_then_checksum() {
    let raw = heartbeat_packet().as_raw::<Server>();
    assert_eq!(raw.address, address());
    let bytes = raw.bytes;
    assert_eq!(bytes.len(), 4 + 4 + 1 + 2 + 4);
    assert_eq!(&bytes[..11], &[0, 0, 0, 7, 0, 0, 0, 6, 5, 1, 2]);
    let mut covered = PROTOCOL_ID.to_be_bytes().to_vec();
    covered.extend_from_slice(&bytes[..11]);
    assert_eq!(&bytes[11..], &crc32fast::hash(&covered).to_be_bytes());
}

#[test]
fn heartbeat_round_trips_at_server() {
    let bytes = heartbeat_packet().as_raw::<Server>().bytes;
    let raw = RawPacket::<Server>::new(address(), bytes);
    assert!(raw.is_decodable());
    match raw.decode(42) {
        Ok(DecodedForServer::Heartbeat { packet }) => {
            assert_eq!(packet.sequence.get(), 7);
            assert_eq!(packet.ack, 6);
            assert_eq!(packet.delivery.meta.time, 42);
            assert_eq!(packet.delivery.meta.address, address());
            assert_eq!(packet.message.connection_id.get(), 0x0102);
        },
        other => panic!("unexpected {:?}", other),
    }
}

#[test]
fn data_transfer_round_trips_at_client() {
    let packet = Packet {
        delivery: to_send(1),
        sequence: Sequence::new(9).unwrap(),
        ack: 2,
        message: DataTransfer::new(ConnectionId::new(4).unwrap(), vec![10, 20, 30]),
    };
    let bytes = packet.as_raw::<Client>().bytes;
    match RawPacket::<Client>::new(address(), bytes).decode(1) {
        Ok(DecodedForClient::DataTransfer { packet }) => {
            assert_eq!(packet.sequence.get(), 9);
            assert_eq!(packet.ack, 2);
            assert_eq!(packet.message.connection_id.get(), 4);
            assert_eq!(packet.message.payload, vec![10u8, 20, 30]);
        },
        other => panic!("unexpected {:?}", other),
    }
}

#[test]
fn fragment_round_trips_at_client() {
    let packet = Packet {
        delivery: to_send(1),
        sequence: Sequence::new(3).unwrap(),
        ack: 0,
        message: Fragment::new(ConnectionId::new(2).unwrap(), vec![1, 1], 1, 4),
    };
    let bytes = packet.as_raw::<Client>().bytes;
    assert_eq!(bytes.len(), 4 + 4 + 1 + 1 + 1 + 2 + 2 + 4);
    match RawPacket::<Client>::new(address(), bytes).decode(0) {
        Ok(DecodedForClient::Fragment { packet }) => {
            assert_eq!(packet.message.index, 1);
            assert_eq!(packet.message.total, 4);
            assert_eq!(packet.message.payload, vec![1u8, 1]);
        },
        other => panic!("unexpected {:?}", other),
    }
}

#[test]
fn connection_request_round_trips_at_server_only() {
    let packet = Packet {
        delivery: to_send(0),
        sequence: Sequence::new(1).unwrap(),
        ack: 0,
        message: ConnectionRequest {
            meta: MetaMessage { packet_type: PacketType::new(CONNECTION_REQUEST).unwrap() },
        },
    };
    let bytes = packet.as_raw::<Server>().bytes;
    assert_eq!(bytes.len(), 13);
    let at_server = RawPacket::<Server>::new(address(), bytes.clone()).decode(0);
    assert!(matches!(at_server, Ok(DecodedForServer::ConnectionRequest { .. })));
    let at_client = RawPacket::<Client>::new(address(), bytes).decode(0);
    assert!(matches!(at_client, Err(ProtocolError::InvalidPacketType(t)) if t.get() == CONNECTION_REQUEST));
}

#[test]
fn connection_accepted_is_refused_at_server() {
    let packet = Packet {
        delivery: to_send(0),
        sequence: Sequence::new(1).unwrap(),
        ack: 1,
        message: ConnectionAccepted {
            meta: MetaMessage { packet_type: PacketType::new(CONNECTION_ACCEPTED).unwrap() },
            connection_id: ConnectionId::new(5).unwrap(),
        },
    };
    let bytes = packet.as_raw::<Client>().bytes;
    let at_client = RawPacket::<Client>::new(address(), bytes.clone()).decode(0);
    match at_client {
        Ok(DecodedForClient::ConnectionAccepted { packet }) => {
            assert_eq!(packet.message.connection_id.get(), 5)
        },
        other => panic!("unexpected {:?}", other),
    }
    let at_server = RawPacket::<Server>::new(address(), bytes).decode(0);
    assert!(matches!(at_server, Err(ProtocolError::InvalidPacketType(t)) if t.get() == CONNECTION_ACCEPTED));
}

#[test]
fn corrupted_byte_fails_the_checksum() {
    let mut bytes = heartbeat_packet().as_raw::<Server>().bytes;
    bytes[8] ^= 0xff;
    let stored = u32::from_be_bytes([bytes[11], bytes[12], bytes[13], bytes[14]]);
    let mut covered = PROTOCOL_ID.to_be_bytes().to_vec();
    covered.extend_from_slice(&bytes[..11]);
    let expected = crc32fast::hash(&covered);
    let raw = RawPacket::<Server>::new(address(), bytes);
    assert!(raw.is_decodable());
    match raw.decode(0) {
        Err(ProtocolError::InvalidCrc32 { got, expected: e }) => {
            assert_eq!(got, stored);
            assert_eq!(e, expected);
            assert_ne!(got, e);
        },
        other => panic!("unexpected {:?}", other),
    }
}

#[test]
fn zero_sequence_is_a_conversion_error() {
    let mut body = vec![0, 0, 0, 0, 0, 0, 0, 0, 5, 0, 1];
    let mut covered = PROTOCOL_ID.to_be_bytes().to_vec();
    covered.extend_from_slice(&body);
    body.extend_from_slice(&crc32fast::hash(&covered).to_be_bytes());
    let decoded = RawPacket::<Server>::new(address(), body).decode(0);
    assert!(matches!(decoded, Err(ProtocolError::IntConversion)));
}

#[test]
fn unknown_packet_type_is_refused() {
    let mut body = vec![0, 0, 0, 1, 0, 0, 0, 0, 9, 0, 1];
    let mut covered = PROTOCOL_ID.to_be_bytes().to_vec();
    covered.extend_from_slice(&body);
    body.extend_from_slice(&crc32fast::hash(&covered).to_be_bytes());
    let decoded = RawPacket::<Server>::new(address(), body).decode(0);
    assert!(matches!(decoded, Err(ProtocolError::PacketTypeConversion(9))));
}

#[test]
fn packet_too_short_for_its_kind_is_not_decodable() {
    // A heartbeat without its connection id, but with a valid checksum.
    let mut body = vec![0, 0, 0, 1, 0, 0, 0, 0, 5];
    let mut covered = PROTOCOL_ID.to_be_bytes().to_vec();
    covered.extend_from_slice(&body);
    body.extend_from_slice(&crc32fast::hash(&covered).to_be_bytes());
    assert!(!RawPacket::<Server>::new(address(), body).is_decodable());
    assert!(!RawPacket::<Server>::new(address(), vec![1, 2, 3]).is_decodable());
    let mut server = antarc_protocol::Protocol::new_server(4, 1);
    assert!(server.receive(RawPacket::new(address(), vec![1, 2, 3])).is_none());
    let mut client = antarc_protocol::Protocol::new_client();
    assert!(client.receive(RawPacket::new(address(), vec![])).is_none());
}

#[test]
fn garbage_with_wrong_checksum_is_decodable_and_refused() {
    let raw = RawPacket::<Client>::new(address(), vec![1, 2, 3, 4, 5]);
    assert!(raw.is_decodable());
    assert!(matches!(raw.decode(0), Err(ProtocolError::InvalidCrc32 { .. })));
}

#[test]
fn sent_packet_keeps_its_fields_and_ttl() {
    let sent = heartbeat_packet().sent(100, 7);
    assert_eq!(sent.delivery.id, 3);
    assert_eq!(sent.delivery.ttl, 7);
    assert_eq!(sent.delivery.meta.time, 100);
    assert_eq!(sent.delivery.meta.address, address());
    assert_eq!(sent.sequence.get(), 7);
    assert_eq!(sent.ack, 6);
}
