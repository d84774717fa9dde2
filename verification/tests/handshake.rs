use antarc_protocol::client::Client;
use antarc_protocol::errors::ProtocolError;
use antarc_protocol::events::{ClientEvent, ProtocolEvent, ServerEvent};
use antarc_protocol::packets::raw::RawPacket;
use antarc_protocol::packets::scheduled::ReliabilityType;
use antarc_protocol::packets::ConnectionId;
use antarc_protocol::peers::SendTo;
use antarc_protocol::server::Server;
use antarc_protocol::socket_addr::SocketAddr;
use antarc_protocol::Protocol;

fn server_address() -> SocketAddr {
    SocketAddr::v4(127, 0, 0, 1, 8888)
}

fn client_address() -> SocketAddr {
    SocketAddr::v4(127, 0, 0, 1, 7777)
}

/// Runs the handshake: the client asks, the server accepts, the client takes the acceptance.
fn handshake() -> (Protocol<Client>, Protocol<Server>) {
    let mut client = Protocol::new_client();
    let mut server = Protocol::new_server(32, 2_000_000_000);

    client.connect(server_address()).unwrap();
    let count = client.service.scheduler.service.list_scheduled_connection_request.len();
    let requests = client.service.drain_connection_request(0, count);
    assert_eq!(requests.len(), 1);
    let request = client.create_connection_request(requests[0].clone());
    let bytes = request.as_raw::<Server>().bytes;
    client.sent_connection_request(request);

    let received = server.receive(RawPacket::new(client_address(), bytes));
    assert!(matches!(received, Some(Ok(()))));

    let count = server.service.scheduler.service.list_scheduled_connection_accepted.len();
    let accepted = server.service.drain_connection_accepted(0, count);
    assert_eq!(accepted.len(), 1);
    let packet = server.create_connection_accepted(accepted[0].clone());
    let bytes = packet.as_raw::<Client>().bytes;
    server.sent_connection_accepted(packet);

    let received = client.receive(RawPacket::new(server_address(), bytes));
    assert!(matches!(received, Some(Ok(()))));
    (client, server)
}

#[test]
fn connect_schedules_one_connection_request() {
    let mut client = Protocol::new_client();
    assert!(client.connect(server_address()).is_ok());
    assert_eq!(client.packet_id_tracker, 1);
    assert_eq!(client.service.requesting_connection.len(), 1);
    let scheduled = &client.service.scheduler.service.list_scheduled_connection_request;
    assert_eq!(scheduled.len(), 1);
    assert_eq!(scheduled[0].packet_id, 0);
    assert_eq!(scheduled[0].address, server_address());
}

#[test]
fn connecting_twice_to_the_same_peer_fails() {
    let mut client = Protocol::new_client();
    client.connect(server_address()).unwrap();
    let second = client.connect(server_address());
    assert!(matches!(second, Err(ProtocolError::AlreadyConnectingToPeer(a)) if a == server_address()));
    assert_eq!(client.packet_id_tracker, 1);
    assert_eq!(client.service.scheduler.service.list_scheduled_connection_request.len(), 1);
}

#[test]
fn sent_connection_request_moves_peer_to_awaiting_ack() {
    let mut client = Protocol::new_client();
    client.connect(server_address()).unwrap();
    let requests = client.service.drain_connection_request(0, 1);
    let request = client.create_connection_request(requests[0].clone());
    assert_eq!(request.sequence.get(), 1);
    client.sent_connection_request(request);
    assert_eq!(client.service.requesting_connection.len(), 0);
    assert_eq!(client.service.awaiting_connection_ack.len(), 1);
    let peer = client.service.awaiting_connection_ack.get(&server_address()).unwrap();
    assert_eq!(peer.sequence_tracker.get(), 2);
    assert_eq!(client.service.reliability_handler.service.list_sent_connection_request.len(), 1);
}

#[test]
fn handshake_connects_both_sides() {
    let (client, server) = handshake();
    let id = ConnectionId::new(1).unwrap();
    assert_eq!(client.service.connected.len(), 1);
    assert!(client.service.connected.get(&id).is_some());
    assert_eq!(client.service.awaiting_connection_ack.len(), 0);
    assert_eq!(server.service.requesting_connection.len(), 0);
    assert_eq!(server.service.awaiting_connection_ack.len(), 1);
    let awaiting = server.service.awaiting_connection_ack.get(&id).unwrap();
    assert_eq!(awaiting.address, client_address());
    assert_eq!(awaiting.remote_ack_tracker, 1);
    assert_eq!(server.service.connection_id_tracker.get(), 2);
    assert_eq!(server.packet_id_tracker, 1);
}

#[test]
fn data_transfer_after_handshake_reaches_server_user() {
    let (mut client, mut server) = handshake();
    let id = ConnectionId::new(1).unwrap();
    let scheduled = client.schedule(
        ReliabilityType::Reliable,
        SendTo::Single { connection_id: id },
        vec![1, 2, 3],
    );
    assert!(matches!(scheduled, Ok(1)));
    assert_eq!(client.packet_id_tracker, 2);

    let transfers = client.drain_reliable_data_transfer(0, 1);
    assert_eq!(transfers.len(), 1);
    assert_eq!(transfers[0].packet_id, 1);
    let packet = client.create_reliable_data_transfer(transfers[0].clone());
    let bytes = packet.as_raw::<Server>().bytes;
    client.sent_data_transfer(packet, ReliabilityType::Reliable);
    assert_eq!(client.service.reliability_handler.list_sent_reliable_data_transfer.len(), 1);

    let received = server.receive(RawPacket::new(client_address(), bytes));
    assert!(matches!(received, Some(Ok(()))));
    assert_eq!(server.service.connected.len(), 1);
    assert_eq!(server.service.awaiting_connection_ack.len(), 0);

    let events = server.poll();
    assert_eq!(events.len(), 1);
    match &events[0] {
        ProtocolEvent::<ServerEvent>::DataTransfer { connection_id, payload } => {
            assert_eq!(*connection_id, id);
            assert_eq!(payload, &vec![1u8, 2, 3]);
        },
        other => panic!("unexpected event {:?}", other),
    }
    assert!(server.poll().is_empty());
}

#[test]
fn server_schedules_to_connected_client() {
    let (mut client, mut server) = handshake();
    let id = ConnectionId::new(1).unwrap();
    // The server's peer becomes connected once it hears from the client.
    let beat_id = client.heartbeat(ReliabilityType::Unreliable, SendTo::Broadcast).unwrap();
    assert_eq!(beat_id, 1);
    let beats = client.drain_unreliable_heartbeat(0, 1);
    assert_eq!(beats[0].packet_id, 1);
    let beat = client.create_unreliable_heartbeat(beats[0].clone());
    let bytes = beat.as_raw::<Server>().bytes;
    client.sent_heartbeat(beat, ReliabilityType::Unreliable);
    assert!(matches!(server.receive(RawPacket::new(client_address(), bytes)), Some(Ok(()))));
    assert_eq!(server.service.connected.len(), 1);
    assert!(server.poll().is_empty());

    let scheduled = server.schedule(ReliabilityType::Unreliable, SendTo::Broadcast, vec![9, 8]);
    assert!(matches!(scheduled, Ok(1)));
    assert_eq!(server.packet_id_tracker, 2);
    let transfers = server.drain_unreliable_data_transfer(0, 1);
    assert_eq!(transfers[0].packet_id, 1);
    let packet = server.create_unreliable_data_transfer(transfers[0].clone());
    assert_eq!(packet.delivery.meta.address, client_address());
    let bytes = packet.as_raw::<Client>().bytes;
    server.sent_data_transfer(packet, ReliabilityType::Unreliable);
    assert!(server.service.reliability_handler.list_sent_reliable_data_transfer.is_empty());

    assert!(matches!(client.receive(RawPacket::new(server_address(), bytes)), Some(Ok(()))));
    let connected = client.service.connected.get(&id).unwrap();
    assert_eq!(connected.remote_ack_tracker, 2);
    // A data transfer from an already connected peer only updates its acks.
    assert!(client.poll().is_empty());
}

#[test]
fn fragmented_payload_reassembles_in_full() {
    let (mut client, mut server) = handshake();
    let id = ConnectionId::new(1).unwrap();
    client.heartbeat(ReliabilityType::Unreliable, SendTo::Broadcast).unwrap();
    let beats = client.drain_unreliable_heartbeat(0, 1);
    let beat = client.create_unreliable_heartbeat(beats[0].clone());
    let bytes = beat.as_raw::<Server>().bytes;
    client.sent_heartbeat(beat, ReliabilityType::Unreliable);
    server.receive(RawPacket::new(client_address(), bytes));

    // 1483 bytes fit in one fragment, so 3000 bytes make three fragments.
    let payload: Vec<u8> = (0..3000u32).map(|i| (i % 251) as u8).collect();
    assert!(server.schedule(ReliabilityType::Reliable, SendTo::Single { connection_id: id }, payload.clone()).is_ok());
    let fragments = server.drain_reliable_fragment(0, 3);
    assert_eq!(fragments.len(), 3);
    assert!(server.service.scheduler.list_scheduled_reliable_fragment.is_empty());
    let sizes: Vec<usize> = fragments.iter().map(|f| f.message.payload.len()).collect();
    assert_eq!(sizes, vec![1483, 1483, 34]);
    let mut wire = Vec::new();
    for (index, scheduled) in fragments.into_iter().enumerate() {
        assert_eq!(scheduled.message.index as usize, index);
        assert_eq!(scheduled.message.total, 3);
        let packet = server.create_reliable_fragment(scheduled);
        wire.push(packet.as_raw::<Client>().bytes);
        server.sent_fragment(packet, ReliabilityType::Reliable);
    }
    // The fragments arrive out of order: the last part first.
    for position in [2, 0, 1] {
        let bytes = wire[position].clone();
        assert!(matches!(client.receive(RawPacket::new(server_address(), bytes)), Some(Ok(()))));
    }
    assert_eq!(server.service.reliability_handler.list_sent_reliable_fragment.len(), 3);
    let events = client.poll();
    assert_eq!(events.len(), 1);
    match &events[0] {
        ProtocolEvent::<ClientEvent>::DataTransfer { connection_id, payload: joined } => {
            assert_eq!(*connection_id, id);
            assert_eq!(joined.as_slice(), &payload[..]);
        },
        other => panic!("unexpected event {:?}", other),
    }
}

#[test]
fn fragment_for_unknown_peer_is_an_error() {
    let (mut client, mut server) = handshake();
    client.heartbeat(ReliabilityType::Unreliable, SendTo::Broadcast).unwrap();
    let beats = client.drain_unreliable_heartbeat(0, 1);
    let beat = client.create_unreliable_heartbeat(beats[0].clone());
    let bytes = beat.as_raw::<Server>().bytes;
    server.receive(RawPacket::new(client_address(), bytes));
    let payload: Vec<u8> = vec![7; 2000];
    server.schedule(ReliabilityType::Unreliable, SendTo::Broadcast, payload).unwrap();
    let fragments = server.drain_unreliable_fragment(0, 2);
    let packet = server.create_unreliable_fragment(fragments[0].clone());
    let bytes = packet.as_raw::<Client>().bytes;
    let mut stranger = Protocol::new_client();
    let received = stranger.receive(RawPacket::new(server_address(), bytes));
    assert!(matches!(received, Some(Err(ProtocolError::NoPeersConnected))));
}

#[test]
fn server_refuses_fragments_it_cannot_handle() {
    let (mut client, mut server) = handshake();
    let id = ConnectionId::new(1).unwrap();
    client.schedule(ReliabilityType::Unreliable, SendTo::Single { connection_id: id }, vec![5; 1600]).unwrap();
    let fragments = client.drain_unreliable_fragment(0, 2);
    assert_eq!(fragments.len(), 2);
    let packet = client.create_unreliable_fragment(fragments[0].clone());
    let bytes = packet.as_raw::<Server>().bytes;
    let before = server.service.connected.len();
    assert!(server.receive(RawPacket::new(client_address(), bytes)).is_none());
    assert_eq!(server.service.connected.len(), before);
}

#[test]
fn scheduling_without_peers_fails() {
    let mut client = Protocol::new_client();
    let r = client.schedule(ReliabilityType::Reliable, SendTo::Broadcast, vec![1]);
    assert!(matches!(r, Err(ProtocolError::NoPeersConnected)));
    let r = client.heartbeat(ReliabilityType::Reliable, SendTo::Broadcast);
    assert!(matches!(r, Err(ProtocolError::NoPeersConnected)));
    assert_eq!(client.packet_id_tracker, 0);
}

#[test]
fn scheduling_for_unknown_peer_fails() {
    let (mut client, _server) = handshake();
    let unknown = ConnectionId::new(9).unwrap();
    let r = client.schedule(ReliabilityType::Reliable, SendTo::Single { connection_id: unknown }, vec![1]);
    assert!(matches!(r, Err(ProtocolError::ScheduledNotConnected(c)) if c == unknown));
    let r = client.heartbeat(ReliabilityType::Reliable, SendTo::Single { connection_id: unknown });
    assert!(matches!(r, Err(ProtocolError::ScheduledNotConnected(c)) if c == unknown));
    // An empty payload has no chunk, so nothing is scheduled and nothing fails.
    let r = client.schedule(ReliabilityType::Reliable, SendTo::Single { connection_id: unknown }, vec![]);
    assert!(matches!(r, Ok(1)));
    assert_eq!(client.packet_id_tracker, 2);
    assert!(client.service.scheduler.list_scheduled_reliable_data_transfer.is_empty());
}

#[test]
fn connection_request_from_banned_address_is_refused() {
    let mut client = Protocol::new_client();
    let mut server = Protocol::new_server(8, 1_000_000_000);
    server.service.ban_list.push(client_address());
    client.connect(server_address()).unwrap();
    let requests = client.service.drain_connection_request(0, 1);
    let request = client.create_connection_request(requests[0].clone());
    let bytes = request.as_raw::<Server>().bytes;
    let received = server.receive(RawPacket::new(client_address(), bytes));
    assert!(matches!(received, Some(Err(ProtocolError::Banned(a))) if a == client_address()));
    assert_eq!(server.service.requesting_connection.len(), 0);
    assert_eq!(server.packet_id_tracker, 0);
}

#[test]
fn repeated_connection_request_from_awaiting_peer_is_refused() {
    let mut client = Protocol::new_client();
    let mut server = Protocol::new_server(8, 1_000_000_000);
    client.connect(server_address()).unwrap();
    let requests = client.service.drain_connection_request(0, 1);
    let request = client.create_connection_request(requests[0].clone());
    let bytes = request.as_raw::<Server>().bytes;
    assert!(matches!(server.receive(RawPacket::new(client_address(), bytes.clone())), Some(Ok(()))));
    let again = server.receive(RawPacket::new(client_address(), bytes));
    assert!(matches!(again, Some(Err(ProtocolError::PeerInAnotherState(a))) if a == client_address()));
    assert_eq!(server.service.connection_id_tracker.get(), 2);
}

#[test]
fn retry_of_recent_connection_accepted_keeps_it() {
    let (_client, mut server) = handshake();
    let count = server.service.reliability_handler.service.list_sent_connection_accepted.len();
    assert_eq!(count, 1);
    let retried = server.retry_reliable_connection_accepted();
    // The packet was sent moments ago, far below the retry threshold: it stays where it is.
    assert!(retried.is_none());
    assert_eq!(server.service.reliability_handler.service.list_sent_connection_accepted.len(), 1);
}

#[test]
fn retry_of_recent_reliable_packet_keeps_it() {
    let (mut client, _server) = handshake();
    let id = ConnectionId::new(1).unwrap();
    client.schedule(ReliabilityType::Reliable, SendTo::Single { connection_id: id }, vec![4, 4]).unwrap();
    let transfers = client.drain_reliable_data_transfer(0, 1);
    let packet = client.create_reliable_data_transfer(transfers[0].clone());
    client.sent_data_transfer(packet, ReliabilityType::Reliable);
    assert_eq!(client.service.reliability_handler.list_sent_reliable_data_transfer.len(), 1);
    assert!(client.retry_reliable_data_transfer().is_none());
    assert_eq!(client.service.reliability_handler.list_sent_reliable_data_transfer.len(), 1);
    assert!(client.retry_reliable_data_transfer().is_none());
    assert_eq!(client.service.reliability_handler.list_sent_reliable_data_transfer.len(), 1);
    assert!(client.resend_reliable_connection_request().is_none());
    assert_eq!(client.service.reliability_handler.service.list_sent_connection_request.len(), 1);
    assert!(client.retry_reliable_fragment().is_none());
    assert!(client.retry_reliable_heartbeat().is_none());
}

#[test]
fn poll_keeps_reliable_packets_within_their_time_to_live() {
    let (mut client, _server) = handshake();
    let id = ConnectionId::new(1).unwrap();
    client.schedule(ReliabilityType::Reliable, SendTo::Single { connection_id: id }, vec![1]).unwrap();
    client.schedule(ReliabilityType::Reliable, SendTo::Single { connection_id: id }, vec![2]).unwrap();
    let transfers = client.drain_reliable_data_transfer(0, 2);
    assert_eq!(transfers.len(), 2);
    for scheduled in transfers {
        let packet = client.create_reliable_data_transfer(scheduled);
        client.sent_data_transfer(packet, ReliabilityType::Reliable);
    }
    assert_eq!(client.service.reliability_handler.list_sent_reliable_data_transfer.len(), 2);
    // The client keeps reliable packets for two seconds; far less has passed.
    client.poll();
    let left = &client.service.reliability_handler.list_sent_reliable_data_transfer;
    assert_eq!(left.len(), 2);
    assert_eq!(left[0].message.payload, vec![1u8]);
    assert_eq!(left[1].message.payload, vec![2u8]);
    assert_eq!(client.service.reliability_handler.service.list_sent_connection_request.len(), 1);
    // Once their time to live has passed, every one of them goes.
    client.service.reliability_handler.poll(1_000 * 1_000_000_000);
    assert!(client.service.reliability_handler.list_sent_reliable_data_transfer.is_empty());
    assert!(client.service.reliability_handler.service.list_sent_connection_request.is_empty());
}
