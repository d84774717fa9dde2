//! The peers of one side of the protocol, in each state of their connection.
use vstd::prelude::*;

use crate::packets::{ConnectionId, PacketId};
use crate::peers::{find_address, has_peer_at, AwaitingConnectionAck, Connected, Peer, RequestingConnection};
use crate::socket_addr::SocketAddr;
use crate::table::Table;

verus! {

/// The id the next packet gets, and the peers that request a connection (by address), that
/// wait for their connection ack and that are connected (by connection id).
#[derive(Debug)]
pub struct ConnectionSystem {
    pub packet_id_tracker: PacketId,
    pub requesting_connection: Table<SocketAddr, Peer<RequestingConnection>>,
    pub awaiting_connection_ack: Table<ConnectionId, Peer<AwaitingConnectionAck>>,
    pub connected: Table<ConnectionId, Peer<Connected>>,
}

impl Default for ConnectionSystem {
    /// A system with no peers and room for 32 in each state.
    fn default() -> (r: Self)
        ensures
            r.packet_id_tracker == 0,
            r.requesting_connection@.len() == 0,
            r.awaiting_connection_ack@.len() == 0,
            r.connected@.len() == 0,
    {
        Self::new(32)
    }
}

impl ConnectionSystem {
    /// A system with no peers, packet ids from zero, and room for `expected_hosts_count` peers
    /// in each state.
    pub fn new(expected_hosts_count: usize) -> (r: Self)
        ensures
            r.packet_id_tracker == 0,
            r.requesting_connection@.len() == 0,
            r.awaiting_connection_ack@.len() == 0,
            r.connected@.len() == 0,
    {
        ConnectionSystem {
            packet_id_tracker: 0,
            requesting_connection: Table::with_capacity(expected_hosts_count),
            awaiting_connection_ack: Table::with_capacity(expected_hosts_count),
            connected: Table::with_capacity(expected_hosts_count),
        }
    }

    /// Whether a peer at `address` requests a connection.
    pub fn already_requesting_connection(&self, address: &SocketAddr) -> (r: bool)
        ensures
            r == has_peer_at(self.requesting_connection@, *address),
    {
        find_address(&self.requesting_connection, address).is_some()
    }

    /// Whether a peer at `address` waits for its connection ack.
    pub fn already_awaiting_connection_ack(&self, address: &SocketAddr) -> (r: bool)
        ensures
            r == has_peer_at(self.awaiting_connection_ack@, *address),
    {
        find_address(&self.awaiting_connection_ack, address).is_some()
    }

    /// Whether a peer at `address` is connected.
    pub fn already_connected(&self, address: &SocketAddr) -> (r: bool)
        ensures
            r == has_peer_at(self.connected@, *address),
    {
        find_address(&self.connected, address).is_some()
    }

    /// Whether at least one of the three states has no peer.
    pub fn is_empty(&self) -> (r: bool)
        ensures
            r == (self.requesting_connection@.len() == 0 || self.awaiting_connection_ack@.len() == 0
                || self.connected@.len() == 0),
    {
        self.requesting_connection.is_empty() || self.awaiting_connection_ack.is_empty()
            || self.connected.is_empty()
    }
}

} // verus!
