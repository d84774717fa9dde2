//! The remote hosts of the first version, in each state of their connection.
use vstd::prelude::*;

use crate::duration::{Duration, NANOS_PER_SECOND};
use crate::packets::{Ack, ConnectionId, PacketId};
use crate::sequence::{sequence_of, Sequence};
use crate::socket_addr::SocketAddr;

verus! {

/// A host with no connection.
#[derive(Debug, Clone, PartialEq, PartialOrd)]
pub struct Disconnected;

/// A host that requests a connection, and how many times it tried.
#[derive(Debug, Clone, PartialEq, PartialOrd)]
pub struct RequestingConnection {
    pub attempts: u32,
}

/// A host that waits for its connection ack, and how many times it tried.
#[derive(Debug, Clone, PartialEq, PartialOrd)]
pub struct AwaitingConnectionAck {
    pub attempts: u32,
}

/// A connected host: its connection id, its round trip time and the latest packet sent to it.
#[derive(Debug, Clone)]
pub struct Connected {
    pub connection_id: ConnectionId,
    pub rtt: Duration,
    pub latest_sent_id: PacketId,
    pub latest_sent_time: Duration,
}

/// A remote host in the connection state `State`: its sequence number, the acks on both sides
/// and its address.
#[derive(Debug, Clone)]
pub struct Host<State> {
    pub sequence_tracker: Sequence,
    pub remote_ack_tracker: Ack,
    pub local_ack_tracker: Ack,
    pub address: SocketAddr,
    pub state: State,
}

impl Host<RequestingConnection> {
    /// A host at `address` that starts requesting a connection: the first sequence number, a
    /// remote ack of 1, no local ack and no attempt yet.
    pub fn new(address: SocketAddr) -> (r: Self)
        ensures
            r.sequence_tracker == sequence_of(1),
            r.remote_ack_tracker == 1,
            r.local_ack_tracker == 0,
            r.address == address,
            r.state == (RequestingConnection { attempts: 0 }),
    {
        let sequence_tracker = Sequence::one();
        proof {
            crate::sequence::lemma_sequence_of_view(1);
            crate::sequence::lemma_sequence_view_injective(sequence_tracker, sequence_of(1));
        }
        Host {
            sequence_tracker,
            remote_ack_tracker: 1,
            local_ack_tracker: 0,
            address,
            state: RequestingConnection { attempts: 0 },
        }
    }
}

impl Host<AwaitingConnectionAck> {
    /// The host, connected under `connection_id`: it keeps its sequence number, acks and
    /// address, with no round trip time and no packet sent yet.
    pub fn connected(self, connection_id: ConnectionId) -> (r: Host<Connected>)
        ensures
            r.sequence_tracker == self.sequence_tracker,
            r.remote_ack_tracker == self.remote_ack_tracker,
            r.local_ack_tracker == self.local_ack_tracker,
            r.address == self.address,
            r.state.connection_id == connection_id,
            r.state.rtt == 0,
            r.state.latest_sent_id == 0,
            r.state.latest_sent_time == 0,
    {
        Host {
            sequence_tracker: self.sequence_tracker,
            remote_ack_tracker: self.remote_ack_tracker,
            local_ack_tracker: self.local_ack_tracker,
            address: self.address,
            state: Connected { connection_id, rtt: 0, latest_sent_id: 0, latest_sent_time: 0 },
        }
    }
}

/// The address of a host.
#[derive(Debug, PartialEq, PartialOrd, Clone)]
pub struct Address(pub SocketAddr);

/// How long a packet waits for its ack before it is sent again: half a second.
pub const RESEND_TIMEOUT_THRESHOLD: Duration = 500_000_000;

/// How long a connection waits before it gives up: two seconds.
pub const CONNECTION_TIMEOUT_THRESHOLD: Duration = 2_000_000_000;

} // verus!
