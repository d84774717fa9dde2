//! The reception record of a packet.
use vstd::prelude::*;

use crate::duration::Duration;
use crate::socket_addr::SocketAddr;

verus! {

/// When, and from where, a packet was received.
#[derive(Debug, Clone, Copy, PartialEq)]
pub struct Received {
    pub time: Duration,
    pub source: SocketAddr,
}

} // verus!
