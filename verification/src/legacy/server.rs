//! The server of the first version: when it last checked its schedule, and the id its next
//! peer gets.
use vstd::prelude::*;

use crate::duration::Duration;
use crate::packets::ConnectionId;

verus! {

/// When the server last checked its schedule, and the connection id its next peer gets.
#[derive(Debug)]
pub struct Server {
    pub last_antarc_schedule_check: Duration,
    pub connection_id_tracker: ConnectionId,
}

} // verus!
