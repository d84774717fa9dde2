//! The acknowledgement record of a packet.
use vstd::prelude::*;

use crate::duration::Duration;

verus! {

/// When a packet was acknowledged.
#[derive(Debug, Clone, Copy, PartialEq)]
pub struct Acked {
    pub time: Duration,
}

} // verus!
