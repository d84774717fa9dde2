//! A custom protocol on top of UDP: connection handshake, reliable and unreliable packets,
//! and payloads cut into fragments, with every operation specified and verified.
use vstd::prelude::*;

pub mod bytes;
pub mod checksum;
pub mod client;
pub mod connection;
pub mod controls;
pub mod duration;
pub mod errors;
pub mod events;
pub mod header;
pub mod legacy;
pub mod packet;
pub mod packets;
pub mod payload;
pub mod peers;
pub mod protocol;
pub mod readiness;
pub mod reliability;
pub mod scheduler;
pub mod sequence;
pub mod server;
pub mod service_traits;
pub mod socket_addr;
pub mod table;

pub use protocol::Protocol;

verus! {

/// The id of the protocol, which every packet's checksum covers.
pub type ProtocolId = u32;

/// The id of this protocol.
pub const PROTOCOL_ID: ProtocolId = 0xbabedad;

/// Takes the elements at positions `start..end` out of `list`, keeping the others in order.
pub fn drain_range<T>(list: &mut Vec<T>, start: usize, end: usize) -> (r: Vec<T>)
    requires
        start <= end <= old(list)@.len(),
    ensures
        r@ == old(list)@.subrange(start as int, end as int),
        final(list)@ == old(list)@.subrange(0, start as int) + old(list)@.subrange(
            end as int,
            old(list)@.len() as int,
        ),
{
    let mut tail = list.split_off(end);
    let middle = list.split_off(start);
    list.append(&mut tail);
    middle
}

} // verus!
