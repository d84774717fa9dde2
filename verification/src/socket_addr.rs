//! Socket addresses of remote peers, held as plain values.
use vstd::prelude::*;

verus! {

/// An IPv4 or IPv6 socket address: the address bits, the port and, for IPv6, the flow info and
/// scope id. Two addresses are equal when all of these are.
#[derive(Clone, Copy, Debug, PartialEq, Eq, Structural, Hash, PartialOrd, Ord)]
pub struct SocketAddr {
    /// The IP address bits; an IPv4 address fills the low 32 bits.
    pub ip: u128,
    pub port: u16,
    pub is_ipv6: bool,
    pub flowinfo: u32,
    pub scope_id: u32,
}

impl SocketAddr {
    /// An IPv4 socket address `a.b.c.d:port`.
    pub fn v4(a: u8, b: u8, c: u8, d: u8, port: u16) -> (r: Self)
        ensures
            r.ip == (a as int) * 0x1000000 + (b as int) * 0x10000 + (c as int) * 0x100 + (d as int),
            r.port == port,
            !r.is_ipv6,
            r.flowinfo == 0,
            r.scope_id == 0,
    {
        let ip: u128 = (a as u128) * 0x1000000 + (b as u128) * 0x10000 + (c as u128) * 0x100
            + (d as u128);
        SocketAddr { ip, port, is_ipv6: false, flowinfo: 0, scope_id: 0 }
    }
}

} // verus!
