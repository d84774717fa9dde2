//! The one-byte code that tells the kinds of packets apart on the wire.
use vstd::prelude::*;

use super::{PACKET_TYPE_SENTINEL_END, PACKET_TYPE_SENTINEL_START};
use crate::errors::ProtocolError;

verus! {

/// A packet type code. Codes strictly between `PACKET_TYPE_SENTINEL_START` and
/// `PACKET_TYPE_SENTINEL_END` name a kind of packet.
#[derive(Debug, Clone, Copy, PartialEq, Eq, PartialOrd, Ord, Default, Hash)]
pub struct PacketType(u8);

impl View for PacketType {
    type V = u8;

    closed spec fn view(&self) -> u8 {
        self.0
    }
}

/// Whether `code` names a kind of packet.
pub open spec fn is_packet_type_code(code: u8) -> bool {
    PACKET_TYPE_SENTINEL_START < code < PACKET_TYPE_SENTINEL_END
}

/// The packet type whose code is `code`.
pub closed spec fn packet_type_of(code: u8) -> PacketType {
    PacketType(code)
}

/// The packet type made from a code has that code.
pub broadcast proof fn lemma_packet_type_of_view(code: u8)
    ensures
        #[trigger] packet_type_of(code)@ == code,
{
}

/// A packet type is the one made from its code.
pub broadcast proof fn lemma_packet_type_of_code(p: PacketType)
    ensures
        #[trigger] packet_type_of(p@) == p,
{
}

/// Facts that tie packet types to their codes.
pub broadcast group group_packet_type {
    lemma_packet_type_of_view,
    lemma_packet_type_of_code,
}

impl PacketType {
    /// The packet type with code `n`, without checking that `n` names a kind of packet.
    pub fn new_unchecked(n: u8) -> (r: Self)
        ensures
            r@ == n,
            r == packet_type_of(n),
    {
        PacketType(n)
    }

    /// The packet type with code `n`, or `None` when `n` names no kind of packet.
    pub fn new(n: u8) -> (r: Option<Self>)
        ensures
            is_packet_type_code(n) <==> r is Some,
            r matches Some(p) ==> p@ == n,
    {
        if n > PACKET_TYPE_SENTINEL_START && n < PACKET_TYPE_SENTINEL_END {
            Some(PacketType(n))
        } else {
            None
        }
    }

    /// The code of this packet type.
    pub fn get(self) -> (r: u8)
        ensures
            r == self@,
    {
        self.0
    }

    /// The code of this packet type as a one-byte array.
    pub fn to_be_bytes(self) -> (r: [u8; 1])
        ensures
            r@ == seq![self@],
    {
        let r = [self.0];
        assert(r@ =~= seq![self@]);
        r
    }

    /// The code held in a one-byte array.
    pub fn from_be_bytes(bytes: [u8; 1]) -> (r: u8)
        ensures
            r == bytes@[0],
    {
        bytes[0]
    }

    /// The packet type with code `value`; a code that names no kind of packet is an error.
    pub fn try_from(value: u8) -> (r: Result<Self, ProtocolError>)
        ensures
            is_packet_type_code(value) ==> r == Ok::<Self, ProtocolError>(packet_type_of(value)),
            !is_packet_type_code(value) ==> r == Err::<Self, ProtocolError>(
                ProtocolError::PacketTypeConversion(value),
            ),
    {
        match PacketType::new(value) {
            Some(p) => Ok(p),
            None => Err(ProtocolError::PacketTypeConversion(value)),
        }
    }

    /// Whether two packet types are the same.
    pub fn same(&self, other: &Self) -> (r: bool)
        ensures
            r == (*self == *other),
    {
        self.0 == other.0
    }
}

impl From<PacketType> for u8 {
    /// The code of the packet type.
    fn from(packet_type: PacketType) -> (r: u8) {
        packet_type.0
    }
}

impl vstd::std_specs::convert::FromSpecImpl<PacketType> for u8 {
    open spec fn obeys_from_spec() -> bool {
        true
    }

    open spec fn from_spec(packet_type: PacketType) -> u8 {
        packet_type@
    }
}

} // verus!
