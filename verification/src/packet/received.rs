//! Reading a packet of the earlier layout: the protocol id (which never travels) and the header,
//! then the payload, the connection id of every kind but a connection request, and the
//! checksum of it all at the end.
use core::marker::PhantomData;
use std::time::Instant;
use vstd::prelude::*;

use super::header::{ConnectionRequest, DataTransfer, Generic, Header, HeaderInfo, Heartbeat};
use super::{Footer, Packet, CONNECTION_REQUEST};
use crate::bytes::{from_be16, from_be32, push_be32, read_be16, read_be32};
use crate::checksum::crc32;
use crate::duration::Duration;
use crate::errors::ProtocolError;
use crate::packets::raw::{computed_crc, push_prefix, stored_crc, with_protocol_id};
use crate::packets::{connection_id_of, ConnectionId, PacketId};
use crate::payload::{copy_range, Payload};
use crate::protocol::elapsed;
use crate::sequence::{sequence_of, Sequence};
use crate::socket_addr::SocketAddr;
use crate::PROTOCOL_ID;

verus! {

/// The state of a packet that was received at `time` from `source`, with its header and footer.
#[derive(Debug, Clone, PartialEq)]
pub struct Received<Kind> {
    pub header: Header<Kind>,
    pub footer: Footer,
    pub time: Duration,
    pub source: SocketAddr,
}

/// The sequence number in `b` (the packet with the protocol id in front, without its checksum).
pub open spec fn read_sequence(b: Seq<u8>) -> u32 {
    from_be32(b.subrange(4, 8))
}

/// The status code in `b`.
pub open spec fn read_status(b: Seq<u8>) -> u16 {
    from_be16(b.subrange(14, 16))
}

/// The payload length in `b`.
pub open spec fn read_length(b: Seq<u8>) -> u16 {
    from_be16(b.subrange(16, 18))
}

/// The connection id in `b`, which follows the payload.
pub open spec fn read_connection_id(b: Seq<u8>) -> u16 {
    from_be16(b.subrange(18 + read_length(b), 20 + read_length(b)))
}

/// Whether a packet of status code `status` carries a connection id: every kind but a
/// connection request does.
pub open spec fn has_connection_id(status: u16) -> bool {
    status > CONNECTION_REQUEST
}

/// Whether reading `bytes` touches only bytes that exist and meets a nonzero sequence number:
/// there is room for a checksum, and a packet with the right checksum holds its header, its
/// payload and, where its kind has one, its connection id.
pub open spec fn legacy_decodable(bytes: Seq<u8>) -> bool {
    let b = with_protocol_id(bytes);
    &&& bytes.len() >= 4
    &&& computed_crc(bytes) == stored_crc(bytes) ==> {
        &&& b.len() >= 18
        &&& 18 + read_length(b) <= b.len()
        &&& has_connection_id(read_status(b)) ==> 20 + read_length(b) <= b.len()
        &&& read_sequence(b) != 0
    }
}

/// Whether `p` and `payload` are the packet `bytes` read under `id` from `address` at `time`,
/// whose checksum is `crc`.
pub open spec fn legacy_read(
    p: Packet<Received<Generic>>,
    payload: Payload,
    id: PacketId,
    bytes: Seq<u8>,
    address: SocketAddr,
    time: Duration,
    crc: u32,
) -> bool {
    let b = with_protocol_id(bytes);
    let length = read_length(b);
    &&& p.id == id
    &&& p.state.header.info == HeaderInfo {
        sequence: sequence_of(read_sequence(b)),
        ack: from_be32(b.subrange(8, 12)),
        past_acks: from_be16(b.subrange(12, 14)),
        status_code: read_status(b),
        payload_length: length,
    }
    &&& p.state.footer == Footer {
        connection_id: if has_connection_id(read_status(b)) {
            Some(connection_id_of(read_connection_id(b)))
        } else {
            None
        },
        crc32: crc,
    }
    &&& p.state.time == time
    &&& p.state.source == address
    &&& payload.0@ == b.subrange(18, 18 + length)
}

/// What reading the packet `bytes` under `id` from `address` at `time` gives: a checksum that
/// differs from the stored one is an error naming both; a zero connection id, or a zero
/// checksum, is a failed conversion; otherwise the packet and its payload.
pub open spec fn legacy_decoded(
    r: Result<(Packet<Received<Generic>>, Payload), ProtocolError>,
    id: PacketId,
    bytes: Seq<u8>,
    address: SocketAddr,
    time: Duration,
) -> bool {
    let b = with_protocol_id(bytes);
    let crc = computed_crc(bytes);
    if crc != stored_crc(bytes) {
        r == Err::<(Packet<Received<Generic>>, Payload), ProtocolError>(
            ProtocolError::InvalidCrc32 { got: stored_crc(bytes), expected: crc },
        )
    } else if has_connection_id(read_status(b)) && read_connection_id(b) == 0 {
        r == Err::<(Packet<Received<Generic>>, Payload), ProtocolError>(ProtocolError::IntConversion)
    } else if crc == 0 {
        r == Err::<(Packet<Received<Generic>>, Payload), ProtocolError>(ProtocolError::IntConversion)
    } else {
        r matches Ok((p, payload)) && legacy_read(p, payload, id, bytes, address, time, crc)
    }
}

/// Whether reading `buffer` touches only bytes that exist and meets a nonzero sequence number.
pub fn is_legacy_decodable(buffer: &[u8]) -> (r: bool)
    ensures
        r == legacy_decodable(buffer@),
{
    let length = buffer.len();
    if length < 4 {
        return false;
    }
    let crc32_position = length - 4;
    let received_crc = read_be32(buffer, crc32_position);
    let mut b: Vec<u8> = Vec::new();
    push_be32(&mut b, PROTOCOL_ID);
    push_prefix(&mut b, buffer, crc32_position);
    assert(b@ == with_protocol_id(buffer@));
    let crc = crc32(b.as_slice());
    if crc != received_crc {
        return true;
    }
    let size = b.len();
    if size < 18 {
        return false;
    }
    let payload_length = read_be16(b.as_slice(), 16) as usize;
    if 18 + payload_length > size {
        return false;
    }
    let status_code = read_be16(b.as_slice(), 14);
    if status_code > CONNECTION_REQUEST && 20 + payload_length > size {
        return false;
    }
    read_be32(b.as_slice(), 4) != 0
}

impl Packet<Received<Generic>> {
    /// Reads the packet `buffer` from `address` under `id`, at the time `timer` gives.
    pub fn decode(id: u64, buffer: &[u8], address: SocketAddr, timer: &Instant) -> (r: Result<
        (Packet<Received<Generic>>, Payload),
        ProtocolError,
    >)
        requires
            legacy_decodable(buffer@),
        ensures
            exists|time: Duration| #[trigger] legacy_decoded(r, id, buffer@, address, time),
    {
        let buffer_length = buffer.len();
        let crc32_position = buffer_length - 4;
        let crc32_received = read_be32(buffer, crc32_position);
        let mut packet_with_protocol_id: Vec<u8> = Vec::new();
        push_be32(&mut packet_with_protocol_id, PROTOCOL_ID);
        push_prefix(&mut packet_with_protocol_id, buffer, crc32_position);
        let b = packet_with_protocol_id;
        assert(b@ == with_protocol_id(buffer@));
        let crc = crc32(b.as_slice());
        let time = elapsed(timer);
        if crc == crc32_received {
            let read_sequence = read_be32(b.as_slice(), 4);
            let read_ack = read_be32(b.as_slice(), 8);
            let read_past_acks = read_be16(b.as_slice(), 12);
            let read_status_code = read_be16(b.as_slice(), 14);
            let read_payload_length = read_be16(b.as_slice(), 16);
            let sequence = Sequence::new_unchecked(read_sequence);
            let header_info = HeaderInfo {
                sequence,
                ack: read_ack,
                past_acks: read_past_acks,
                status_code: read_status_code,
                payload_length: read_payload_length,
            };
            let payload_length = read_payload_length as usize;
            let payload = Payload(copy_range(b.as_slice(), 18, 18 + payload_length));
            let connection_id = if read_status_code > CONNECTION_REQUEST {
                let read_connection_id = read_be16(b.as_slice(), 18 + payload_length);
                match ConnectionId::new(read_connection_id) {
                    Some(connection_id) => Some(Some(connection_id)),
                    None => None,
                }
            } else {
                Some(None)
            };
            let r = match connection_id {
                None => Err(ProtocolError::IntConversion),
                Some(connection_id) => {
                    if crc == 0 {
                        Err(ProtocolError::IntConversion)
                    } else {
                        let footer = Footer { connection_id, crc32: crc };
                        let header = Header { info: header_info, marker: PhantomData };
                        let state = Received { header, footer, time, source: address };
                        let packet = Packet { id, state };
                        proof {
                            broadcast use crate::sequence::lemma_sequence_of_value, crate::packets::lemma_connection_id_of_value;
                            assert(legacy_read(packet, payload, id, buffer@, address, time, crc));
                        }
                        Ok((packet, payload))
                    }
                },
            };
            assert(legacy_decoded(r, id, buffer@, address, time));
            r
        } else {
            let r = Err(ProtocolError::InvalidCrc32 { got: crc32_received, expected: crc });
            assert(legacy_decoded(r, id, buffer@, address, time));
            r
        }
    }

    /// Reads the packet `buffer` from `address` under `id`, at the time `timer` gives, when
    /// reading it touches only bytes that exist and meets a nonzero sequence number; otherwise
    /// nothing is read and nothing is returned.
    pub fn try_decode(id: u64, buffer: &[u8], address: SocketAddr, timer: &Instant) -> (r: Option<
        Result<(Packet<Received<Generic>>, Payload), ProtocolError>,
    >)
        ensures
            r is None <==> !legacy_decodable(buffer@),
            r matches Some(result) ==> exists|time: Duration|
                #[trigger] legacy_decoded(result, id, buffer@, address, time),
    {
        if is_legacy_decodable(buffer) {
            Some(Self::decode(id, buffer, address, timer))
        } else {
            None
        }
    }
}

impl From<Packet<Received<Generic>>> for Packet<Received<DataTransfer>> {
    /// The same packet, its header classified as that of a data transfer.
    fn from(packet: Packet<Received<Generic>>) -> (r: Self) {
        let header = Header { info: packet.state.header.info, marker: PhantomData };
        let state = Received {
            header,
            footer: packet.state.footer,
            time: packet.state.time,
            source: packet.state.source,
        };
        Packet { id: packet.id, state }
    }
}

impl vstd::std_specs::convert::FromSpecImpl<Packet<Received<Generic>>> for Packet<Received<DataTransfer>> {
    open spec fn obeys_from_spec() -> bool {
        true
    }

    open spec fn from_spec(packet: Packet<Received<Generic>>) -> Self {
        Packet {
            id: packet.id,
            state: Received {
                header: Header { info: packet.state.header.info, marker: PhantomData },
                footer: packet.state.footer,
                time: packet.state.time,
                source: packet.state.source,
            },
        }
    }
}

impl From<Packet<Received<Generic>>> for Packet<Received<ConnectionRequest>> {
    /// The same packet, its header classified as that of a connection request.
    fn from(packet: Packet<Received<Generic>>) -> (r: Self) {
        let header = Header { info: packet.state.header.info, marker: PhantomData };
        let state = Received {
            header,
            footer: packet.state.footer,
            time: packet.state.time,
            source: packet.state.source,
        };
        Packet { id: packet.id, state }
    }
}

impl vstd::std_specs::convert::FromSpecImpl<Packet<Received<Generic>>> for Packet<Received<ConnectionRequest>> {
    open spec fn obeys_from_spec() -> bool {
        true
    }

    open spec fn from_spec(packet: Packet<Received<Generic>>) -> Self {
        Packet {
            id: packet.id,
            state: Received {
                header: Header { info: packet.state.header.info, marker: PhantomData },
                footer: packet.state.footer,
                time: packet.state.time,
                source: packet.state.source,
            },
        }
    }
}

impl From<Packet<Received<Generic>>> for Packet<Received<Heartbeat>> {
    /// The same packet, its header classified as that of a heartbeat.
    fn from(packet: Packet<Received<Generic>>) -> (r: Self) {
        let header = Header { info: packet.state.header.info, marker: PhantomData };
        let state = Received {
            header,
            footer: packet.state.footer,
            time: packet.state.time,
            source: packet.state.source,
        };
        Packet { id: packet.id, state }
    }
}

impl vstd::std_specs::convert::FromSpecImpl<Packet<Received<Generic>>> for Packet<Received<Heartbeat>> {
    open spec fn obeys_from_spec() -> bool {
        true
    }

    open spec fn from_spec(packet: Packet<Received<Generic>>) -> Self {
        Packet {
            id: packet.id,
            state: Received {
                header: Header { info: packet.state.header.info, marker: PhantomData },
                footer: packet.state.footer,
                time: packet.state.time,
                source: packet.state.source,
            },
        }
    }
}

} // verus!
