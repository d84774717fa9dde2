//! Raw packets: the bytes that travel between peers, and how they are decoded.
use core::marker::PhantomData;
use vstd::prelude::*;

use super::decode::{
    common_result_view, DecodedCommon, DecodedForClient, DecodedForServer, DecodedView,
    PartialDecode,
};
use super::packet_type::{is_packet_type_code, PacketType};
use super::{
    Encoder, Message, ToSend, ConnectionAccepted, ConnectionAcceptedView, ConnectionId, ConnectionRequest,
    ConnectionRequestView, DataTransfer, DataTransferView, Duration, Fragment, FragmentView,
    Heartbeat, HeartbeatView, MetaDelivery, MetaMessage, Packet, PacketView, Received, Sequence,
    SocketAddr, CONNECTION_ACCEPTED, CONNECTION_REQUEST, DATA_TRANSFER, FRAGMENT, HEARTBEAT, PACKET_TYPE_SENTINEL_END,
    PACKET_TYPE_SENTINEL_START,
};
use crate::bytes::{be32, from_be16, from_be32, push_be32, read_be16, read_be32};
use crate::checksum::{crc32, crc32_of};
use crate::errors::ProtocolError;
use crate::PROTOCOL_ID;

verus! {

/// The bytes of a packet and the address it came from or goes to. `T` tells which side of the
/// protocol handles it.
#[derive(Debug)]
pub struct RawPacket<T> {
    pub address: SocketAddr,
    pub bytes: Vec<u8>,
    pub phantom: PhantomData<T>,
}

/// The bytes of the protocol id; they take part in every checksum but never travel.
pub open spec fn protocol_id_bytes() -> Seq<u8> {
    be32(PROTOCOL_ID)
}

/// The bytes of a packet without its checksum: its sequence number, its ack and its message.
pub open spec fn packet_body<M: Encoder>(sequence: u32, ack: u32, message: <M as View>::V) -> Seq<
    u8,
> {
    be32(sequence) + be32(ack) + M::spec_encoded(message)
}

/// The bytes of a packet on the wire: its body followed by the checksum of the protocol id and
/// the body.
pub open spec fn framed(body: Seq<u8>) -> Seq<u8> {
    body + be32(crc32_of(protocol_id_bytes() + body))
}

/// The bytes of a packet without its checksum.
pub open spec fn wire_body(bytes: Seq<u8>) -> Seq<u8> {
    bytes.subrange(0, bytes.len() - 4)
}

/// The checksum stored in the last four bytes of a packet.
pub open spec fn stored_crc(bytes: Seq<u8>) -> u32 {
    from_be32(bytes.subrange(bytes.len() - 4, bytes.len() as int))
}

/// The bytes that a packet's checksum covers: the protocol id, then the packet without its
/// checksum.
pub open spec fn with_protocol_id(bytes: Seq<u8>) -> Seq<u8> {
    protocol_id_bytes() + wire_body(bytes)
}

/// The checksum that a receiver computes for a packet.
pub open spec fn computed_crc(bytes: Seq<u8>) -> u32 {
    crc32_of(with_protocol_id(bytes))
}

/// The bytes that follow the fixed header (protocol id, sequence, ack and packet type) of a
/// packet of kind `code`, before its payload.
pub open spec fn extra_header_size(code: u8) -> int {
    if code == CONNECTION_REQUEST {
        0
    } else if code == FRAGMENT {
        4
    } else {
        2
    }
}

/// Whether `buffer` (protocol id included) is long enough for every field that decoding reads.
pub open spec fn header_fits(buffer: Seq<u8>) -> bool {
    &&& buffer.len() >= 13
    &&& (is_packet_type_code(buffer[12]) && from_be32(buffer.subrange(4, 8)) != 0) ==> buffer.len()
        >= 13 + extra_header_size(buffer[12])
}

/// Whether decoding `bytes`, whose receiver computed the checksum `crc`, reads only bytes that
/// exist: there is room for a checksum, and a packet with the right checksum holds every field
/// that its kind has.
pub open spec fn decode_in_bounds(bytes: Seq<u8>, crc: u32) -> bool {
    &&& bytes.len() >= 4
    &&& crc == stored_crc(bytes) ==> header_fits(with_protocol_id(bytes))
}

/// Whether decoding `bytes` reads only bytes that exist.
pub open spec fn decodable(bytes: Seq<u8>) -> bool {
    decode_in_bounds(bytes, computed_crc(bytes))
}

/// The packet in `buffer` (protocol id included, checksum removed), once its header is read:
/// an unknown kind, a zero sequence number or a zero connection id are errors.
pub open spec fn spec_decode_buffer(buffer: Seq<u8>, address: SocketAddr, time: Duration) -> Result<
    DecodedView,
    ProtocolError,
> {
    let sequence = from_be32(buffer.subrange(4, 8));
    let ack = from_be32(buffer.subrange(8, 12));
    let code = buffer[12];
    if !is_packet_type_code(code) {
        Err(ProtocolError::PacketTypeConversion(code))
    } else if sequence == 0 {
        Err(ProtocolError::IntConversion)
    } else {
        spec_decode_body(buffer, code, sequence, ack, address, time)
    }
}

/// The packet of kind `code` with the sequence number `sequence` and the ack `ack`, whose other
/// fields are read from `buffer` from position 13 on: the connection id (after the fragment's
/// index and total, for a fragment), then the payload; a zero connection id is an error.
pub open spec fn spec_decode_body(
    buffer: Seq<u8>,
    code: u8,
    sequence: u32,
    ack: u32,
    address: SocketAddr,
    time: Duration,
) -> Result<DecodedView, ProtocolError> {
    let delivery = Received { meta: MetaDelivery { time, address } };
    if code == CONNECTION_REQUEST {
        Ok(
            DecodedView::ConnectionRequest(
                PacketView {
                    delivery,
                    sequence,
                    ack,
                    message: ConnectionRequestView { packet_type: code },
                },
            ),
        )
    } else {
        let id_position: int = if code == FRAGMENT {
            15
        } else {
            13
        };
        let connection_id = from_be16(buffer.subrange(id_position, id_position + 2));
        if connection_id == 0 {
            Err(ProtocolError::IntConversion)
        } else if code == CONNECTION_ACCEPTED {
            Ok(
                DecodedView::ConnectionAccepted(
                    PacketView {
                        delivery,
                        sequence,
                        ack,
                        message: ConnectionAcceptedView { packet_type: code, connection_id },
                    },
                ),
            )
        } else if code == DATA_TRANSFER {
            Ok(
                DecodedView::DataTransfer(
                    PacketView {
                        delivery,
                        sequence,
                        ack,
                        message: DataTransferView {
                            packet_type: code,
                            connection_id,
                            payload: buffer.subrange(15, buffer.len() as int),
                        },
                    },
                ),
            )
        } else if code == FRAGMENT {
            Ok(
                DecodedView::Fragment(
                    PacketView {
                        delivery,
                        sequence,
                        ack,
                        message: FragmentView {
                            packet_type: code,
                            connection_id,
                            index: buffer[13],
                            total: buffer[14],
                            payload: buffer.subrange(17, buffer.len() as int),
                        },
                    },
                ),
            )
        } else {
            Ok(
                DecodedView::Heartbeat(
                    PacketView {
                        delivery,
                        sequence,
                        ack,
                        message: HeartbeatView { packet_type: code, connection_id },
                    },
                ),
            )
        }
    }
}

/// The result of decoding `bytes` received from `address` at `time`, when the receiver computed
/// the checksum `crc`: a checksum that differs from the stored one is an error (naming both,
/// unless the computed one is zero); otherwise the packet is read from its bytes.
pub open spec fn spec_decode(bytes: Seq<u8>, crc: u32, address: SocketAddr, time: Duration) -> Result<
    DecodedView,
    ProtocolError,
> {
    if crc != stored_crc(bytes) {
        if crc == 0 {
            Err(ProtocolError::IntConversion)
        } else {
            Err(ProtocolError::InvalidCrc32 { got: stored_crc(bytes), expected: crc })
        }
    } else {
        spec_decode_buffer(with_protocol_id(bytes), address, time)
    }
}

/// The result of decoding `bytes` received from `address` at `time`.
pub open spec fn decoded(bytes: Seq<u8>, address: SocketAddr, time: Duration) -> Result<
    DecodedView,
    ProtocolError,
> {
    spec_decode(bytes, computed_crc(bytes), address, time)
}

/// The bytes of `buf` from `start` on.
pub fn copy_from(buf: &[u8], start: usize) -> (r: Vec<u8>)
    requires
        start <= buf@.len(),
    ensures
        r@ == buf@.subrange(start as int, buf@.len() as int),
{
    let mut r: Vec<u8> = Vec::new();
    let mut i = start;
    while i < buf.len()
        invariant
            start <= i <= buf@.len(),
            r@ == buf@.subrange(start as int, i as int),
        decreases buf@.len() - i,
    {
        r.push(buf[i]);
        i = i + 1;
        assert(r@ =~= buf@.subrange(start as int, i as int));
    }
    r
}

/// Appends the first `count` bytes of `buf` to `out`.
pub fn push_prefix(out: &mut Vec<u8>, buf: &[u8], count: usize)
    requires
        count <= buf@.len(),
    ensures
        final(out)@ == old(out)@ + buf@.subrange(0, count as int),
{
    let mut i: usize = 0;
    while i < count
        invariant
            i <= count <= buf@.len(),
            out@ == old(out)@ + buf@.subrange(0, i as int),
        decreases count - i,
    {
        out.push(buf[i]);
        i = i + 1;
        assert(out@ =~= old(out)@ + buf@.subrange(0, i as int));
    }
}

impl<M: Message + Encoder> Packet<ToSend, M> {
    /// The bytes of this packet on the wire, addressed to its destination: the sequence number,
    /// the ack and the encoded message, followed by the CRC32 checksum of the protocol id and
    /// those bytes.
    pub fn as_raw<T>(&self) -> (r: RawPacket<T>)
        ensures
            r.address == self.delivery.meta.address,
            r.bytes@ == framed(packet_body::<M>(self.sequence@, self.ack, self.message@)),
    {
        let encoded_message = self.message.encoded();
        let mut bytes: Vec<u8> = Vec::new();
        push_be32(&mut bytes, PROTOCOL_ID);
        push_be32(&mut bytes, self.sequence.get());
        push_be32(&mut bytes, self.ack);
        crate::packets::encode::push_all(&mut bytes, encoded_message.as_slice());
        let ghost covered = bytes@;
        proof {
            assert(covered =~= protocol_id_bytes() + packet_body::<M>(
                self.sequence@,
                self.ack,
                self.message@,
            ));
        }
        let crc32 = crc32(bytes.as_slice());
        push_be32(&mut bytes, crc32);
        let packet_bytes = copy_from(bytes.as_slice(), 4);
        proof {
            let body = packet_body::<M>(self.sequence@, self.ack, self.message@);
            assert(bytes@ =~= protocol_id_bytes() + body + be32(crc32));
            assert(packet_bytes@ =~= framed(body));
        }
        RawPacket { address: self.delivery.meta.address, bytes: packet_bytes, phantom: PhantomData }
    }
}

/// How one side of the protocol wraps each kind of decoded packet: its connection message (a
/// connection request for a server, a connection accepted packet for a client) and the kinds
/// both sides accept.
pub trait Decode {
    type Decoded;

    type MessageType: Message + Encoder;

    /// Wraps a decoded connection message.
    fn connection(packet: Packet<Received, Self::MessageType>) -> Self::Decoded;

    /// Wraps a decoded data transfer.
    fn data_transfer(packet: Packet<Received, DataTransfer>) -> Self::Decoded;

    /// Wraps a decoded fragment.
    fn fragment(packet: Packet<Received, Fragment>) -> Self::Decoded;

    /// Wraps a decoded heartbeat.
    fn heartbeat(packet: Packet<Received, Heartbeat>) -> Self::Decoded;
}

impl Decode for DecodedForServer {
    type Decoded = DecodedForServer;

    type MessageType = ConnectionRequest;

    fn connection(packet: Packet<Received, ConnectionRequest>) -> (r: DecodedForServer)
        ensures
            r == (DecodedForServer::ConnectionRequest { packet }),
    {
        DecodedForServer::ConnectionRequest { packet }
    }

    fn data_transfer(packet: Packet<Received, DataTransfer>) -> (r: DecodedForServer)
        ensures
            r == (DecodedForServer::DataTransfer { packet }),
    {
        DecodedForServer::DataTransfer { packet }
    }

    fn fragment(packet: Packet<Received, Fragment>) -> (r: DecodedForServer)
        ensures
            r == (DecodedForServer::Fragment { packet }),
    {
        DecodedForServer::Fragment { packet }
    }

    fn heartbeat(packet: Packet<Received, Heartbeat>) -> (r: DecodedForServer)
        ensures
            r == (DecodedForServer::Heartbeat { packet }),
    {
        DecodedForServer::Heartbeat { packet }
    }
}

impl Decode for DecodedForClient {
    type Decoded = DecodedForClient;

    type MessageType = ConnectionAccepted;

    fn connection(packet: Packet<Received, ConnectionAccepted>) -> (r: DecodedForClient)
        ensures
            r == (DecodedForClient::ConnectionAccepted { packet }),
    {
        DecodedForClient::ConnectionAccepted { packet }
    }

    fn data_transfer(packet: Packet<Received, DataTransfer>) -> (r: DecodedForClient)
        ensures
            r == (DecodedForClient::DataTransfer { packet }),
    {
        DecodedForClient::DataTransfer { packet }
    }

    fn fragment(packet: Packet<Received, Fragment>) -> (r: DecodedForClient)
        ensures
            r == (DecodedForClient::Fragment { packet }),
    {
        DecodedForClient::Fragment { packet }
    }

    fn heartbeat(packet: Packet<Received, Heartbeat>) -> (r: DecodedForClient)
        ensures
            r == (DecodedForClient::Heartbeat { packet }),
    {
        DecodedForClient::Heartbeat { packet }
    }
}

/// A side of the protocol as decoding sees it: the message that opens its connections, and how
/// it wraps what it decodes.
pub trait ServiceDecode {
    type ConnectionMessage: Message;

    type Decoded: Decode;

    /// The packet type of the connection message.
    fn packet_type() -> (r: PacketType)
        ensures
            r@ == <Self::ConnectionMessage as Message>::spec_packet_type(),
    {
        <Self::ConnectionMessage as Message>::packet_type()
    }
}

/// A stand-in side that decodes as a server does.
pub struct FakeService {}

impl ServiceDecode for FakeService {
    type ConnectionMessage = ConnectionRequest;

    type Decoded = DecodedForServer;
}

impl<T> RawPacket<T> {
    /// The packet `bytes` from (or to) `address`.
    pub fn new(address: SocketAddr, bytes: Vec<u8>) -> (r: Self)
        ensures
            r.address == address,
            r.bytes@ == bytes@,
    {
        RawPacket { address, bytes, phantom: PhantomData }
    }

    /// Whether decoding this packet reads only bytes that exist: it has room for a checksum
    /// and, when its checksum is right, for every field that its kind has.
    pub fn is_decodable(&self) -> (r: bool)
        ensures
            r == decodable(self.bytes@),
    {
        let length = self.bytes.len();
        if length < 4 {
            return false;
        }
        let crc32_position = length - 4;
        let read_crc32 = read_be32(self.bytes.as_slice(), crc32_position);
        let mut buffer: Vec<u8> = Vec::new();
        push_be32(&mut buffer, PROTOCOL_ID);
        push_prefix(&mut buffer, self.bytes.as_slice(), crc32_position);
        assert(buffer@ == with_protocol_id(self.bytes@));
        let computed = crc32(buffer.as_slice());
        if computed != read_crc32 {
            return true;
        }
        let size = buffer.len();
        if size < 13 {
            return false;
        }
        let code = buffer[12];
        let sequence = read_be32(buffer.as_slice(), 4);
        if PACKET_TYPE_SENTINEL_START < code && code < PACKET_TYPE_SENTINEL_END && sequence != 0 {
            let extra: usize = if code == CONNECTION_REQUEST {
                0
            } else if code == FRAGMENT {
                4
            } else {
                2
            };
            size >= 13 + extra
        } else {
            true
        }
    }

    /// Checks the packet's checksum, reads its header and decodes it, as received at `time`.
    pub(crate) fn inner_decode(self, time: Duration) -> (r: Result<DecodedCommon, ProtocolError>)
        requires
            decodable(self.bytes@),
        ensures
            common_result_view(r) == decoded(self.bytes@, self.address, time),
    {
        let length = self.bytes.len();
        let bytes = self.bytes;
        let crc32_position = length - 4;
        let read_crc32 = read_be32(bytes.as_slice(), crc32_position);
        let mut buffer: Vec<u8> = Vec::new();
        push_be32(&mut buffer, PROTOCOL_ID);
        push_prefix(&mut buffer, bytes.as_slice(), crc32_position);
        assert(buffer@ == with_protocol_id(bytes@));
        let computed = crc32(buffer.as_slice());
        if computed == read_crc32 {
            let read_protocol_id = read_be32(buffer.as_slice(), 0);
            proof {
                assert(buffer@.subrange(0, 4) =~= be32(PROTOCOL_ID));
                crate::bytes::lemma_be32_roundtrip(PROTOCOL_ID);
            }
            if PROTOCOL_ID != read_protocol_id {
                return Err(ProtocolError::InvalidProtocolId {
                    got: read_protocol_id,
                    expected: PROTOCOL_ID,
                });
            }
            let read_sequence = read_be32(buffer.as_slice(), 4);
            let read_ack = read_be32(buffer.as_slice(), 8);
            let read_packet_type = PacketType::from_be_bytes([buffer[12]]);
            let buffer_position: usize = 13;
            let packet_type = PacketType::try_from(read_packet_type)?;
            let sequence = match Sequence::new(read_sequence) {
                Some(sequence) => sequence,
                None => {
                    return Err(ProtocolError::IntConversion);
                },
            };
            proof {
                broadcast use super::packet_type::group_packet_type;
            }
            let partial_decode = PartialDecode {
                buffer,
                buffer_position,
                packet_type,
                sequence,
                ack: read_ack,
            };
            Self::common_decode(self.address, partial_decode, time)
        } else {
            if computed == 0 {
                Err(ProtocolError::IntConversion)
            } else {
                Err(ProtocolError::InvalidCrc32 { got: read_crc32, expected: computed })
            }
        }
    }

    /// Reads the fields that follow the header of a packet, according to its kind, from
    /// position 13 of the buffer on; the kind, sequence number and ack are those that the
    /// partial decode carries. A kind code that names no kind is an error.
    fn common_decode(address: SocketAddr, partial_decode: PartialDecode, time: Duration) -> (r:
        Result<DecodedCommon, ProtocolError>)
        requires
            partial_decode.buffer_position == 13,
            is_packet_type_code(partial_decode.packet_type@) ==> partial_decode.buffer@.len() >= 13
                + extra_header_size(partial_decode.packet_type@),
        ensures
            is_packet_type_code(partial_decode.packet_type@) ==> common_result_view(r)
                == spec_decode_body(
                partial_decode.buffer@,
                partial_decode.packet_type@,
                partial_decode.sequence@,
                partial_decode.ack,
                address,
                time,
            ),
            !is_packet_type_code(partial_decode.packet_type@) ==> r == Err::<DecodedCommon, ProtocolError>(
                ProtocolError::InvalidPacketType(partial_decode.packet_type),
            ),
    {
        let PartialDecode { buffer, buffer_position, packet_type, sequence, ack } = partial_decode;
        let delivery = Received { meta: MetaDelivery { time, address } };
        let code = packet_type.get();
        let _ = sequence.get();
        if code == CONNECTION_REQUEST {
            let message = ConnectionRequest { meta: MetaMessage { packet_type } };
            let packet = Packet { delivery, sequence, ack, message };
            Ok(DecodedCommon::ConnectionRequest { packet })
        } else if code == CONNECTION_ACCEPTED {
            let read_connection_id = read_be16(buffer.as_slice(), buffer_position);
            let connection_id = match ConnectionId::new(read_connection_id) {
                Some(id) => id,
                None => {
                    return Err(ProtocolError::IntConversion);
                },
            };
            let message = ConnectionAccepted { meta: MetaMessage { packet_type }, connection_id };
            let packet = Packet { delivery, sequence, ack, message };
            Ok(DecodedCommon::ConnectionAccepted { packet })
        } else if code == DATA_TRANSFER {
            let read_connection_id = read_be16(buffer.as_slice(), buffer_position);
            let read_payload = copy_from(buffer.as_slice(), buffer_position + 2);
            let connection_id = match ConnectionId::new(read_connection_id) {
                Some(id) => id,
                None => {
                    return Err(ProtocolError::IntConversion);
                },
            };
            let message = DataTransfer {
                meta: MetaMessage { packet_type },
                connection_id,
                payload: read_payload,
            };
            let packet = Packet { delivery, sequence, ack, message };
            Ok(DecodedCommon::DataTransfer { packet })
        } else if code == FRAGMENT {
            let read_fragment_index = buffer[buffer_position];
            let read_fragment_total = buffer[buffer_position + 1];
            let read_connection_id = read_be16(buffer.as_slice(), buffer_position + 2);
            let read_payload = copy_from(buffer.as_slice(), buffer_position + 4);
            let connection_id = match ConnectionId::new(read_connection_id) {
                Some(id) => id,
                None => {
                    return Err(ProtocolError::IntConversion);
                },
            };
            let message = Fragment {
                meta: MetaMessage { packet_type },
                index: read_fragment_index,
                total: read_fragment_total,
                connection_id,
                payload: read_payload,
            };
            let packet = Packet { delivery, sequence, ack, message };
            Ok(DecodedCommon::Fragment { packet })
        } else if code == HEARTBEAT {
            let read_connection_id = read_be16(buffer.as_slice(), buffer_position);
            let connection_id = match ConnectionId::new(read_connection_id) {
                Some(id) => id,
                None => {
                    return Err(ProtocolError::IntConversion);
                },
            };
            let message = Heartbeat { meta: MetaMessage { packet_type }, connection_id };
            let packet = Packet { delivery, sequence, ack, message };
            Ok(DecodedCommon::Heartbeat { packet })
        } else {
            Err(ProtocolError::InvalidPacketType(packet_type))
        }
    }
}

/// The time a packet arrived does not change what it decodes to, apart from that time: the
/// same error, or a packet of the same kind from the same address.
pub proof fn lemma_decoded_kind(bytes: Seq<u8>, address: SocketAddr, t1: Duration, t2: Duration)
    ensures
        decoded(bytes, address, t1) is Err ==> decoded(bytes, address, t2) == decoded(
            bytes,
            address,
            t1,
        ),
        decoded(bytes, address, t1) is Ok <==> decoded(bytes, address, t2) is Ok,
        (decoded(bytes, address, t1) matches Ok(DecodedView::ConnectionRequest(_)))
            <==> (decoded(bytes, address, t2) matches Ok(DecodedView::ConnectionRequest(_))),
        (decoded(bytes, address, t1) matches Ok(DecodedView::ConnectionAccepted(_)))
            <==> (decoded(bytes, address, t2) matches Ok(DecodedView::ConnectionAccepted(_))),
        (decoded(bytes, address, t1) matches Ok(DecodedView::DataTransfer(_)))
            <==> (decoded(bytes, address, t2) matches Ok(DecodedView::DataTransfer(_))),
        (decoded(bytes, address, t1) matches Ok(DecodedView::Fragment(_)))
            <==> (decoded(bytes, address, t2) matches Ok(DecodedView::Fragment(_))),
        (decoded(bytes, address, t1) matches Ok(DecodedView::Heartbeat(_)))
            <==> (decoded(bytes, address, t2) matches Ok(DecodedView::Heartbeat(_))),
        decoded(bytes, address, t1) matches Ok(DecodedView::ConnectionRequest(p)) ==> p.delivery.meta.address == address,
{
}

} // verus!
