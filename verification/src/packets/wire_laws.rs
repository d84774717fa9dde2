//! What decoding makes of the bytes that `as_raw` writes: the packet that was sent, as received.
use vstd::prelude::*;

use super::decode::DecodedView;
use super::raw::{
    computed_crc, decodable, decoded, framed, packet_body, protocol_id_bytes, stored_crc,
    wire_body, with_protocol_id,
};
use super::{
    ConnectionAccepted, ConnectionAcceptedView, ConnectionRequest, ConnectionRequestView,
    DataTransfer, DataTransferView, Duration, Fragment, FragmentView, Heartbeat, HeartbeatView,
    MetaDelivery, PacketView, Received, ToSend, CONNECTION_ACCEPTED, CONNECTION_REQUEST,
    DATA_TRANSFER, FRAGMENT, HEARTBEAT,
};
use crate::bytes::{be16, be32, lemma_be16_roundtrip, lemma_be32_roundtrip};
use crate::checksum::crc32_of;

verus! {

/// A packet as its receiver sees it when it arrives at `time`.
pub open spec fn as_received<M>(p: PacketView<ToSend, M>, time: Duration) -> PacketView<
    Received,
    M,
> {
    PacketView {
        delivery: Received { meta: MetaDelivery { time, address: p.delivery.meta.address } },
        sequence: p.sequence,
        ack: p.ack,
        message: p.message,
    }
}

/// The parts of a framed packet: its body, its stored checksum and the bytes the checksum covers.
proof fn lemma_framed_parts(body: Seq<u8>)
    ensures
        framed(body).len() == body.len() + 4,
        wire_body(framed(body)) == body,
        stored_crc(framed(body)) == crc32_of(protocol_id_bytes() + body),
        with_protocol_id(framed(body)) == protocol_id_bytes() + body,
        computed_crc(framed(body)) == stored_crc(framed(body)),
{
    let bytes = framed(body);
    let crc = crc32_of(protocol_id_bytes() + body);
    assert(wire_body(bytes) =~= body);
    assert(bytes.subrange(bytes.len() - 4, bytes.len() as int) =~= be32(crc));
    lemma_be32_roundtrip(crc);
}

/// The fixed header of a framed packet, read back from the bytes the checksum covers.
proof fn lemma_framed_header(sequence: u32, ack: u32, message: Seq<u8>)
    ensures
        ({
            let buffer = protocol_id_bytes() + (be32(sequence) + be32(ack) + message);
            &&& buffer.len() == 12 + message.len()
            &&& buffer.subrange(4, 8) == be32(sequence)
            &&& buffer.subrange(8, 12) == be32(ack)
            &&& forall|i: int| 0 <= i < message.len() ==> buffer[12 + i] == message[i]
            &&& buffer.subrange(12, buffer.len() as int) == message
        }),
{
    let buffer = protocol_id_bytes() + (be32(sequence) + be32(ack) + message);
    assert(buffer.subrange(4, 8) =~= be32(sequence));
    assert(buffer.subrange(8, 12) =~= be32(ack));
    assert(buffer.subrange(12, buffer.len() as int) =~= message);
    lemma_be32_roundtrip(sequence);
    lemma_be32_roundtrip(ack);
}

/// Decoding the bytes of a connection request gives the request back, as received.
pub proof fn law_decode_connection_request(p: PacketView<ToSend, ConnectionRequestView>, time: Duration)
    requires
        p.message.packet_type == CONNECTION_REQUEST,
        p.sequence != 0,
    ensures
        ({
            let bytes = framed(packet_body::<ConnectionRequest>(p.sequence, p.ack, p.message));
            &&& decodable(bytes)
            &&& decoded(bytes, p.delivery.meta.address, time) == Ok::<
                DecodedView,
                crate::errors::ProtocolError,
            >(DecodedView::ConnectionRequest(as_received(p, time)))
        }),
{
    let message = seq![CONNECTION_REQUEST];
    let body = packet_body::<ConnectionRequest>(p.sequence, p.ack, p.message);
    lemma_framed_parts(body);
    lemma_framed_header(p.sequence, p.ack, message);
    lemma_be32_roundtrip(p.sequence);
    lemma_be32_roundtrip(p.ack);
    let buffer = protocol_id_bytes() + body;
    assert(buffer[12] == CONNECTION_REQUEST);
}

/// Decoding the bytes of a connection accepted packet gives it back, as received.
pub proof fn law_decode_connection_accepted(
    p: PacketView<ToSend, ConnectionAcceptedView>,
    time: Duration,
)
    requires
        p.message.packet_type == CONNECTION_ACCEPTED,
        p.sequence != 0,
        p.message.connection_id != 0,
    ensures
        ({
            let bytes = framed(packet_body::<ConnectionAccepted>(p.sequence, p.ack, p.message));
            &&& decodable(bytes)
            &&& decoded(bytes, p.delivery.meta.address, time) == Ok::<
                DecodedView,
                crate::errors::ProtocolError,
            >(DecodedView::ConnectionAccepted(as_received(p, time)))
        }),
{
    let message = seq![CONNECTION_ACCEPTED] + be16(p.message.connection_id);
    let body = packet_body::<ConnectionAccepted>(p.sequence, p.ack, p.message);
    lemma_framed_parts(body);
    lemma_framed_header(p.sequence, p.ack, message);
    lemma_be32_roundtrip(p.sequence);
    lemma_be32_roundtrip(p.ack);
    lemma_be16_roundtrip(p.message.connection_id);
    let buffer = protocol_id_bytes() + body;
    assert(buffer[12] == CONNECTION_ACCEPTED);
    assert(buffer.subrange(13, 15) =~= be16(p.message.connection_id));
}

/// Decoding the bytes of a data transfer gives it back, payload included, as received.
pub proof fn law_decode_data_transfer(p: PacketView<ToSend, DataTransferView>, time: Duration)
    requires
        p.message.packet_type == DATA_TRANSFER,
        p.sequence != 0,
        p.message.connection_id != 0,
    ensures
        ({
            let bytes = framed(packet_body::<DataTransfer>(p.sequence, p.ack, p.message));
            &&& decodable(bytes)
            &&& decoded(bytes, p.delivery.meta.address, time) == Ok::<
                DecodedView,
                crate::errors::ProtocolError,
            >(DecodedView::DataTransfer(as_received(p, time)))
        }),
{
    let message = seq![DATA_TRANSFER] + be16(p.message.connection_id) + p.message.payload;
    let body = packet_body::<DataTransfer>(p.sequence, p.ack, p.message);
    lemma_framed_parts(body);
    lemma_framed_header(p.sequence, p.ack, message);
    lemma_be32_roundtrip(p.sequence);
    lemma_be32_roundtrip(p.ack);
    lemma_be16_roundtrip(p.message.connection_id);
    let buffer = protocol_id_bytes() + body;
    assert(buffer[12] == DATA_TRANSFER);
    assert(buffer.subrange(13, 15) =~= be16(p.message.connection_id));
    assert(buffer.subrange(15, buffer.len() as int) =~= p.message.payload);
}

/// Decoding the bytes of a fragment gives it back, payload included, as received.
pub proof fn law_decode_fragment(p: PacketView<ToSend, FragmentView>, time: Duration)
    requires
        p.message.packet_type == FRAGMENT,
        p.sequence != 0,
        p.message.connection_id != 0,
    ensures
        ({
            let bytes = framed(packet_body::<Fragment>(p.sequence, p.ack, p.message));
            &&& decodable(bytes)
            &&& decoded(bytes, p.delivery.meta.address, time) == Ok::<
                DecodedView,
                crate::errors::ProtocolError,
            >(DecodedView::Fragment(as_received(p, time)))
        }),
{
    let message = seq![FRAGMENT, p.message.index, p.message.total] + be16(p.message.connection_id)
        + p.message.payload;
    let body = packet_body::<Fragment>(p.sequence, p.ack, p.message);
    lemma_framed_parts(body);
    lemma_framed_header(p.sequence, p.ack, message);
    lemma_be32_roundtrip(p.sequence);
    lemma_be32_roundtrip(p.ack);
    lemma_be16_roundtrip(p.message.connection_id);
    let buffer = protocol_id_bytes() + body;
    assert(buffer[12] == FRAGMENT);
    assert(buffer[13] == p.message.index);
    assert(buffer[14] == p.message.total);
    assert(buffer.subrange(15, 17) =~= be16(p.message.connection_id));
    assert(buffer.subrange(17, buffer.len() as int) =~= p.message.payload);
}

/// Decoding the bytes of a heartbeat gives it back, as received.
pub proof fn law_decode_heartbeat(p: PacketView<ToSend, HeartbeatView>, time: Duration)
    requires
        p.message.packet_type == HEARTBEAT,
        p.sequence != 0,
        p.message.connection_id != 0,
    ensures
        ({
            let bytes = framed(packet_body::<Heartbeat>(p.sequence, p.ack, p.message));
            &&& decodable(bytes)
            &&& decoded(bytes, p.delivery.meta.address, time) == Ok::<
                DecodedView,
                crate::errors::ProtocolError,
            >(DecodedView::Heartbeat(as_received(p, time)))
        }),
{
    let message = seq![HEARTBEAT] + be16(p.message.connection_id);
    let body = packet_body::<Heartbeat>(p.sequence, p.ack, p.message);
    lemma_framed_parts(body);
    lemma_framed_header(p.sequence, p.ack, message);
    lemma_be32_roundtrip(p.sequence);
    lemma_be32_roundtrip(p.ack);
    lemma_be16_roundtrip(p.message.connection_id);
    let buffer = protocol_id_bytes() + body;
    assert(buffer[12] == HEARTBEAT);
    assert(buffer.subrange(13, 15) =~= be16(p.message.connection_id));
}

} // verus!
