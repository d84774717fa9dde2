//! How each message is laid out on the wire, after the sequence and ack of its packet.
use vstd::prelude::*;

use super::{
    ConnectionAccepted, ConnectionAcceptedView, ConnectionRequest, ConnectionRequestView,
    DataTransfer, DataTransferView, Encoder, Fragment, FragmentView, Heartbeat, HeartbeatView,
    Message, ACK_SIZE, CONNECTION_ACCEPTED, CONNECTION_ID_SIZE, CONNECTION_REQUEST, DATA_TRANSFER,
    FRAGMENT, HEARTBEAT, PACKET_TYPE_SIZE, PROTOCOL_ID_SIZE, SEQUENCE_SIZE,
};
use crate::bytes::{be16, push_be16};

verus! {

/// Appends every byte of `bytes` to `out`.
pub fn push_all(out: &mut Vec<u8>, bytes: &[u8])
    ensures
        final(out)@ == old(out)@ + bytes@,
{
    let mut i: usize = 0;
    while i < bytes.len()
        invariant
            i <= bytes@.len(),
            out@ == old(out)@ + bytes@.subrange(0, i as int),
        decreases bytes@.len() - i,
    {
        out.push(bytes[i]);
        i = i + 1;
        assert(out@ =~= old(out)@ + bytes@.subrange(0, i as int));
    }
    assert(bytes@.subrange(0, bytes@.len() as int) =~= bytes@);
}

/// The encoding of a connection request: its type code.
pub open spec fn spec_encoded_connection_request(m: ConnectionRequestView) -> Seq<u8> {
    seq![CONNECTION_REQUEST]
}

/// The encoding of a connection accepted message: its type code and connection id.
pub open spec fn spec_encoded_connection_accepted(m: ConnectionAcceptedView) -> Seq<u8> {
    seq![CONNECTION_ACCEPTED] + be16(m.connection_id)
}

/// The encoding of a data transfer: its type code, connection id and payload.
pub open spec fn spec_encoded_data_transfer(m: DataTransferView) -> Seq<u8> {
    seq![DATA_TRANSFER] + be16(m.connection_id) + m.payload
}

/// The encoding of a fragment: its type code, index, total, connection id and payload.
pub open spec fn spec_encoded_fragment(m: FragmentView) -> Seq<u8> {
    seq![FRAGMENT, m.index, m.total] + be16(m.connection_id) + m.payload
}

/// The encoding of a heartbeat: its type code and connection id.
pub open spec fn spec_encoded_heartbeat(m: HeartbeatView) -> Seq<u8> {
    seq![HEARTBEAT] + be16(m.connection_id)
}

impl Encoder for ConnectionRequest {
    open spec fn spec_header_size() -> nat {
        13
    }

    fn header_size() -> (r: usize) {
        PROTOCOL_ID_SIZE + SEQUENCE_SIZE + ACK_SIZE + PACKET_TYPE_SIZE
    }

    open spec fn spec_encoded(m: ConnectionRequestView) -> Seq<u8> {
        spec_encoded_connection_request(m)
    }

    fn encoded(&self) -> (r: Vec<u8>) {
        let packet_type_bytes = <ConnectionRequest as Message>::packet_type_bytes();
        let mut encoded: Vec<u8> = Vec::new();
        push_all(&mut encoded, &packet_type_bytes);
        assert(encoded@ =~= spec_encoded_connection_request(self@));
        encoded
    }
}

impl Encoder for ConnectionAccepted {
    open spec fn spec_header_size() -> nat {
        15
    }

    fn header_size() -> (r: usize) {
        PROTOCOL_ID_SIZE + SEQUENCE_SIZE + ACK_SIZE + PACKET_TYPE_SIZE + CONNECTION_ID_SIZE
    }

    open spec fn spec_encoded(m: ConnectionAcceptedView) -> Seq<u8> {
        spec_encoded_connection_accepted(m)
    }

    fn encoded(&self) -> (r: Vec<u8>) {
        let packet_type_bytes = <ConnectionAccepted as Message>::packet_type_bytes();
        let mut encoded: Vec<u8> = Vec::new();
        push_all(&mut encoded, &packet_type_bytes);
        push_be16(&mut encoded, self.connection_id.get());
        assert(encoded@ =~= spec_encoded_connection_accepted(self@));
        encoded
    }
}

impl Encoder for DataTransfer {
    open spec fn spec_header_size() -> nat {
        15
    }

    fn header_size() -> (r: usize) {
        PROTOCOL_ID_SIZE + SEQUENCE_SIZE + ACK_SIZE + PACKET_TYPE_SIZE + CONNECTION_ID_SIZE
    }

    open spec fn spec_encoded(m: DataTransferView) -> Seq<u8> {
        spec_encoded_data_transfer(m)
    }

    fn encoded(&self) -> (r: Vec<u8>) {
        let packet_type_bytes = <DataTransfer as Message>::packet_type_bytes();
        let mut encoded: Vec<u8> = Vec::new();
        push_all(&mut encoded, &packet_type_bytes);
        push_be16(&mut encoded, self.connection_id.get());
        push_all(&mut encoded, self.payload.as_slice());
        assert(encoded@ =~= spec_encoded_data_transfer(self@));
        encoded
    }
}

impl Encoder for Fragment {
    open spec fn spec_header_size() -> nat {
        17
    }

    fn header_size() -> (r: usize) {
        PROTOCOL_ID_SIZE + SEQUENCE_SIZE + ACK_SIZE + PACKET_TYPE_SIZE + 1 + 1 + CONNECTION_ID_SIZE
    }

    open spec fn spec_encoded(m: FragmentView) -> Seq<u8> {
        spec_encoded_fragment(m)
    }

    fn encoded(&self) -> (r: Vec<u8>) {
        let packet_type_bytes = <Fragment as Message>::packet_type_bytes();
        let mut encoded: Vec<u8> = Vec::new();
        push_all(&mut encoded, &packet_type_bytes);
        encoded.push(self.index);
        encoded.push(self.total);
        push_be16(&mut encoded, self.connection_id.get());
        push_all(&mut encoded, self.payload.as_slice());
        assert(encoded@ =~= spec_encoded_fragment(self@));
        encoded
    }
}

impl Encoder for Heartbeat {
    open spec fn spec_header_size() -> nat {
        15
    }

    fn header_size() -> (r: usize) {
        PROTOCOL_ID_SIZE + SEQUENCE_SIZE + ACK_SIZE + PACKET_TYPE_SIZE + CONNECTION_ID_SIZE
    }

    open spec fn spec_encoded(m: HeartbeatView) -> Seq<u8> {
        spec_encoded_heartbeat(m)
    }

    fn encoded(&self) -> (r: Vec<u8>) {
        let packet_type_bytes = <Heartbeat as Message>::packet_type_bytes();
        let mut encoded: Vec<u8> = Vec::new();
        push_all(&mut encoded, &packet_type_bytes);
        push_be16(&mut encoded, self.connection_id.get());
        assert(encoded@ =~= spec_encoded_heartbeat(self@));
        encoded
    }
}

} // verus!
