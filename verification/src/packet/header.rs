//! The header of the earlier packet layout, typed by the kind of packet it belongs to.
use core::marker::PhantomData;
use vstd::prelude::*;

use super::{StatusCode, CONNECTION_ACCEPTED, CONNECTION_REQUEST, DATA_TRANSFER, HEARTBEAT};
use crate::packets::Ack;
use crate::sequence::{sequence_of, Sequence};

verus! {

/// What every header holds: the packet's sequence number, the ack of the latest remote packet,
/// the earlier acks, the status code and the length of the payload.
#[derive(Debug, PartialEq, Clone, Copy, Eq, Hash, PartialOrd)]
pub struct HeaderInfo {
    pub sequence: Sequence,
    pub ack: Ack,
    pub past_acks: u16,
    pub status_code: StatusCode,
    pub payload_length: u16,
}

/// The kind of a connection request header.
#[derive(Debug, PartialEq, Clone, Eq, Hash, PartialOrd)]
pub struct ConnectionRequest;

/// The kind of a connection accepted header.
#[derive(Debug, PartialEq, Clone, Eq, Hash, PartialOrd)]
pub struct ConnectionAccepted;

/// The kind of a data transfer header.
#[derive(Debug, PartialEq, Clone, PartialOrd)]
pub struct DataTransfer;

/// The kind of a heartbeat header.
#[derive(Debug, PartialEq, Clone, Eq, Hash, PartialOrd)]
pub struct Heartbeat;

/// The kind of a header that was read but not yet classified.
#[derive(Debug, PartialEq, Clone, Eq, Hash, PartialOrd)]
pub struct Generic;

/// A header of the kind `Kind`.
#[derive(Debug, PartialEq, Eq, Hash, PartialOrd)]
pub struct Header<Kind> {
    pub info: HeaderInfo,
    pub marker: PhantomData<Kind>,
}

impl<Kind> Clone for Header<Kind> {
    fn clone(&self) -> (r: Self)
        ensures
            r.info == self.info,
    {
        Header { info: self.info, marker: PhantomData }
    }
}

/// The bytes of an encoded header: sequence number, ack, past acks, status code, payload length
/// and protocol id.
pub const ENCODED_SIZE: usize = 18;

impl Header<ConnectionRequest> {
    /// The header of a connection request: the first sequence number, no ack and no payload.
    pub fn connection_request() -> (r: Header<ConnectionRequest>)
        ensures
            r.info == (HeaderInfo {
                sequence: sequence_of(1),
                ack: 0,
                past_acks: 0,
                status_code: CONNECTION_REQUEST,
                payload_length: 0,
            }),
    {
        let info = HeaderInfo {
            sequence: Sequence::new_unchecked(1),
            ack: 0,
            past_acks: 0,
            status_code: CONNECTION_REQUEST,
            payload_length: 0,
        };
        proof {
            crate::sequence::lemma_sequence_of_view(1);
            crate::sequence::lemma_sequence_view_injective(info.sequence, sequence_of(1));
        }
        Header { info, marker: PhantomData }
    }
}

impl Header<ConnectionAccepted> {
    /// The header of a connection accepted packet: the first sequence number, the ack `ack`
    /// and no payload.
    pub fn connection_accepted(ack: u32) -> (r: Header<ConnectionAccepted>)
        ensures
            r.info == (HeaderInfo {
                sequence: sequence_of(1),
                ack,
                past_acks: 0,
                status_code: CONNECTION_ACCEPTED,
                payload_length: 0,
            }),
    {
        let info = HeaderInfo {
            sequence: Sequence::new_unchecked(1),
            ack,
            past_acks: 0,
            status_code: CONNECTION_ACCEPTED,
            payload_length: 0,
        };
        proof {
            crate::sequence::lemma_sequence_of_view(1);
            crate::sequence::lemma_sequence_view_injective(info.sequence, sequence_of(1));
        }
        Header { info, marker: PhantomData }
    }
}

impl Header<DataTransfer> {
    /// The header of a data transfer with `sequence`, `ack` and a payload of `payload_length`
    /// bytes.
    pub fn data_transfer(sequence: Sequence, ack: u32, payload_length: u16) -> (r: Header<
        DataTransfer,
    >)
        ensures
            r.info == (HeaderInfo {
                sequence,
                ack,
                past_acks: 0,
                status_code: DATA_TRANSFER,
                payload_length,
            }),
    {
        let info = HeaderInfo {
            sequence,
            ack,
            past_acks: 0,
            status_code: DATA_TRANSFER,
            payload_length,
        };
        Header { info, marker: PhantomData }
    }
}

impl Header<Heartbeat> {
    /// The header of a heartbeat with `sequence` and `ack`: the heartbeat status code, and no
    /// payload.
    pub fn heartbeat(sequence: Sequence, ack: u32) -> (r: Header<Heartbeat>)
        ensures
            r.info == (HeaderInfo {
                sequence,
                ack,
                past_acks: 0,
                status_code: HEARTBEAT,
                payload_length: 0,
            }),
    {
        let info = HeaderInfo { sequence, ack, past_acks: 0, status_code: HEARTBEAT, payload_length: 0 };
        Header { info, marker: PhantomData }
    }
}

} // verus!
