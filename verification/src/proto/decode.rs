//! Decoding of received packets: the verified framing — checking that a
//! buffer holds a full header, splitting header from payload bytes — and the
//! read-only packet value the transport builds from the decoded parts.

use vstd::prelude::*;

use vstd::slice::slice_subrange;

use crate::proto::header::spec_header_of_bytes;
use crate::proto::header::PacketHeader;
use crate::proto::header::PACKET_HEADER_SIZE;
use crate::proto::packet::PacketPayload;

verus! {

/// An error that can occur when decoding a packet.
#[derive(Debug, Clone, Copy, PartialEq, Eq, Structural)]
pub enum DecodeError {
    /// The packet was not long enough to contain a full header.
    InvalidHeaderLength,
    /// The packet payload did not decode as the expected type.
    PayloadDecodeError,
}

/// Splits a received buffer into its decoded header and its payload bytes.
/// Fails exactly when the buffer is too short to hold a full header.
pub fn split_frame(bytes: &[u8]) -> (r: Result<(PacketHeader, &[u8]), DecodeError>)
    ensures
        match r {
            Ok((header, payload)) => {
                &&& bytes@.len() >= PACKET_HEADER_SIZE
                &&& header == spec_header_of_bytes(
                    bytes@.subrange(0, PACKET_HEADER_SIZE as int),
                )
                &&& payload@ == bytes@.subrange(PACKET_HEADER_SIZE as int, bytes@.len() as int)
            },
            Err(e) => bytes@.len() < PACKET_HEADER_SIZE && e == DecodeError::InvalidHeaderLength,
        },
{
    if bytes.len() < PACKET_HEADER_SIZE {
        return Err(DecodeError::InvalidHeaderLength);
    }
    let header_bytes = slice_subrange(bytes, 0, PACKET_HEADER_SIZE);
    let header = PacketHeader::from_bytes(header_bytes);
    let payload = slice_subrange(bytes, PACKET_HEADER_SIZE, bytes.len());
    Ok((header, payload))
}

/// Read-only representation of a packet received from the peer: its header
/// and its decoded payload value.
#[derive(Debug)]
pub struct DecodedPacket<P: PacketPayload> {
    pub header: PacketHeader,
    pub payload: P,
}

impl<P: PacketPayload> DecodedPacket<P> {
    /// Assembles a received packet from its decoded parts.
    pub fn from_parts(header: PacketHeader, payload: P) -> (r: Self)
        ensures
            r.header == header,
            r.payload == payload,
    {
        DecodedPacket { header, payload }
    }

    /// The message id the peer gave this packet.
    pub fn message_id(&self) -> (r: u32)
        ensures
            r == self.header.message_id,
    {
        self.header.message_id
    }

    /// The id of the message this packet responds to, if any.
    pub fn response_to(&self) -> (r: Option<u32>)
        ensures
            r == self.header.response_to,
    {
        self.header.response_to
    }

    /// The payload value.
    pub fn payload(&self) -> (r: &P)
        ensures
            r == &self.payload,
    {
        &self.payload
    }
}

} // verus!
