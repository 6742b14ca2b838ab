//! Encoding of outgoing packets: a header plus already-serialized payload
//! bytes, framed verifiably into one buffer. Serializing a payload value to
//! bytes lives with the transport around this library.

use vstd::prelude::*;

use core::marker::PhantomData;

use vstd::slice::slice_to_vec;

use crate::proto::header::spec_header_bytes;
use crate::proto::header::PacketHeader;
use crate::proto::packet::PacketPayload;

verus! {

/// A packet being prepared for sending: its header, the serialized payload
/// bytes, and the payload type they were serialized from.
#[derive(Debug)]
pub struct EncodedPacket<P: PacketPayload> {
    pub header: PacketHeader,
    pub payload: Vec<u8>,
    pub payload_type: PhantomData<P>,
}

impl<P: PacketPayload> EncodedPacket<P> {
    /// Wraps serialized payload bytes with a fresh header.
    pub fn from_payload_bytes(payload: Vec<u8>) -> (r: Self)
        ensures
            r.header == (PacketHeader { message_id: 0u32, response_to: None::<u32> }),
            r.payload == payload,
    {
        EncodedPacket {
            header: PacketHeader::new_default(),
            payload,
            payload_type: PhantomData,
        }
    }

    /// Gives the packet its message id.
    pub fn with_id(self, id: u32) -> (r: Self)
        ensures
            r.header.message_id == id,
            r.header.response_to == self.header.response_to,
            r.payload == self.payload,
    {
        EncodedPacket {
            header: PacketHeader { message_id: id, response_to: self.header.response_to },
            payload: self.payload,
            payload_type: PhantomData,
        }
    }

    /// Marks the packet as a response to the given message id.
    pub fn with_response_to(self, id: u32) -> (r: Self)
        ensures
            r.header.message_id == self.header.message_id,
            r.header.response_to == Some(id),
            r.payload == self.payload,
    {
        EncodedPacket {
            header: PacketHeader { message_id: self.header.message_id, response_to: Some(id) },
            payload: self.payload,
            payload_type: PhantomData,
        }
    }

    /// The message id this packet carries.
    pub fn message_id(&self) -> (r: u32)
        ensures
            r == self.header.message_id,
    {
        self.header.message_id
    }

    /// The id of the message this packet responds to, if any.
    pub fn response_to(&self) -> (r: Option<u32>)
        ensures
            r == self.header.response_to,
    {
        self.header.response_to
    }

    /// Frames the packet for the wire: the encoded header followed by the
    /// payload bytes.
    pub fn to_bytes(&self) -> (r: Vec<u8>)
        ensures
            r@ == spec_header_bytes(self.header) + self.payload@,
    {
        let mut bytes = self.header.to_bytes();
        let mut payload = slice_to_vec(self.payload.as_slice());
        bytes.append(&mut payload);
        bytes
    }
}

} // verus!
