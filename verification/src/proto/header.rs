//! The fixed-size packet header of the wire protocol: a message id and an
//! optional id of the message this one responds to, each carried as a
//! little-endian 32-bit word. An absent response id is encoded as the word
//! zero.

use vstd::prelude::*;

use vstd::bytes::spec_u32_from_le_bytes;
use vstd::bytes::spec_u32_to_le_bytes;
use vstd::bytes::u32_from_le_bytes;
use vstd::bytes::u32_to_le_bytes;
use vstd::slice::slice_subrange;

verus! {

/// The byte size of an encoded packet header.
pub const PACKET_HEADER_SIZE: usize = 8;

/// A packet header.
#[derive(Debug, Clone, Copy, PartialEq, Eq)]
pub struct PacketHeader {
    pub message_id: u32,
    pub response_to: Option<u32>,
}

/// The response word a header encodes: the response id, or zero when absent.
pub open spec fn spec_response_word(response_to: Option<u32>) -> u32 {
    match response_to {
        None => 0u32,
        Some(x) => x,
    }
}

/// The header an 8-byte buffer decodes to.
pub open spec fn spec_header_of_bytes(b: Seq<u8>) -> PacketHeader {
    PacketHeader {
        message_id: spec_u32_from_le_bytes(b.subrange(0, 4)),
        response_to: if spec_u32_from_le_bytes(b.subrange(4, 8)) == 0 {
            None
        } else {
            Some(spec_u32_from_le_bytes(b.subrange(4, 8)))
        },
    }
}

/// The 8 bytes a header encodes to.
pub open spec fn spec_header_bytes(h: PacketHeader) -> Seq<u8> {
    spec_u32_to_le_bytes(h.message_id) + spec_u32_to_le_bytes(spec_response_word(h.response_to))
}

impl PacketHeader {
    /// Decodes a header from the first 8 bytes of a buffer.
    pub fn from_bytes(bytes: &[u8]) -> (r: Self)
        requires
            bytes@.len() == PACKET_HEADER_SIZE,
        ensures
            r == spec_header_of_bytes(bytes@),
    {
        let message_id = u32_from_le_bytes(slice_subrange(bytes, 0, 4));
        let response_word = u32_from_le_bytes(slice_subrange(bytes, 4, 8));
        PacketHeader {
            message_id,
            response_to: if response_word == 0 {
                None
            } else {
                Some(response_word)
            },
        }
    }

    /// Encodes the header as its 8 bytes.
    pub fn to_bytes(&self) -> (r: Vec<u8>)
        ensures
            r@ == spec_header_bytes(*self),
            r@.len() == PACKET_HEADER_SIZE,
    {
        let mut bytes = u32_to_le_bytes(self.message_id);
        let word = match self.response_to {
            Some(x) => x,
            None => 0,
        };
        let mut rest = u32_to_le_bytes(word);
        bytes.append(&mut rest);
        bytes
    }

    /// A header with a zero message id and no response id, the state a fresh
    /// packet starts from.
    pub fn new_default() -> (r: Self)
        ensures
            r == (PacketHeader { message_id: 0u32, response_to: None::<u32> }),
    {
        PacketHeader { message_id: 0, response_to: None }
    }
}

/// Round trip of the header encoding: decoding what a header encodes to
/// gives the header back, for every header whose response id is not the
/// reserved word zero (an explicit response id of zero is indistinguishable
/// from an absent one by construction).
pub proof fn lemma_header_round_trip(h: PacketHeader)
    requires
        h.response_to != Some(0u32),
    ensures
        spec_header_of_bytes(spec_header_bytes(h)) == h,
{
    vstd::bytes::lemma_auto_spec_u32_to_from_le_bytes();
    let b = spec_header_bytes(h);
    assert(b.subrange(0, 4) =~= spec_u32_to_le_bytes(h.message_id));
    assert(b.subrange(4, 8) =~= spec_u32_to_le_bytes(spec_response_word(h.response_to)));
}

} // verus!
