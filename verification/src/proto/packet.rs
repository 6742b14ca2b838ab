//! The packet payloads of the wire protocol, as plain values. Their wire
//! serialization lives with the transport around this library; the library
//! itself frames headers and payload bytes.

use vstd::prelude::*;

verus! {

/// Marker for the value types that travel as packet payloads.
pub trait PacketPayload {

}

/// A packet sent from the client to the server.
#[derive(Debug, Clone, PartialEq)]
pub enum C2SPacket {
    KeepAliveResponse,
    QueryRequest(C2SQueryRequestPacket),
}

/// A request to run one statement text.
#[derive(Debug, Clone, PartialEq)]
pub struct C2SQueryRequestPacket {
    pub query: String,
}

/// A packet sent from the server to the client.
#[derive(Debug, PartialEq)]
pub enum S2CPacket {
    KeepAliveRequest,
    QueryResponse(Result<S2CQuerySuccessResponsePacket, S2CQueryErrorResponsePacket>),
}

/// A successful query response.
#[derive(Debug, Clone, PartialEq)]
pub struct S2CQuerySuccessResponsePacket {
    pub schema: String,
    pub data: Vec<String>,
}

/// A failed query response.
#[derive(Debug, Clone, PartialEq)]
pub struct S2CQueryErrorResponsePacket {
    pub error: String,
}

impl PacketPayload for C2SPacket {

}

impl PacketPayload for S2CPacket {

}

} // verus!
