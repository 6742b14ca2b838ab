//! The wire-protocol value model: packet headers, payload values, and the
//! verified framing of both directions.

pub mod decode;
pub mod encode;
pub mod header;
pub mod packet;
