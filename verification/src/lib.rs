//! Content exchange between peers of a decentralized overlay: the typed
//! request/response vocabulary, its length-prefixed wire framing, and the
//! decisions a node takes on gossip, request/response and membership events.

pub mod codec;
pub mod dispatch;
pub mod file_exchange;
pub mod framing;
pub mod membership;
pub mod message;
pub mod reader;
pub mod roundtrip;
pub mod text;
pub mod varint;
pub mod wire;
