//! A TCP pub/sub relay core: framing of a byte stream into messages, the
//! interpretation of decoded envelopes, and routing of outgoing blobs to the
//! live connections.
pub mod messages;
pub mod libserver;
pub mod pdu;
pub mod registry;
pub mod roles;
