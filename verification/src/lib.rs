//! Observation core of a man-in-the-middle relay for a length-prefixed,
//! VarInt-framed binary protocol: the VarInt codec, the stateful frame
//! reassembler, the packet-name registry, the protocol-phase state machine,
//! and the per-session relay decisions. Socket handling lives outside.

pub mod frame;
pub mod hash;
pub mod packet;
pub mod session;
pub mod varint;
