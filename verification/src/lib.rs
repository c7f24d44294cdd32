//! A multi-client text chat relay core: per-connection protocol state
//! machines (name negotiation, framing, self-echo suppression) around a
//! single process-wide broadcast bus. The frame codecs, the handshake and
//! the relaying decisions are verified; sockets, clocks and the bus itself
//! stay behind small trusted wrappers.

pub mod config;
pub mod internal;
