//! A reliable byte stream carried over unreliable datagrams: the wire format
//! of its segments, the stop-and-wait state machines of both endpoints, and
//! the per-peer registry of a listening endpoint.

pub mod client;
pub mod exchange;
pub mod header;
pub mod packet;
pub mod phase;
pub mod server;
pub mod socket;
