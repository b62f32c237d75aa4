//! Fetch one web page over a user-space network stack: resolve the host with a
//! hand-built DNS query, pick a locally administered hardware address, and drive
//! a single TCP connection through an explicit state machine.

pub mod dns;
pub mod ethernet;
pub mod http;
pub mod random;
