//! Admission and session tracking for a reflecting tunnel endpoint.
//!
//! Every IPv4 datagram addressed to the synthetic gateway is either dropped
//! or sent back to its sender with the two address fields exchanged. Which of
//! the two happens is decided by a small stateful policy: control-port
//! traffic is always reflected, and a data connection on two adjacent ports
//! is reflected once it was opened shortly after a control handshake.

pub mod policy;
pub mod tracker;
pub mod classify;
pub mod wire;
pub mod reflect;
pub mod laws;
