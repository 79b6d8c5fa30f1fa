//! Core of a line-oriented multi-client chat service: sessions with their
//! buffers, a registry of live sessions keyed by unique ids, the naming
//! handshake, message fan-out to every registered session except the
//! originator, and the per-session worker step that turns each read into
//! deliveries or a departure. An RC4-style stream cipher, available for
//! enciphering traffic, sits in its own module.
//!
//! The transports themselves — sockets, blocking reads, threads — stay with
//! the caller: the library takes the text a transport yielded and hands back
//! the text each transport must send.

pub mod handshake;
pub mod messages;
pub mod rc4;
pub mod registry;
pub mod session;
pub mod worker;
