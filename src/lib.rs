//! Control plane for the access-point and supplicant daemons' datagram
//! control interfaces: wire framing, reply and event parsing, and the
//! decisions of the per-interface runtime actors.
//!
//! The runtimes that own the sockets and channels hand the verified
//! functions here plain values (received datagrams, connect outcomes,
//! reply handles) and act on what they return.

pub mod ap;
pub mod error;
pub mod kv;
pub mod number;
pub mod sta;
pub mod startup;
pub mod text;
pub mod wire;
