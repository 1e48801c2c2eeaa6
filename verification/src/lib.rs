//! Core of a layered tunneling proxy: a length-prefixed datagram framing
//! codec for carrying UDP packets over byte streams, a credential digest
//! helper, capability traits for pluggable transports, a bidirectional
//! relay engine with shutdown-on-all-paths, and a dispatch loop with
//! per-connection failure isolation.

pub mod address;
pub mod auth;
pub mod codec;
pub mod error;
pub mod proxy;
pub mod relay;
pub mod stream;
pub mod trojan;
