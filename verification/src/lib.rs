//! Verified core of an administration client for a line-oriented,
//! text-based remote-control protocol spoken by a long-running game server.
//!
//! The library holds the protocol logic itself: the login handshake,
//! the command wire encoding, the single pending-response slot that
//! correlates one in-flight command with one response, and the pure
//! helpers around the account store and the map assets.  Socket I/O and
//! task plumbing live outside the library and hand it plain values.

pub mod account;
pub mod bytes;
pub mod commands;
pub mod config;
pub mod handshake;
pub mod response;
pub mod room;
pub mod session;
pub mod w3x;
pub mod wire;
