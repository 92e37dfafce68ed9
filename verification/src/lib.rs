//! Verified core of the EasyTier macOS supervisor, bridge and GUI helpers.
//!
//! The library holds the protocol codec, the supervisor's owner-lease and core
//! lifecycle state machine, the client driver's decisions, and the pure helpers
//! (authorization, hook gating, orphan matching, conflict classification,
//! profile bookkeeping). Process spawning, sockets and files stay with the
//! caller, which feeds this library plain values and performs the actions it
//! returns.

pub mod bridge;
pub mod gui;
pub mod json;
pub mod paths;
pub mod supervisor;
pub mod text;
