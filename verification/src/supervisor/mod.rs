//! The privileged supervisor: control protocol, owner lease, core lifecycle,
//! authorization, hooks and orphan reconciliation.

pub mod auth;
pub mod config;
pub mod core_proc;
pub mod hooks;
pub mod janitor;
pub mod proto;
pub mod server;
