//! GUI-side helpers: conflict detection, profile and state bookkeeping, the
//! RPC port holder, and the auto-restart policy.

pub mod conflict;
pub mod profiles;
pub mod restart;
pub mod rpc;
