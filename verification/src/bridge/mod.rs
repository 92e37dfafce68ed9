//! The GUI-side bridge: the client view of the control protocol, the
//! supervisor driver's decisions, the event schema handed to the app, and the
//! install helpers.

pub mod events;
pub mod install;
pub mod proto;
pub mod supervisor_client;
