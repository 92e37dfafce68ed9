//! The core's RPC portal endpoint and the run-instance retry budget. The RPC
//! calls themselves go through the easytier client, outside this library.

use vstd::prelude::*;
use crate::text::{append_str, dec_nat, push_dec_u64, string_of};

verus! {

/// Connect attempts for `run_network_instance` on a cold core (~6 s).
pub const RUN_MAX_ATTEMPTS: u32 = 30;

/// Delay between those attempts, in milliseconds.
pub const RUN_RETRY_DELAY_MS: u64 = 200;

/// Holder of the current core's RPC portal port (none while no core runs).
#[derive(Debug, Clone, Copy, PartialEq, Eq, Structural)]
pub struct RpcClient {
    port: Option<u16>,
}

impl RpcClient {
    /// The port a client currently targets.
    pub closed spec fn spec_port(&self) -> Option<u16> {
        self.port
    }

    /// No port yet.
    pub fn new() -> (c: RpcClient)
        ensures
            c.spec_port() is None,
    {
        RpcClient { port: None }
    }

    /// Point the client at a (new) core, or at none.
    pub fn set_port(&mut self, port: Option<u16>)
        ensures
            final(self).spec_port() == port,
    {
        self.port = port;
    }

    /// The current port.
    pub fn port(&self) -> (p: Option<u16>)
        ensures
            p == self.spec_port(),
    {
        self.port
    }

    /// The portal URL for the current port, or the error when no core runs.
    pub fn portal_url(&self) -> (r: Result<String, String>)
        ensures
            match self.spec_port() {
                Some(p) => (r matches Ok(u) && u@ == "tcp://127.0.0.1:"@ + dec_nat(p as nat)),
                None => (r matches Err(e) && e@ == "core is not running (no rpc port)"@),
            },
    {
        match self.port {
            Some(p) => {
                let mut v: Vec<char> = Vec::new();
                append_str(&mut v, "tcp://127.0.0.1:");
                push_dec_u64(&mut v, p as u64);
                Ok(string_of(&v))
            },
            None => Err("core is not running (no rpc port)".to_owned()),
        }
    }
}

impl Default for RpcClient {
    fn default() -> (c: RpcClient)
        ensures
            c.spec_port() is None,
    {
        RpcClient::new()
    }
}

/// After failed attempt number `attempt` (counting from 0), whether to wait
/// and try again.
pub fn retry_after(attempt: u32) -> (again: bool)
    ensures
        again == (attempt as int + 1 < RUN_MAX_ATTEMPTS as int),
{
    attempt < RUN_MAX_ATTEMPTS - 1
}

/// The error when every attempt failed, naming the last error.
pub fn run_gave_up(last_err: &str) -> (m: String)
    ensures
        m@ == "run network instance failed after "@ + dec_nat(RUN_MAX_ATTEMPTS as nat) + " attempts: "@
            + last_err@,
{
    let mut v: Vec<char> = Vec::new();
    append_str(&mut v, "run network instance failed after ");
    push_dec_u64(&mut v, RUN_MAX_ATTEMPTS as u64);
    append_str(&mut v, " attempts: ");
    append_str(&mut v, last_err);
    string_of(&v)
}

} // verus!
