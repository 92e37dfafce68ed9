//! Client-side view of the supervisor control protocol v1 (JSON Lines, UTF-8,
//! one object per line). The client sends [`Cmd`] lines and receives
//! [`Event`] lines; an `Unknown` catch-all keeps it compatible with
//! supervisors that add event kinds.

use vstd::prelude::*;
use crate::json::json_bool;
use crate::text::{dec_nat, has_prefix, one_line, push_dec_u64, push_lit, string_of};

verus! {

/// Protocol version spoken by this client.
pub const PROTO_VERSION: u32 = 1;

/// Coarse core lifecycle state as reported on the wire (`"stopped"`/`"running"`).
#[derive(Debug, Clone, Copy, PartialEq, Eq, Structural)]
pub enum CoreState {
    Stopped,
    Running,
}

/// Client -> supervisor requests, tagged by `cmd` on the wire.
#[derive(Debug, Clone, Copy, PartialEq, Eq, Structural)]
pub enum Cmd {
    Hello { proto: u32, takeover: bool },
    Start,
    Status,
    Stop,
}

/// Supervisor -> client replies and pushes, tagged by `event` on the wire.
#[derive(Debug, Clone, PartialEq, Eq)]
#[allow(inconsistent_fields)]
pub enum Event {
    Hello { proto: u32, version: String, core: CoreState, rpc_port: Option<u16> },
    CoreStarted { pid: i32, rpc_port: u16 },
    Status { core: CoreState, pid: Option<i32>, rpc_port: Option<u16> },
    CoreStopped { reason: String },
    CoreExited { code: Option<i32>, signal: Option<i32> },
    Error { code: String, msg: String },
    Busy { owner: bool },
    Kicked,
    /// Any event kind this client does not know.
    Unknown,
}

/// The JSON object for a command.
pub open spec fn cmd_json(c: Cmd) -> Seq<char> {
    match c {
        Cmd::Hello { proto, takeover } => "{\"cmd\":\"hello\",\"proto\":"@ + dec_nat(proto as nat)
            + ",\"takeover\":"@ + json_bool(takeover) + "}"@,
        Cmd::Start => "{\"cmd\":\"start\"}"@,
        Cmd::Status => "{\"cmd\":\"status\"}"@,
        Cmd::Stop => "{\"cmd\":\"stop\"}"@,
    }
}

/// Encode a command as a single `\n`-terminated JSON line.
pub fn encode_cmd(cmd: &Cmd) -> (line: String)
    ensures
        line@ == cmd_json(*cmd).push('\n'),
        one_line(line@),
{
    proof {
        reveal_strlit("{\"cmd\":\"hello\",\"proto\":");
        reveal_strlit(",\"takeover\":");
        reveal_strlit("}");
        reveal_strlit("{\"cmd\":\"start\"}");
        reveal_strlit("{\"cmd\":\"status\"}");
        reveal_strlit("{\"cmd\":\"stop\"}");
    }
    let mut out: Vec<char> = Vec::new();
    match cmd {
        Cmd::Hello { proto, takeover } => {
            push_lit(&mut out, "{\"cmd\":\"hello\",\"proto\":");
            push_dec_u64(&mut out, *proto as u64);
            push_lit(&mut out, ",\"takeover\":");
            crate::json::push_json_bool(&mut out, *takeover);
            push_lit(&mut out, "}");
        },
        Cmd::Start => push_lit(&mut out, "{\"cmd\":\"start\"}"),
        Cmd::Status => push_lit(&mut out, "{\"cmd\":\"status\"}"),
        Cmd::Stop => push_lit(&mut out, "{\"cmd\":\"stop\"}"),
    }
    let ghost body = out@;
    out.push('\n');
    assert(out@ =~= cmd_json(*cmd).push('\n'));
    assert(out@.drop_last() =~= body);
    string_of(&out)
}

/// Every command's line starts with its own `cmd` tag, the snake_case name
/// the supervisor decodes it by, followed by the next field or the end.
pub proof fn law_cmd_tags(c: Cmd)
    ensures
        match c {
            Cmd::Hello { .. } => has_prefix(cmd_json(c), "{\"cmd\":\"hello\","@),
            Cmd::Start => cmd_json(c) == "{\"cmd\":\"start\"}"@,
            Cmd::Status => cmd_json(c) == "{\"cmd\":\"status\"}"@,
            Cmd::Stop => cmd_json(c) == "{\"cmd\":\"stop\"}"@,
        },
{
    match c {
        Cmd::Hello { .. } => {
            reveal_strlit("{\"cmd\":\"hello\",");
            reveal_strlit("{\"cmd\":\"hello\",\"proto\":");
            assert(cmd_json(c).take("{\"cmd\":\"hello\","@.len() as int) =~= "{\"cmd\":\"hello\","@);
        },
        _ => {},
    }
}

} // verus!
