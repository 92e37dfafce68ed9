//! Control protocol v1 (JSON Lines, UTF-8, one object per line), supervisor
//! side. Clients send `cmd` objects; the supervisor replies and pushes `event`
//! objects. Every event is written as exactly one `\n`-terminated line.

use vstd::prelude::*;
use crate::json::{json_bool, json_opt_int, json_string, push_json_bool, push_json_str, push_opt_i32, push_opt_u16};
use crate::text::{dec_int, dec_nat, has_prefix, no_nl, one_line, push_dec_i64, push_lit, string_of};

verus! {

/// Protocol version spoken by this supervisor.
pub const PROTO_VERSION: u32 = 1;

/// Coarse core lifecycle state as reported on the wire (`"stopped"`/`"running"`).
#[derive(Debug, Clone, Copy, PartialEq, Eq, Structural)]
pub enum CoreState {
    Stopped,
    Running,
}

/// Client -> supervisor requests, tagged by `cmd` on the wire.
#[derive(Debug, Clone, Copy, PartialEq, Eq, Structural)]
pub enum Cmd {
    Hello { proto: u32, takeover: bool },
    Start,
    Status,
    Stop,
}

/// Supervisor -> client replies and pushes, tagged by `event` on the wire.
#[derive(Debug, Clone, PartialEq, Eq)]
#[allow(inconsistent_fields)]
pub enum Event {
    Hello { proto: u32, version: String, core: CoreState, rpc_port: Option<u16> },
    CoreStarted { pid: i32, rpc_port: u16 },
    Status { core: CoreState, pid: Option<i32>, rpc_port: Option<u16> },
    CoreStopped { reason: String },
    /// Core exited on its own (crash/external kill). The supervisor cleans up
    /// but does not restart it; that decision belongs to the client.
    CoreExited { code: Option<i32>, signal: Option<i32> },
    Error { code: String, msg: String },
    /// A second connection asked for the lease while an owner exists and did
    /// not request takeover.
    Busy { owner: bool },
    /// This connection's lease was taken over by a `hello.takeover=true` peer.
    Kicked,
}

impl Event {
    /// An `error` event with the given code and message.
    pub fn error(code: &str, msg: &str) -> (ev: Event)
        ensures
            ev matches Event::Error { code: c, msg: m } && c@ == code@ && m@ == msg@,
    {
        Event::Error { code: code.to_owned(), msg: msg.to_owned() }
    }
}

/// Wire name of a core state, quoted.
pub open spec fn core_state_json(c: CoreState) -> Seq<char> {
    match c {
        CoreState::Stopped => "\"stopped\""@,
        CoreState::Running => "\"running\""@,
    }
}

/// An optional `u16` as an optional integer.
pub open spec fn opt_u16(v: Option<u16>) -> Option<int> {
    match v {
        Some(n) => Some(n as int),
        None => None,
    }
}

/// An optional `i32` as an optional integer.
pub open spec fn opt_i32(v: Option<i32>) -> Option<int> {
    match v {
        Some(n) => Some(n as int),
        None => None,
    }
}

/// The JSON object for an event, fields in declaration order after the
/// `event` tag.
pub open spec fn event_json(ev: Event) -> Seq<char> {
    match ev {
        Event::Hello { proto, version, core, rpc_port } => "{\"event\":\"hello\",\"proto\":"@
            + dec_nat(proto as nat) + ",\"version\":"@ + json_string(version@) + ",\"core\":"@
            + core_state_json(core) + ",\"rpc_port\":"@ + json_opt_int(opt_u16(rpc_port)) + "}"@,
        Event::CoreStarted { pid, rpc_port } => "{\"event\":\"core_started\",\"pid\":"@ + dec_int(
            pid as int,
        ) + ",\"rpc_port\":"@ + dec_nat(rpc_port as nat) + "}"@,
        Event::Status { core, pid, rpc_port } => "{\"event\":\"status\",\"core\":"@
            + core_state_json(core) + ",\"pid\":"@ + json_opt_int(opt_i32(pid)) + ",\"rpc_port\":"@
            + json_opt_int(opt_u16(rpc_port)) + "}"@,
        Event::CoreStopped { reason } => "{\"event\":\"core_stopped\",\"reason\":"@ + json_string(
            reason@,
        ) + "}"@,
        Event::CoreExited { code, signal } => "{\"event\":\"core_exited\",\"code\":"@
            + json_opt_int(opt_i32(code)) + ",\"signal\":"@ + json_opt_int(opt_i32(signal)) + "}"@,
        Event::Error { code, msg } => "{\"event\":\"error\",\"code\":"@ + json_string(code@)
            + ",\"msg\":"@ + json_string(msg@) + "}"@,
        Event::Busy { owner } => "{\"event\":\"busy\",\"owner\":"@ + json_bool(owner) + "}"@,
        Event::Kicked => "{\"event\":\"kicked\"}"@,
    }
}

/// The line an event is written as: its JSON object and one `\n`.
pub open spec fn event_line(ev: Event) -> Seq<char> {
    event_json(ev).push('\n')
}

fn push_core_state(out: &mut Vec<char>, c: CoreState)
    requires
        no_nl(old(out)@),
    ensures
        final(out)@ == old(out)@ + core_state_json(c),
        no_nl(final(out)@),
{
    proof {
        reveal_strlit("\"stopped\"");
        reveal_strlit("\"running\"");
    }
    match c {
        CoreState::Stopped => push_lit(out, "\"stopped\""),
        CoreState::Running => push_lit(out, "\"running\""),
    }
}

/// Encode an event as a single `\n`-terminated JSON line.
pub fn encode_event(ev: &Event) -> (line: String)
    ensures
        line@ == event_line(*ev),
        one_line(line@),
{
    proof {
        reveal_strlit("{\"event\":\"hello\",\"proto\":");
        reveal_strlit(",\"version\":");
        reveal_strlit(",\"core\":");
        reveal_strlit(",\"rpc_port\":");
        reveal_strlit("}");
        reveal_strlit("{\"event\":\"core_started\",\"pid\":");
        reveal_strlit("{\"event\":\"status\",\"core\":");
        reveal_strlit(",\"pid\":");
        reveal_strlit("{\"event\":\"core_stopped\",\"reason\":");
        reveal_strlit("{\"event\":\"core_exited\",\"code\":");
        reveal_strlit(",\"signal\":");
        reveal_strlit("{\"event\":\"error\",\"code\":");
        reveal_strlit(",\"msg\":");
        reveal_strlit("{\"event\":\"busy\",\"owner\":");
        reveal_strlit("{\"event\":\"kicked\"}");
    }
    let mut out: Vec<char> = Vec::new();
    match ev {
        Event::Hello { proto, version, core, rpc_port } => {
            push_lit(&mut out, "{\"event\":\"hello\",\"proto\":");
            push_dec_i64(&mut out, *proto as i64);
            push_lit(&mut out, ",\"version\":");
            push_json_str(&mut out, version.as_str());
            push_lit(&mut out, ",\"core\":");
            push_core_state(&mut out, *core);
            push_lit(&mut out, ",\"rpc_port\":");
            push_opt_u16(&mut out, *rpc_port);
            push_lit(&mut out, "}");
        },
        Event::CoreStarted { pid, rpc_port } => {
            push_lit(&mut out, "{\"event\":\"core_started\",\"pid\":");
            push_dec_i64(&mut out, *pid as i64);
            push_lit(&mut out, ",\"rpc_port\":");
            push_dec_i64(&mut out, *rpc_port as i64);
            push_lit(&mut out, "}");
        },
        Event::Status { core, pid, rpc_port } => {
            push_lit(&mut out, "{\"event\":\"status\",\"core\":");
            push_core_state(&mut out, *core);
            push_lit(&mut out, ",\"pid\":");
            push_opt_i32(&mut out, *pid);
            push_lit(&mut out, ",\"rpc_port\":");
            push_opt_u16(&mut out, *rpc_port);
            push_lit(&mut out, "}");
        },
        Event::CoreStopped { reason } => {
            push_lit(&mut out, "{\"event\":\"core_stopped\",\"reason\":");
            push_json_str(&mut out, reason.as_str());
            push_lit(&mut out, "}");
        },
        Event::CoreExited { code, signal } => {
            push_lit(&mut out, "{\"event\":\"core_exited\",\"code\":");
            push_opt_i32(&mut out, *code);
            push_lit(&mut out, ",\"signal\":");
            push_opt_i32(&mut out, *signal);
            push_lit(&mut out, "}");
        },
        Event::Error { code, msg } => {
            push_lit(&mut out, "{\"event\":\"error\",\"code\":");
            push_json_str(&mut out, code.as_str());
            push_lit(&mut out, ",\"msg\":");
            push_json_str(&mut out, msg.as_str());
            push_lit(&mut out, "}");
        },
        Event::Busy { owner } => {
            push_lit(&mut out, "{\"event\":\"busy\",\"owner\":");
            push_json_bool(&mut out, *owner);
            push_lit(&mut out, "}");
        },
        Event::Kicked => {
            push_lit(&mut out, "{\"event\":\"kicked\"}");
        },
    }
    let ghost body = out@;
    out.push('\n');
    assert(out@ =~= event_line(*ev));
    assert(out@.drop_last() =~= body);
    string_of(&out)
}

/// Every event's line starts with its own `event` tag, the snake_case name of
/// its kind that the client decodes it by: `{"event":"<tag>"` followed by
/// the next field or the end of the object.
pub proof fn law_event_tags(ev: Event)
    ensures
        match ev {
            Event::Hello { .. } => has_prefix(event_json(ev), "{\"event\":\"hello\","@),
            Event::CoreStarted { .. } => has_prefix(event_json(ev), "{\"event\":\"core_started\","@),
            Event::Status { .. } => has_prefix(event_json(ev), "{\"event\":\"status\","@),
            Event::CoreStopped { .. } => has_prefix(event_json(ev), "{\"event\":\"core_stopped\","@),
            Event::CoreExited { .. } => has_prefix(event_json(ev), "{\"event\":\"core_exited\","@),
            Event::Error { .. } => has_prefix(event_json(ev), "{\"event\":\"error\","@),
            Event::Busy { .. } => has_prefix(event_json(ev), "{\"event\":\"busy\","@),
            Event::Kicked => has_prefix(event_json(ev), "{\"event\":\"kicked\"}"@),
        },
{
    match ev {
        Event::Hello { .. } => {
            reveal_strlit("{\"event\":\"hello\",");
            reveal_strlit("{\"event\":\"hello\",\"proto\":");
            assert(event_json(ev).take("{\"event\":\"hello\","@.len() as int) =~= "{\"event\":\"hello\","@);
        },
        Event::CoreStarted { .. } => {
            reveal_strlit("{\"event\":\"core_started\",");
            reveal_strlit("{\"event\":\"core_started\",\"pid\":");
            assert(event_json(ev).take("{\"event\":\"core_started\","@.len() as int) =~= "{\"event\":\"core_started\","@);
        },
        Event::Status { .. } => {
            reveal_strlit("{\"event\":\"status\",");
            reveal_strlit("{\"event\":\"status\",\"core\":");
            assert(event_json(ev).take("{\"event\":\"status\","@.len() as int) =~= "{\"event\":\"status\","@);
        },
        Event::CoreStopped { .. } => {
            reveal_strlit("{\"event\":\"core_stopped\",");
            reveal_strlit("{\"event\":\"core_stopped\",\"reason\":");
            assert(event_json(ev).take("{\"event\":\"core_stopped\","@.len() as int) =~= "{\"event\":\"core_stopped\","@);
        },
        Event::CoreExited { .. } => {
            reveal_strlit("{\"event\":\"core_exited\",");
            reveal_strlit("{\"event\":\"core_exited\",\"code\":");
            assert(event_json(ev).take("{\"event\":\"core_exited\","@.len() as int) =~= "{\"event\":\"core_exited\","@);
        },
        Event::Error { .. } => {
            reveal_strlit("{\"event\":\"error\",");
            reveal_strlit("{\"event\":\"error\",\"code\":");
            assert(event_json(ev).take("{\"event\":\"error\","@.len() as int) =~= "{\"event\":\"error\","@);
        },
        Event::Busy { .. } => {
            reveal_strlit("{\"event\":\"busy\",");
            reveal_strlit("{\"event\":\"busy\",\"owner\":");
            assert(event_json(ev).take("{\"event\":\"busy\","@.len() as int) =~= "{\"event\":\"busy\","@);
        },
        Event::Kicked => {
            reveal_strlit("{\"event\":\"kicked\"}");
            reveal_strlit("{\"event\":\"kicked\"}");
            assert(event_json(ev).take("{\"event\":\"kicked\"}"@.len() as int) =~= "{\"event\":\"kicked\"}"@);
        },
    }
}

} // verus!
