//! The JSON the bridge hands to the app: supervisor events (pushed through the
//! app's callback) and the status/validation answers. Object keys are written
//! in sorted order, as `serde_json` objects serialize them. None of these texts
//! holds a control character, so each crosses a C string boundary intact (no
//! interior NUL).

use vstd::prelude::*;
use crate::bridge::proto::CoreState;
use crate::bridge::supervisor_client::SupervisorEvent;
use crate::json::{json_bool, json_opt_int, json_string, push_json_bool, push_json_str, push_opt_i32, push_opt_u16};
use crate::supervisor::proto::{opt_i32, opt_u16};
use crate::text::{dec_int, dec_nat, no_ctrl, push_dec_i64, push_plain, string_of};

verus! {

/// Wire name of a core state, quoted.
pub open spec fn core_json(c: CoreState) -> Seq<char> {
    match c {
        CoreState::Stopped => "\"stopped\""@,
        CoreState::Running => "\"running\""@,
    }
}

/// The JSON object for a supervisor event: a `type` tag plus its fields.
pub open spec fn event_object(ev: SupervisorEvent) -> Seq<char> {
    match ev {
        SupervisorEvent::Connected { version, core, rpc_port } => "{\"core\":"@ + core_json(core)
            + ",\"rpc_port\":"@ + json_opt_int(opt_u16(rpc_port)) + ",\"type\":\"connected\",\"version\":"@
            + json_string(version@) + "}"@,
        SupervisorEvent::Disconnected => "{\"type\":\"disconnected\"}"@,
        SupervisorEvent::CoreStarted { pid, rpc_port } => "{\"pid\":"@ + dec_int(pid as int)
            + ",\"rpc_port\":"@ + dec_nat(rpc_port as nat) + ",\"type\":\"core_started\"}"@,
        SupervisorEvent::CoreStopped { reason } => "{\"reason\":"@ + json_string(reason@)
            + ",\"type\":\"core_stopped\"}"@,
        SupervisorEvent::CoreExited { code, signal } => "{\"code\":"@ + json_opt_int(opt_i32(code))
            + ",\"signal\":"@ + json_opt_int(opt_i32(signal)) + ",\"type\":\"core_exited\"}"@,
        SupervisorEvent::Busy { owner } => "{\"owner\":"@ + json_bool(owner) + ",\"type\":\"busy\"}"@,
        SupervisorEvent::Kicked => "{\"type\":\"kicked\"}"@,
        SupervisorEvent::Error { code, msg } => "{\"code\":"@ + json_string(code@) + ",\"msg\":"@
            + json_string(msg@) + ",\"type\":\"error\"}"@,
    }
}

fn push_core(out: &mut Vec<char>, c: CoreState)
    requires
        no_ctrl(old(out)@),
    ensures
        final(out)@ == old(out)@ + core_json(c),
        no_ctrl(final(out)@),
{
    proof {
        reveal_strlit("\"stopped\"");
        reveal_strlit("\"running\"");
    }
    match c {
        CoreState::Stopped => push_plain(out, "\"stopped\""),
        CoreState::Running => push_plain(out, "\"running\""),
    }
}

/// Serialize a supervisor event to the JSON the app's callback receives.
pub fn event_to_json(ev: &SupervisorEvent) -> (s: String)
    ensures
        s@ == event_object(*ev),
        no_ctrl(s@),
{
    proof {
        reveal_strlit("{\"core\":");
        reveal_strlit(",\"rpc_port\":");
        reveal_strlit(",\"type\":\"connected\",\"version\":");
        reveal_strlit("}");
        reveal_strlit("{\"type\":\"disconnected\"}");
        reveal_strlit("{\"pid\":");
        reveal_strlit(",\"type\":\"core_started\"}");
        reveal_strlit("{\"reason\":");
        reveal_strlit(",\"type\":\"core_stopped\"}");
        reveal_strlit("{\"code\":");
        reveal_strlit(",\"signal\":");
        reveal_strlit(",\"type\":\"core_exited\"}");
        reveal_strlit("{\"owner\":");
        reveal_strlit(",\"type\":\"busy\"}");
        reveal_strlit("{\"type\":\"kicked\"}");
        reveal_strlit(",\"msg\":");
        reveal_strlit(",\"type\":\"error\"}");
    }
    let mut out: Vec<char> = Vec::new();
    match ev {
        SupervisorEvent::Connected { version, core, rpc_port } => {
            push_plain(&mut out, "{\"core\":");
            push_core(&mut out, *core);
            push_plain(&mut out, ",\"rpc_port\":");
            push_opt_u16(&mut out, *rpc_port);
            push_plain(&mut out, ",\"type\":\"connected\",\"version\":");
            push_json_str(&mut out, version.as_str());
            push_plain(&mut out, "}");
        },
        SupervisorEvent::Disconnected => push_plain(&mut out, "{\"type\":\"disconnected\"}"),
        SupervisorEvent::CoreStarted { pid, rpc_port } => {
            push_plain(&mut out, "{\"pid\":");
            push_dec_i64(&mut out, *pid as i64);
            push_plain(&mut out, ",\"rpc_port\":");
            push_dec_i64(&mut out, *rpc_port as i64);
            push_plain(&mut out, ",\"type\":\"core_started\"}");
        },
        SupervisorEvent::CoreStopped { reason } => {
            push_plain(&mut out, "{\"reason\":");
            push_json_str(&mut out, reason.as_str());
            push_plain(&mut out, ",\"type\":\"core_stopped\"}");
        },
        SupervisorEvent::CoreExited { code, signal } => {
            push_plain(&mut out, "{\"code\":");
            push_opt_i32(&mut out, *code);
            push_plain(&mut out, ",\"signal\":");
            push_opt_i32(&mut out, *signal);
            push_plain(&mut out, ",\"type\":\"core_exited\"}");
        },
        SupervisorEvent::Busy { owner } => {
            push_plain(&mut out, "{\"owner\":");
            push_json_bool(&mut out, *owner);
            push_plain(&mut out, ",\"type\":\"busy\"}");
        },
        SupervisorEvent::Kicked => push_plain(&mut out, "{\"type\":\"kicked\"}"),
        SupervisorEvent::Error { code, msg } => {
            push_plain(&mut out, "{\"code\":");
            push_json_str(&mut out, code.as_str());
            push_plain(&mut out, ",\"msg\":");
            push_json_str(&mut out, msg.as_str());
            push_plain(&mut out, ",\"type\":\"error\"}");
        },
    }
    assert(out@ =~= event_object(*ev));
    string_of(&out)
}

/// The RPC port after an event: a `connected` naming a port or a
/// `core_started` sets it; `core_stopped`/`core_exited` clear it; anything
/// else leaves it.
pub open spec fn port_after_event(ev: SupervisorEvent, current: Option<u16>) -> Option<u16> {
    match ev {
        SupervisorEvent::Connected { rpc_port: Some(p), .. } => Some(p),
        SupervisorEvent::CoreStarted { rpc_port, .. } => Some(rpc_port),
        SupervisorEvent::CoreStopped { .. } => None,
        SupervisorEvent::CoreExited { .. } => None,
        _ => current,
    }
}

/// Keep the RPC port in step with the core lifecycle as events go by.
pub fn track_port(ev: &SupervisorEvent, current: Option<u16>) -> (p: Option<u16>)
    ensures
        p == port_after_event(*ev, current),
{
    match ev {
        SupervisorEvent::Connected { rpc_port: Some(p), .. } => Some(*p),
        SupervisorEvent::CoreStarted { rpc_port, .. } => Some(*rpc_port),
        SupervisorEvent::CoreStopped { .. } => None,
        SupervisorEvent::CoreExited { .. } => None,
        _ => current,
    }
}

/// The supervisor/core/install status object.
pub open spec fn supervisor_status_object(connected: bool, port: Option<u16>, installed: bool) -> Seq<char> {
    "{\"connected\":"@ + json_bool(connected) + ",\"core_running\":"@ + json_bool(port is Some)
        + ",\"installed\":"@ + json_bool(installed) + ",\"rpc_port\":"@ + json_opt_int(opt_u16(port))
        + "}"@
}

/// Supervisor/core/install status: whether the driver is connected, whether a
/// core runs (an RPC port is known), that port, and whether the supervisor is
/// installed.
pub fn supervisor_status_json(connected: bool, port: Option<u16>, installed: bool) -> (s: String)
    ensures
        s@ == supervisor_status_object(connected, port, installed),
        no_ctrl(s@),
{
    proof {
        reveal_strlit("{\"connected\":");
        reveal_strlit(",\"core_running\":");
        reveal_strlit(",\"installed\":");
        reveal_strlit(",\"rpc_port\":");
        reveal_strlit("}");
    }
    let mut out: Vec<char> = Vec::new();
    push_plain(&mut out, "{\"connected\":");
    push_json_bool(&mut out, connected);
    push_plain(&mut out, ",\"core_running\":");
    push_json_bool(&mut out, port.is_some());
    push_plain(&mut out, ",\"installed\":");
    push_json_bool(&mut out, installed);
    push_plain(&mut out, ",\"rpc_port\":");
    push_opt_u16(&mut out, port);
    push_plain(&mut out, "}");
    assert(out@ =~= supervisor_status_object(connected, port, installed));
    string_of(&out)
}

/// The validation answer: `{"ok":true}` or `{"error":<msg>,"ok":false}`.
pub open spec fn validation_object(r: Result<(), Seq<char>>) -> Seq<char> {
    match r {
        Ok(()) => "{\"ok\":true}"@,
        Err(e) => "{\"error\":"@ + json_string(e) + ",\"ok\":false}"@,
    }
}

/// Serialize a config validation result.
pub fn validation_json(r: &Result<(), String>) -> (s: String)
    ensures
        s@ == validation_object(crate::supervisor::config::unit_result_view(*r)),
        no_ctrl(s@),
{
    proof {
        reveal_strlit("{\"ok\":true}");
        reveal_strlit("{\"error\":");
        reveal_strlit(",\"ok\":false}");
    }
    let mut out: Vec<char> = Vec::new();
    match r {
        Ok(()) => push_plain(&mut out, "{\"ok\":true}"),
        Err(e) => {
            push_plain(&mut out, "{\"error\":");
            push_json_str(&mut out, e.as_str());
            push_plain(&mut out, ",\"ok\":false}");
        },
    }
    assert(out@ =~= validation_object(crate::supervisor::config::unit_result_view(*r)));
    string_of(&out)
}

/// An error answer: `{"err":<msg>}`.
pub fn error_json(msg: &str) -> (s: String)
    ensures
        s@ == "{\"err\":"@ + json_string(msg@) + "}"@,
        no_ctrl(s@),
{
    proof {
        reveal_strlit("{\"err\":");
        reveal_strlit("}");
    }
    let mut out: Vec<char> = Vec::new();
    push_plain(&mut out, "{\"err\":");
    push_json_str(&mut out, msg);
    push_plain(&mut out, "}");
    string_of(&out)
}

proof fn lemma_index_left(a: Seq<char>, b: Seq<char>, k: int)
    requires
        0 <= k < a.len(),
    ensures
        (a + b)[k] == a[k],
{
}

proof fn lemma_index_join(a: Seq<char>, b: Seq<char>)
    requires
        b.len() > 0,
    ensures
        (a + b)[a.len() as int] == b[0],
{
}

proof fn lemma_bool_first(b: bool)
    ensures
        json_bool(b).len() > 0,
        json_bool(b)[0] == if b {
            't'
        } else {
            'f'
        },
{
    reveal_strlit("true");
    reveal_strlit("false");
}

/// The status object reports each input on its own: whether the
/// supervisor is installed shows whatever the connection and the core, and
/// whether the driver is connected shows whatever the rest; changing either
/// input alone changes the text.
pub proof fn law_status_fields_independent(connected: bool, port: Option<u16>, installed: bool)
    ensures
        supervisor_status_object(connected, port, true) != supervisor_status_object(connected, port, false),
        supervisor_status_object(true, port, installed) != supervisor_status_object(false, port, installed),
        exists|a: Seq<char>, b: Seq<char>|
            supervisor_status_object(connected, port, installed) == a + ",\"installed\":"@ + json_bool(installed) + b,
{
    let l1 = "{\"connected\":"@;
    let l2 = ",\"core_running\":"@;
    let l3 = ",\"installed\":"@;
    let l4 = ",\"rpc_port\":"@;
    let mid = json_bool(port is Some);
    let num = json_opt_int(opt_u16(port));
    let close = "}"@;
    lemma_bool_first(true);
    lemma_bool_first(false);
    // installed: the texts differ right after `,"installed":`
    let pre = l1 + json_bool(connected) + l2 + mid + l3;
    let x1 = pre + json_bool(true);
    let y1 = pre + json_bool(false);
    lemma_index_join(pre, json_bool(true));
    lemma_index_join(pre, json_bool(false));
    let k = pre.len() as int;
    lemma_index_left(x1, l4, k);
    lemma_index_left(x1 + l4, num, k);
    lemma_index_left(x1 + l4 + num, close, k);
    lemma_index_left(y1, l4, k);
    lemma_index_left(y1 + l4, num, k);
    lemma_index_left(y1 + l4 + num, close, k);
    assert(supervisor_status_object(connected, port, true)[k] != supervisor_status_object(connected, port, false)[k]);
    // connected: the texts differ right after `{"connected":`
    let c1 = l1 + json_bool(true);
    let c0 = l1 + json_bool(false);
    lemma_index_join(l1, json_bool(true));
    lemma_index_join(l1, json_bool(false));
    let m = l1.len() as int;
    lemma_index_left(c1, l2, m);
    lemma_index_left(c1 + l2, mid, m);
    lemma_index_left(c1 + l2 + mid, l3, m);
    lemma_index_left(c1 + l2 + mid + l3, json_bool(installed), m);
    lemma_index_left(c1 + l2 + mid + l3 + json_bool(installed), l4, m);
    lemma_index_left(c1 + l2 + mid + l3 + json_bool(installed) + l4, num, m);
    lemma_index_left(c1 + l2 + mid + l3 + json_bool(installed) + l4 + num, close, m);
    lemma_index_left(c0, l2, m);
    lemma_index_left(c0 + l2, mid, m);
    lemma_index_left(c0 + l2 + mid, l3, m);
    lemma_index_left(c0 + l2 + mid + l3, json_bool(installed), m);
    lemma_index_left(c0 + l2 + mid + l3 + json_bool(installed), l4, m);
    lemma_index_left(c0 + l2 + mid + l3 + json_bool(installed) + l4, num, m);
    lemma_index_left(c0 + l2 + mid + l3 + json_bool(installed) + l4 + num, close, m);
    assert(supervisor_status_object(true, port, installed)[m] != supervisor_status_object(false, port, installed)[m]);
    // the installed field, wherever it stands
    let a = l1 + json_bool(connected) + l2 + mid;
    let b = l4 + num + close;
    assert(supervisor_status_object(connected, port, installed) =~= a + l3 + json_bool(installed) + b);
}

/// Every event handed to the app carries its own `type` tag: the object
/// holds `"type":"<tag>"` for the snake_case name of its kind.
pub proof fn law_event_types(ev: SupervisorEvent)
    ensures
        match ev {
            SupervisorEvent::Connected { .. } => exists|a: Seq<char>, b: Seq<char>| event_object(ev) == a + "\"type\":\"connected\""@ + b,
            SupervisorEvent::Disconnected => exists|a: Seq<char>, b: Seq<char>| event_object(ev) == a + "\"type\":\"disconnected\""@ + b,
            SupervisorEvent::CoreStarted { .. } => exists|a: Seq<char>, b: Seq<char>| event_object(ev) == a + "\"type\":\"core_started\""@ + b,
            SupervisorEvent::CoreStopped { .. } => exists|a: Seq<char>, b: Seq<char>| event_object(ev) == a + "\"type\":\"core_stopped\""@ + b,
            SupervisorEvent::CoreExited { .. } => exists|a: Seq<char>, b: Seq<char>| event_object(ev) == a + "\"type\":\"core_exited\""@ + b,
            SupervisorEvent::Busy { .. } => exists|a: Seq<char>, b: Seq<char>| event_object(ev) == a + "\"type\":\"busy\""@ + b,
            SupervisorEvent::Kicked => exists|a: Seq<char>, b: Seq<char>| event_object(ev) == a + "\"type\":\"kicked\""@ + b,
            SupervisorEvent::Error { .. } => exists|a: Seq<char>, b: Seq<char>| event_object(ev) == a + "\"type\":\"error\""@ + b,
        },
{
    match ev {
        SupervisorEvent::Connected { version, core, rpc_port } => {
            reveal_strlit(",\"type\":\"connected\",\"version\":");
            reveal_strlit(",\"version\":");
            reveal_strlit("\"type\":\"connected\"");
            let x = ",\"type\":\"connected\",\"version\":"@;
            assert(x =~= seq![','] + "\"type\":\"connected\""@ + ",\"version\":"@);
            let a = "{\"core\":"@ + core_json(core) + ",\"rpc_port\":"@ + json_opt_int(opt_u16(rpc_port)) + seq![','];
            let b = ",\"version\":"@ + json_string(version@) + "}"@;
            assert(event_object(ev) =~= a + "\"type\":\"connected\""@ + b);
        },
        SupervisorEvent::Disconnected => {
            reveal_strlit("{\"type\":\"disconnected\"}");
            reveal_strlit("\"type\":\"disconnected\"");
            assert(event_object(ev) =~= seq!['{'] + "\"type\":\"disconnected\""@ + seq!['}']);
        },
        SupervisorEvent::CoreStarted { pid, rpc_port } => {
            reveal_strlit(",\"type\":\"core_started\"}");
            reveal_strlit("\"type\":\"core_started\"");
            assert(event_object(ev) =~= "{\"pid\":"@ + dec_int(pid as int) + ",\"rpc_port\":"@ + dec_nat(rpc_port as nat) + seq![','] + "\"type\":\"core_started\""@ + seq!['}']);
        },
        SupervisorEvent::CoreStopped { reason } => {
            reveal_strlit(",\"type\":\"core_stopped\"}");
            reveal_strlit("\"type\":\"core_stopped\"");
            assert(event_object(ev) =~= "{\"reason\":"@ + json_string(reason@) + seq![','] + "\"type\":\"core_stopped\""@ + seq!['}']);
        },
        SupervisorEvent::CoreExited { code, signal } => {
            reveal_strlit(",\"type\":\"core_exited\"}");
            reveal_strlit("\"type\":\"core_exited\"");
            assert(event_object(ev) =~= "{\"code\":"@ + json_opt_int(opt_i32(code)) + ",\"signal\":"@ + json_opt_int(opt_i32(signal)) + seq![','] + "\"type\":\"core_exited\""@ + seq!['}']);
        },
        SupervisorEvent::Busy { owner } => {
            reveal_strlit(",\"type\":\"busy\"}");
            reveal_strlit("\"type\":\"busy\"");
            assert(event_object(ev) =~= "{\"owner\":"@ + json_bool(owner) + seq![','] + "\"type\":\"busy\""@ + seq!['}']);
        },
        SupervisorEvent::Kicked => {
            reveal_strlit("{\"type\":\"kicked\"}");
            reveal_strlit("\"type\":\"kicked\"");
            assert(event_object(ev) =~= seq!['{'] + "\"type\":\"kicked\""@ + seq!['}']);
        },
        SupervisorEvent::Error { code, msg } => {
            reveal_strlit(",\"type\":\"error\"}");
            reveal_strlit("\"type\":\"error\"");
            assert(event_object(ev) =~= "{\"code\":"@ + json_string(code@) + ",\"msg\":"@ + json_string(msg@) + seq![','] + "\"type\":\"error\""@ + seq!['}']);
        },
    }
}

} // verus!
