use easytier_mac::bridge::events::{error_json, event_to_json, supervisor_status_json, track_port, validation_json};
use easytier_mac::bridge::install::{
    admin_failure, applescript_escape, install_command, install_preflight, osascript_source, shell_quote,
    uninstall_preflight, InstallationStatus,
};
use easytier_mac::bridge::proto::{encode_cmd, Cmd, CoreState, Event};
use easytier_mac::bridge::supervisor_client::{
    admit_request, dispatch_event, handshake_outcome, hello_cmd, send_failure, Driver, Handshake, NextStep, Reply, Request, StartInfo,
    StatusInfo, SupervisorConfig, SupervisorEvent,
};

fn json(s: String) -> serde_json::Value {
    serde_json::from_str(&s).unwrap()
}

// ---- install ----

#[test]
fn shell_quote_wraps_and_escapes_single_quotes() {
    assert_eq!(shell_quote("/a/b c"), "'/a/b c'");
    assert_eq!(shell_quote("it's"), "'it'\\''s'");
}

#[test]
fn applescript_escape_order() {
    // Backslash escaped before quote so an escaped quote's backslash is not doubled.
    assert_eq!(applescript_escape(r#"a\b"c"#), "a\\\\b\\\"c");
}

#[test]
fn install_command_line_and_admin_script() {
    let cmd = install_command("/x/install.sh", "/b/sup", "/b/it's core", 501);
    assert_eq!(cmd, "'/x/install.sh' --supervisor-bin '/b/sup' --core-bin '/b/it'\\''s core' --owner-uid 501");
    assert_eq!(
        osascript_source("echo \"hi\""),
        "do shell script \"echo \\\"hi\\\"\" with administrator privileges"
    );
    assert_eq!(admin_failure("  denied\n"), "privileged command failed: denied");
    assert_eq!(admin_failure(""), "privileged command failed: ");
}

#[test]
fn preflight_names_first_missing_input() {
    assert_eq!(install_preflight("s", true, "a", true, "c", true), Ok(()));
    assert_eq!(install_preflight("s", false, "a", false, "c", false), Err("install script not found: s".into()));
    assert_eq!(
        install_preflight("s", true, "a", false, "c", false),
        Err("supervisor binary not found: a (build it first)".into())
    );
    assert_eq!(
        install_preflight("s", true, "a", true, "c", false),
        Err("core binary not found: c (build it first)".into())
    );
    assert_eq!(uninstall_preflight("u", true), Ok(()));
    assert_eq!(uninstall_preflight("u", false), Err("uninstall script not found: u".into()));
}

#[test]
fn installed_only_when_all_present() {
    assert!(InstallationStatus::from_presence(true, true, true).installed);
    assert!(!InstallationStatus::from_presence(true, false, true).installed);
    let s = InstallationStatus::from_presence(false, true, false);
    assert!(!s.plist_exists && s.supervisor_bin_exists && !s.core_bin_exists && !s.installed);
}

// ---- proto ----

#[test]
fn encode_hello_cmd_shape() {
    let s = encode_cmd(&Cmd::Hello { proto: 1, takeover: false });
    assert_eq!(s, "{\"cmd\":\"hello\",\"proto\":1,\"takeover\":false}\n");
}

#[test]
fn encode_unit_cmds() {
    assert_eq!(encode_cmd(&Cmd::Start), "{\"cmd\":\"start\"}\n");
    assert_eq!(encode_cmd(&Cmd::Status), "{\"cmd\":\"status\"}\n");
    assert_eq!(encode_cmd(&Cmd::Stop), "{\"cmd\":\"stop\"}\n");
}

#[test]
fn takeover_hello_line() {
    assert_eq!(encode_cmd(&hello_cmd(true)), "{\"cmd\":\"hello\",\"proto\":1,\"takeover\":true}\n");
}

// ---- events handed to the app ----

#[test]
fn event_json_shapes_match_header_schema() {
    let connected = json(event_to_json(&SupervisorEvent::Connected {
        version: "0.1.0".to_string(),
        core: CoreState::Running,
        rpc_port: Some(50321),
    }));
    assert_eq!(connected["type"], "connected");
    assert_eq!(connected["core"], "running");
    assert_eq!(connected["rpc_port"], 50321);
    assert_eq!(connected["version"], "0.1.0");

    let started = json(event_to_json(&SupervisorEvent::CoreStarted { pid: 4321, rpc_port: 50321 }));
    assert_eq!(started["type"], "core_started");
    assert_eq!(started["pid"], 4321);
    assert_eq!(started["rpc_port"], 50321);

    let exited = json(event_to_json(&SupervisorEvent::CoreExited { code: None, signal: Some(9) }));
    assert_eq!(exited["type"], "core_exited");
    assert!(exited["code"].is_null());
    assert_eq!(exited["signal"], 9);

    let stopped = json(event_to_json(&SupervisorEvent::CoreStopped { reason: "requested".to_string() }));
    assert_eq!(stopped["type"], "core_stopped");
    assert_eq!(stopped["reason"], "requested");

    let busy = json(event_to_json(&SupervisorEvent::Busy { owner: true }));
    assert_eq!(busy["type"], "busy");
    assert_eq!(busy["owner"], true);

    assert_eq!(json(event_to_json(&SupervisorEvent::Kicked))["type"], "kicked");
    assert_eq!(json(event_to_json(&SupervisorEvent::Disconnected))["type"], "disconnected");

    let err = json(event_to_json(&SupervisorEvent::Error {
        code: "spawn_failed".to_string(),
        msg: "boom".to_string(),
    }));
    assert_eq!(err["type"], "error");
    assert_eq!(err["code"], "spawn_failed");
    assert_eq!(err["msg"], "boom");
}

#[test]
fn event_json_exact_text_and_escaping() {
    assert_eq!(
        event_to_json(&SupervisorEvent::Connected { version: "a\"b".into(), core: CoreState::Stopped, rpc_port: None }),
        "{\"core\":\"stopped\",\"rpc_port\":null,\"type\":\"connected\",\"version\":\"a\\\"b\"}"
    );
    assert_eq!(
        event_to_json(&SupervisorEvent::CoreStarted { pid: -2, rpc_port: 7 }),
        "{\"pid\":-2,\"rpc_port\":7,\"type\":\"core_started\"}"
    );
}

#[test]
fn event_json_has_no_control_characters() {
    let s = event_to_json(&SupervisorEvent::Error { code: "a\0b".into(), msg: "line1\nline2\t\u{1}".into() });
    assert!(!s.chars().any(|c| (c as u32) < 0x20), "{s}");
    let v = json(s);
    assert_eq!(v["code"], "a\0b");
    assert_eq!(v["msg"], "line1\nline2\t\u{1}");
    let e = error_json("nul\0here");
    assert!(!e.contains('\0'));
}

#[test]
fn status_validation_and_error_answers() {
    assert_eq!(
        supervisor_status_json(true, Some(50321), true),
        "{\"connected\":true,\"core_running\":true,\"installed\":true,\"rpc_port\":50321}"
    );
    assert_eq!(
        supervisor_status_json(false, None, false),
        "{\"connected\":false,\"core_running\":false,\"installed\":false,\"rpc_port\":null}"
    );
    assert_eq!(validation_json(&Ok(())), "{\"ok\":true}");
    let v = json(validation_json(&Err("line 1: bad \"key\"".into())));
    assert_eq!(v["ok"], false);
    assert_eq!(v["error"], "line 1: bad \"key\"");
    assert_eq!(error_json("no\nway"), "{\"err\":\"no\\nway\"}");
}

#[test]
fn port_follows_core_lifecycle() {
    let connected = SupervisorEvent::Connected { version: String::new(), core: CoreState::Running, rpc_port: Some(5) };
    assert_eq!(track_port(&connected, None), Some(5));
    let connected_stopped =
        SupervisorEvent::Connected { version: String::new(), core: CoreState::Stopped, rpc_port: None };
    assert_eq!(track_port(&connected_stopped, Some(9)), Some(9));
    assert_eq!(track_port(&SupervisorEvent::CoreStarted { pid: 1, rpc_port: 6 }, Some(5)), Some(6));
    assert_eq!(track_port(&SupervisorEvent::CoreStopped { reason: "requested".into() }, Some(6)), None);
    assert_eq!(track_port(&SupervisorEvent::CoreExited { code: Some(1), signal: None }, Some(6)), None);
    assert_eq!(track_port(&SupervisorEvent::Kicked, Some(6)), Some(6));
}

// ---- driver decisions ----

#[test]
fn one_request_in_flight() {
    assert_eq!(admit_request(&None, Request::Start), Ok(Cmd::Start));
    assert_eq!(admit_request(&None, Request::Status), Ok(Cmd::Status));
    assert_eq!(
        admit_request(&Some(Request::Stop), Request::Start),
        Err("another request is already in flight".to_string())
    );
}

#[test]
fn replies_answer_the_pending_request() {
    let mut pending = Some(Request::Start);
    let (fwd, reply) = dispatch_event(Event::CoreStarted { pid: 4321, rpc_port: 50777 }, &mut pending);
    assert_eq!(fwd, Some(SupervisorEvent::CoreStarted { pid: 4321, rpc_port: 50777 }));
    assert_eq!(reply, Some(Reply::Started(StartInfo { pid: 4321, rpc_port: 50777 })));
    assert_eq!(pending, None);

    let mut pending = Some(Request::Status);
    let (fwd, reply) =
        dispatch_event(Event::Status { core: CoreState::Running, pid: Some(4321), rpc_port: Some(50777) }, &mut pending);
    assert_eq!(fwd, None);
    assert_eq!(
        reply,
        Some(Reply::Status(StatusInfo { core: CoreState::Running, pid: Some(4321), rpc_port: Some(50777) }))
    );

    let mut pending = Some(Request::Stop);
    let (fwd, reply) = dispatch_event(Event::CoreStopped { reason: "requested".into() }, &mut pending);
    assert_eq!(fwd, Some(SupervisorEvent::CoreStopped { reason: "requested".into() }));
    assert_eq!(reply, Some(Reply::Stopped));

    let mut pending = Some(Request::Stop);
    let (_, reply) = dispatch_event(Event::Status { core: CoreState::Stopped, pid: None, rpc_port: None }, &mut pending);
    assert_eq!(reply, Some(Reply::Failed("unexpected status reply".into())));

    let mut pending = Some(Request::Start);
    let (fwd, reply) = dispatch_event(Event::Error { code: "spawn_failed".into(), msg: "boom".into() }, &mut pending);
    assert_eq!(fwd, None);
    assert_eq!(reply, Some(Reply::Failed("boom".into())));
    assert_eq!(pending, None);
}

#[test]
fn pushes_pass_through_without_touching_the_request() {
    let mut pending = Some(Request::Status);
    let (fwd, reply) = dispatch_event(Event::CoreExited { code: None, signal: Some(9) }, &mut pending);
    assert_eq!(fwd, Some(SupervisorEvent::CoreExited { code: None, signal: Some(9) }));
    assert_eq!(reply, None);
    assert_eq!(pending, Some(Request::Status));

    let (fwd, _) = dispatch_event(Event::Kicked, &mut pending);
    assert_eq!(fwd, Some(SupervisorEvent::Kicked));
    let (fwd, reply) = dispatch_event(Event::Unknown, &mut pending);
    assert_eq!((fwd, reply), (None, None));
    assert_eq!(pending, Some(Request::Status));

    let mut none = None;
    let (fwd, reply) = dispatch_event(Event::Error { code: "c".into(), msg: "m".into() }, &mut none);
    assert_eq!(fwd, Some(SupervisorEvent::Error { code: "c".into(), msg: "m".into() }));
    assert_eq!(reply, None);
}

#[test]
fn handshake_outcomes() {
    let (fwd, h) = handshake_outcome(Some(Event::Hello {
        proto: 1,
        version: "9.9".into(),
        core: CoreState::Stopped,
        rpc_port: None,
    }));
    assert_eq!(h, Handshake::Connected);
    assert_eq!(fwd, Some(SupervisorEvent::Connected { version: "9.9".into(), core: CoreState::Stopped, rpc_port: None }));
    assert_eq!(handshake_outcome(Some(Event::Busy { owner: true })), (Some(SupervisorEvent::Busy { owner: true }), Handshake::Busy));
    assert_eq!(handshake_outcome(None), (None, Handshake::Failed));
    assert_eq!(handshake_outcome(Some(Event::Kicked)), (None, Handshake::Failed));
}

#[test]
fn busy_pauses_until_a_confirmed_takeover() {
    let cfg = SupervisorConfig { socket_path: "s".into(), takeover: false, initial_backoff_ms: 200, max_backoff_ms: 300 };
    let mut d = Driver::new(&cfg);
    assert_eq!(encode_cmd(&hello_cmd(d.begin_attempt())), "{\"cmd\":\"hello\",\"proto\":1,\"takeover\":false}\n");
    let before = d;
    assert_eq!(d.attempt_ended(&cfg, Handshake::Busy), NextStep::AwaitTakeover);
    assert_eq!(d, before);
    d.takeover_confirmed();
    assert!(d.begin_attempt());
    assert_eq!(d.attempt_ended(&cfg, Handshake::Connected), NextStep::RunSession);
    assert!(d.session_up);
    assert!(!d.begin_attempt());
    assert_eq!(d.attempt_ended(&cfg, Handshake::Failed), NextStep::BackOff);
}

#[test]
fn backoff_doubles_to_cap_and_takeover_is_one_shot() {
    let cfg = SupervisorConfig { socket_path: "s".into(), takeover: false, initial_backoff_ms: 200, max_backoff_ms: 1000 };
    let mut d = Driver::new(&cfg);
    assert!(!d.begin_attempt());
    let mut seen = Vec::new();
    for _ in 0..5 {
        seen.push(d.backoff_ms);
        d.waited(&cfg);
    }
    assert_eq!(seen, vec![200, 400, 800, 1000, 1000]);
    d.connected(&cfg);
    assert_eq!(d.backoff_ms, 200);
    d.takeover_confirmed();
    assert!(d.begin_attempt());
    assert!(!d.begin_attempt());

    assert!(!Driver::new(&cfg).session_up);
    d.connected(&cfg);
    assert!(d.session_up);
    assert_eq!(d.session_ended(), SupervisorEvent::Disconnected);
    assert!(!d.session_up);
    assert_eq!(d.backoff_ms, 200);
    assert_eq!(send_failure(false, "broken pipe"), "write failed: broken pipe");
    assert_eq!(send_failure(true, "x"), "flush failed: x");

    let def = SupervisorConfig::with_socket("/tmp/x.sock".into());
    assert_eq!((def.initial_backoff_ms, def.max_backoff_ms, def.takeover), (1000, 30000, false));
}
