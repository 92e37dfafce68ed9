use easytier_mac::supervisor::auth::{peer_cred_uid, PeerCred};
use easytier_mac::supervisor::config::Config;
use easytier_mac::text::push_dec_i64;
use easytier_mac::supervisor::core_proc::{core_args, core_env, CoreProc, Escalation, ExitInfo, MonitorAction, Running};
use easytier_mac::supervisor::hooks::{hook_env, hook_overdue, hook_start_log, hook_timeout_log, HookEvent, HookReason};
use easytier_mac::supervisor::janitor::{orphan_pids, parse_ps_line};
use easytier_mac::supervisor::proto::{encode_event, Cmd, CoreState, Event};
use easytier_mac::supervisor::server::{
    check_hello, command_step, exit_report, hello_reply, read_line_limited, start_reply, status_reply, stop_reply,
    Acquired, ByteReader, HelloCheck, LineError, State, Step,
};

fn cfg() -> Config {
    Config {
        proto: 1,
        owner_uid: 501,
        core_path: "/opt/et/bin/easytier-core".into(),
        log_dir: "/opt/et/logs".into(),
        hooks_dir: None,
        hook_timeout_secs: None,
    }
}

fn pairs(v: &[(&str, &str)]) -> Vec<(String, String)> {
    v.iter().map(|(a, b)| (a.to_string(), b.to_string())).collect()
}

// ---- peer credentials ----

#[test]
fn peer_credential_is_read_fail_closed() {
    let good = PeerCred { len: 76, version: 0, ngroups: 1, uid: 501 };
    assert_eq!(peer_cred_uid(good, 76, 0), Ok(501));
    assert_eq!(peer_cred_uid(PeerCred { len: 8, ..good }, 76, 0), Err("unexpected xucred size 8".to_string()));
    assert_eq!(peer_cred_uid(PeerCred { version: 3, ..good }, 76, 0), Err("unexpected xucred version 3".to_string()));
    assert_eq!(peer_cred_uid(PeerCred { ngroups: 0, ..good }, 76, 0), Err("xucred reported no groups".to_string()));
}

// ---- core process ----

#[test]
fn core_argv_and_env() {
    assert_eq!(core_args(50321), vec!["--daemon", "--rpc-portal", "127.0.0.1:50321"]);
    assert_eq!(core_args(0), vec!["--daemon", "--rpc-portal", "127.0.0.1:0"]);
    assert_eq!(core_env(), pairs(&[("PATH", "/usr/bin:/bin:/usr/sbin:/sbin")]));
    assert_eq!(cfg().core_log_path(), "/opt/et/logs/core.out.log");
}

#[test]
fn escalation_terms_then_kills_after_grace_once() {
    let mut e = Escalation::new();
    assert_eq!(e.step(false, 10), MonitorAction::Wait);
    assert_eq!(e.step(true, 1000), MonitorAction::Term);
    assert_eq!(e.term_deadline, Some(6000));
    assert_eq!(e.step(true, 5999), MonitorAction::Wait);
    assert_eq!(e.step(true, 6000), MonitorAction::Kill);
    assert!(e.kill_sent);
    assert_eq!(e.step(true, 9000), MonitorAction::Wait);
}

#[test]
fn monitor_poll_never_signals_a_reaped_child() {
    let mut e = Escalation::new();
    assert_eq!(e.poll(true, true, 10), None);
    assert_eq!(e, Escalation::new());
    assert_eq!(e.poll(false, false, 10), Some(MonitorAction::Wait));
    assert_eq!(e.poll(false, true, 10), Some(MonitorAction::Term));
    assert_eq!(e.poll(false, true, 20), Some(MonitorAction::Wait));
    assert_eq!(e.poll(true, true, 9000), None);
    assert!(!e.kill_sent);
}

#[test]
fn extreme_integers_render() {
    let mut v: Vec<char> = Vec::new();
    push_dec_i64(&mut v, i64::MIN);
    assert_eq!(v.iter().collect::<String>(), "-9223372036854775808");
    let mut w: Vec<char> = vec!['x'];
    push_dec_i64(&mut w, -7);
    assert_eq!(w.iter().collect::<String>(), "x-7");
}

#[test]
fn escalation_deadline_saturates() {
    let mut e = Escalation::new();
    assert_eq!(e.step(true, u64::MAX - 1), MonitorAction::Term);
    assert_eq!(e.term_deadline, Some(u64::MAX));
}

// ---- hooks ----

#[test]
fn hook_paths_env_and_log_line() {
    let c = cfg();
    assert_eq!(c.hook_script(HookEvent::Up), "/opt/et/hooks/up.sh");
    assert_eq!(c.hook_log_path(), "/opt/et/logs/hooks.log");
    assert_eq!(
        hook_env(HookEvent::Down, Some(HookReason::OwnerDrop)),
        pairs(&[("PATH", "/usr/bin:/bin:/usr/sbin:/sbin"), ("EASYTIER_EVENT", "down"), ("EASYTIER_REASON", "owner_drop")])
    );
    assert_eq!(
        hook_env(HookEvent::Up, None),
        pairs(&[("PATH", "/usr/bin:/bin:/usr/sbin:/sbin"), ("EASYTIER_EVENT", "up")])
    );
    assert_eq!(hook_start_log(42, HookEvent::Down, Some(HookReason::Janitor)), "[42] down start (reason=janitor)");
    assert_eq!(hook_start_log(7, HookEvent::Up, None), "[7] up start (reason=)");
    assert_eq!(hook_timeout_log(9, HookEvent::Down, 30), "[9] down timed out after 30s, killed");
    assert_eq!(format!("{:?}", std::time::Duration::from_secs(30)), "30s");
    assert!(!hook_overdue(29_999, 30));
    assert!(hook_overdue(30_000, 30));
    assert!(!hook_overdue(u64::MAX, u64::MAX));
    assert!(hook_overdue(0, 0));
}

// ---- janitor ----

#[test]
fn ps_lines_split_into_pid_and_args() {
    assert_eq!(
        parse_ps_line("  501 /opt/et/bin/easytier-core --daemon"),
        Some((501, "/opt/et/bin/easytier-core --daemon".to_string()))
    );
    assert_eq!(parse_ps_line("12"), Some((12, String::new())));
    assert_eq!(parse_ps_line("   "), None);
    assert_eq!(parse_ps_line("abc /bin/sh"), None);
}

#[test]
fn orphans_skip_self_excluded_and_strangers() {
    let lines = vec![
        "  100 /opt/et/bin/easytier-core --daemon".to_string(),
        "  200 /opt/et/bin/easytier-core".to_string(),
        "  300 /opt/et/bin/easytier-core --daemon".to_string(),
        "  400 /opt/et/bin/easytier-core-old --daemon".to_string(),
        "  500 /bin/sh /opt/et/bin/easytier-core".to_string(),
        "garbage".to_string(),
        "  600 /opt/et/bin/easytier-core --rpc-portal 127.0.0.1:1".to_string(),
    ];
    assert_eq!(orphan_pids(&lines, &cfg(), 200, Some(300)), vec![100, 600]);
    assert_eq!(orphan_pids(&lines, &cfg(), 1, None), vec![100, 200, 300, 600]);
    assert!(orphan_pids(&Vec::new(), &cfg(), 1, None).is_empty());
}

// ---- lease and core state ----

fn running(pid: i32, rpc_port: u16) -> CoreProc {
    CoreProc::Running(Running { pid, rpc_port, stop_requested: false })
}

#[test]
fn busy_keeps_owner_slot_and_takeover_hands_back_the_old_one() {
    let mut st: State<&str> = State::new();
    assert!(matches!(st.acquire(1, "owner-writer", false), Acquired::Accepted));
    match st.acquire(2, "newcomer-writer", false) {
        Acquired::Busy(slot) => assert_eq!(slot, "newcomer-writer"),
        _ => panic!("expected busy"),
    }
    let o = st.owner.as_ref().unwrap();
    assert_eq!((o.id, o.slot), (1, "owner-writer"));
    match st.acquire(3, "taker-writer", true) {
        Acquired::TookOver(old) => assert_eq!((old.id, old.slot), (1, "owner-writer")),
        _ => panic!("expected takeover"),
    }
    let o = st.owner.as_ref().unwrap();
    assert_eq!((o.id, o.slot), (3, "taker-writer"));
}

#[test]
fn first_hello_owns_then_busy_then_takeover() {
    let mut st: State<&str> = State::new();
    assert!(!st.has_owner());
    assert!(matches!(st.acquire(1, "a", false), Acquired::Accepted));
    match st.acquire(2, "b", false) {
        Acquired::Busy(slot) => assert_eq!(slot, "b"),
        _ => panic!("second hello without takeover must be busy"),
    }
    match st.acquire(3, "c", true) {
        Acquired::TookOver(old) => {
            assert_eq!(old.id, 1);
            assert_eq!(old.slot, "a");
        }
        _ => panic!("takeover must displace the owner"),
    }
    // The kicked connection's end leaves the new owner alone.
    assert!(!st.end_connection(1, true));
    assert_eq!(st.owner.as_ref().map(|o| o.id), Some(3));
    // A stale connection that is not the owner does not free the lease.
    assert!(!st.release(2));
    assert!(st.has_owner());
    // The owner's own end tears down and frees the lease.
    assert!(st.end_connection(3, false));
    assert!(!st.has_owner());
    assert!(matches!(st.acquire(4, "d", false), Acquired::Accepted));
}

#[test]
fn takeover_keeps_the_recorded_core() {
    let mut st: State<u8> = State::new();
    st.acquire(1, 0, false);
    st.record_started(4321, 50777);
    st.acquire(2, 0, true);
    assert_eq!(st.running_core(), Some((4321, 50777)));
    assert_eq!(st.core_snapshot(), (CoreState::Running, Some(4321), Some(50777)));
}

#[test]
fn requested_stop_is_quiet_and_unexpected_exit_is_reported_once() {
    let mut st: State<u8> = State::new();
    assert_eq!(st.core_snapshot(), (CoreState::Stopped, None, None));
    assert!(!st.request_stop());
    st.record_started(10, 1000);
    assert!(st.core == running(10, 1000));
    assert!(!st.stop_requested_for(10));
    assert!(st.request_stop());
    assert!(st.stop_requested_for(10));
    assert!(!st.stop_requested_for(11));
    assert!(st.on_core_exit(10));
    assert!(st.core_stopped());

    st.record_started(20, 2000);
    // An older generation's reap leaves the current core alone.
    assert!(st.on_core_exit(10));
    assert!(!st.core_stopped());
    assert!(!st.on_core_exit(20));
    assert!(st.core_stopped());
    assert!(st.on_core_exit(20));
}

#[test]
fn stop_after_natural_exit_says_already_stopped() {
    let mut st: State<u8> = State::new();
    st.acquire(1, 0, false);
    st.record_started(77, 5000);
    // The core dies on its own: reported, and the state is stopped.
    assert!(!st.on_core_exit(77));
    assert_eq!(stop_reply(st.request_stop()), Event::CoreStopped { reason: "already_stopped".into() });
    // The owner's disconnect still tears down.
    assert!(st.end_connection(1, false));
}

// ---- replies ----

#[test]
fn hello_check_outcomes() {
    assert!(matches!(check_hello(None), HelloCheck::Close));
    assert!(matches!(
        check_hello(Some(Ok(Cmd::Hello { proto: 1, takeover: true }))),
        HelloCheck::Proceed { takeover: true }
    ));
    let err = |r: HelloCheck| match r {
        HelloCheck::Reject(ev) => encode_event(&ev),
        _ => panic!("expected a rejection"),
    };
    assert_eq!(
        err(check_hello(Some(Ok(Cmd::Hello { proto: 2, takeover: false })))),
        "{\"event\":\"error\",\"code\":\"bad_proto\",\"msg\":\"unsupported proto 2\"}\n"
    );
    assert_eq!(
        err(check_hello(Some(Ok(Cmd::Start)))),
        "{\"event\":\"error\",\"code\":\"bad_proto\",\"msg\":\"expected hello first\"}\n"
    );
    assert_eq!(
        err(check_hello(Some(Err("eof".to_string())))),
        "{\"event\":\"error\",\"code\":\"bad_proto\",\"msg\":\"malformed hello: eof\"}\n"
    );
}

#[test]
fn command_steps() {
    assert!(matches!(command_step("  \n", Err("x".into())), Step::Ignore));
    assert!(matches!(command_step("{\"cmd\":\"start\"}\n", Ok(Cmd::Start)), Step::StartCore));
    assert!(matches!(command_step("s", Ok(Cmd::Status)), Step::ReportStatus));
    assert!(matches!(command_step("s", Ok(Cmd::Stop)), Step::StopCore));
    match command_step("h", Ok(Cmd::Hello { proto: 1, takeover: false })) {
        Step::Reply(ev) => assert_eq!(ev, Event::Error { code: "bad_proto".into(), msg: "duplicate hello".into() }),
        _ => panic!("duplicate hello must be refused"),
    }
    match command_step("junk", Err("unknown variant".into())) {
        Step::Reply(ev) => assert_eq!(ev, Event::Error { code: "bad_request".into(), msg: "unknown variant".into() }),
        _ => panic!("undecodable line must be refused"),
    }
}

#[test]
fn reply_shapes() {
    assert_eq!(
        encode_event(&hello_reply("0.1.0", (CoreState::Stopped, None, None))),
        "{\"event\":\"hello\",\"proto\":1,\"version\":\"0.1.0\",\"core\":\"stopped\",\"rpc_port\":null}\n"
    );
    assert_eq!(start_reply(Ok((5, 6))), Event::CoreStarted { pid: 5, rpc_port: 6 });
    assert_eq!(
        start_reply(Err("spawn /x: denied".into())),
        Event::Error { code: "spawn_failed".into(), msg: "spawn /x: denied".into() }
    );
    assert_eq!(stop_reply(true), Event::CoreStopped { reason: "requested".into() });
    assert_eq!(stop_reply(false), Event::CoreStopped { reason: "already_stopped".into() });
    assert_eq!(
        status_reply((CoreState::Running, Some(1), Some(2))),
        Event::Status { core: CoreState::Running, pid: Some(1), rpc_port: Some(2) }
    );
    assert_eq!(
        exit_report(ExitInfo { code: Some(3), signal: None }),
        Event::CoreExited { code: Some(3), signal: None }
    );
}

#[test]
fn error_text_is_json_escaped() {
    let line = encode_event(&Event::Error { code: "x".into(), msg: "say \"hi\"\n\\".into() });
    assert_eq!(line, "{\"event\":\"error\",\"code\":\"x\",\"msg\":\"say \\\"hi\\\"\\n\\\\\"}\n");
    assert_eq!(line.matches('\n').count(), 1);
    let v: serde_json::Value = serde_json::from_str(line.trim_end()).unwrap();
    assert_eq!(v["msg"], "say \"hi\"\n\\");
    assert_eq!(
        encode_event(&Event::Error { code: "\u{1f}".into(), msg: "\u{8}\u{c}\r\t\u{7f}é".into() }),
        "{\"event\":\"error\",\"code\":\"\\u001f\",\"msg\":\"\\b\\f\\r\\t\u{7f}é\"}\n"
    );
    assert_eq!(
        encode_event(&Event::CoreExited { code: Some(-1), signal: None }),
        "{\"event\":\"core_exited\",\"code\":-1,\"signal\":null}\n"
    );
}

// ---- line reader ----

#[test]
fn line_reader_edge_cases() {
    // Successive lines come out one by one; a final line without newline is refused.
    let mut r = ByteReader::new(b"a\nb\nc".to_vec());
    assert_eq!(read_line_limited(&mut r, 16).unwrap().unwrap(), "a\n");
    assert_eq!(read_line_limited(&mut r, 16).unwrap().unwrap(), "b\n");
    assert_eq!(read_line_limited(&mut r, 16).unwrap_err(), LineError::Overlong);
    // A line of exactly `max` bytes including its newline fits.
    let mut r = ByteReader::new(b"abc\n".to_vec());
    assert_eq!(read_line_limited(&mut r, 4).unwrap().unwrap(), "abc\n");
    let mut r = ByteReader::new(b"abcd\n".to_vec());
    assert_eq!(read_line_limited(&mut r, 4).unwrap_err(), LineError::Overlong);
    // Invalid UTF-8 is refused.
    let mut r = ByteReader::new(vec![0xff, b'\n']);
    assert_eq!(read_line_limited(&mut r, 16).unwrap_err(), LineError::NotUtf8);
    assert_eq!(LineError::NotUtf8.message(), "control line is not valid UTF-8");
}
