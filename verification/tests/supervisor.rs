use std::path::PathBuf;
use std::time::Duration;

use easytier_mac::supervisor::auth::AuthMode;
use easytier_mac::supervisor::config::{check_secure_ownership, Config};
use easytier_mac::supervisor::hooks::{check_hook_security, FileFacts, HookEvent, HookReason};
use easytier_mac::supervisor::janitor::argv0_matches;
use easytier_mac::supervisor::proto::{encode_event, CoreState, Event};
use easytier_mac::supervisor::server::{lease_decision, read_line_limited, ByteReader, ErrorKind, Lease, MAX_LINE};

// ---- auth ----

#[test]
fn launchd_allows_root_and_owner_only() {
    let m = AuthMode::Launchd { owner_uid: 501 };
    assert!(m.allows(0));
    assert!(m.allows(501));
    assert!(!m.allows(502));
}

#[test]
fn dev_allows_only_self() {
    let m = AuthMode::Dev { euid: 501 };
    assert!(m.allows(501));
    assert!(!m.allows(0));
    assert!(!m.allows(502));
}

// ---- config ----

#[test]
fn secure_ownership_predicate() {
    // Accept: regular file, root-owned, 0644.
    assert!(check_secure_ownership(true, 0, 0o644).is_ok());
    // Reject: not a regular file (e.g. symlink).
    assert!(check_secure_ownership(false, 0, 0o644).is_err());
    // Reject: not owned by root.
    assert!(check_secure_ownership(true, 501, 0o644).is_err());
    // Reject: group- or world-writable.
    assert!(check_secure_ownership(true, 0, 0o664).is_err());
    assert!(check_secure_ownership(true, 0, 0o646).is_err());
}

fn design_config() -> Config {
    Config {
        proto: 1,
        owner_uid: 501,
        core_path: "/Library/Application Support/EasyTier/bin/easytier-core".to_string(),
        log_dir: "/Library/Application Support/EasyTier/logs".to_string(),
        hooks_dir: None,
        hook_timeout_secs: None,
    }
}

#[test]
fn install_root_is_parent_of_log_dir() {
    let cfg = design_config();
    assert_eq!(PathBuf::from(cfg.install_root()), PathBuf::from("/Library/Application Support/EasyTier"));
}

#[test]
fn install_root_falls_back_to_slash() {
    let mut cfg = design_config();
    cfg.log_dir = "/".to_string();
    assert_eq!(cfg.install_root(), "/");
}

#[test]
fn secure_ownership_error_messages() {
    assert_eq!(
        check_secure_ownership(false, 0, 0o644).unwrap_err(),
        "config must be a regular file (symlink or special file rejected)"
    );
    assert_eq!(check_secure_ownership(true, 501, 0o644).unwrap_err(), "config must be owned by root, is uid 501");
    assert!(check_secure_ownership(true, 0, 0o666).unwrap_err().contains("writable"));
}

// ---- hooks ----

fn facts(is_file: bool, uid: u32, gid: u32, mode: u32) -> FileFacts {
    FileFacts { is_file, uid, gid, mode }
}

const PROD: AuthMode = AuthMode::Launchd { owner_uid: 501 };
const DEV: AuthMode = AuthMode::Dev { euid: 501 };

#[test]
fn prod_accepts_root_wheel_executable() {
    assert!(check_hook_security(&facts(true, 0, 0, 0o755), PROD).is_ok());
    assert!(check_hook_security(&facts(true, 0, 0, 0o700), PROD).is_ok());
}

#[test]
fn prod_rejects_non_root_owner() {
    let e = check_hook_security(&facts(true, 501, 0, 0o755), PROD).unwrap_err();
    assert!(e.contains("owned by root"), "{e}");
}

#[test]
fn prod_rejects_non_wheel_group() {
    let e = check_hook_security(&facts(true, 0, 20, 0o755), PROD).unwrap_err();
    assert!(e.contains("gid"), "{e}");
}

#[test]
fn rejects_group_or_world_writable() {
    // group-writable (0o020) and world-writable (0o002) both refused.
    let g = check_hook_security(&facts(true, 0, 0, 0o775), PROD).unwrap_err();
    assert!(g.contains("writable"), "{g}");
    let w = check_hook_security(&facts(true, 0, 0, 0o757), PROD).unwrap_err();
    assert!(w.contains("writable"), "{w}");
}

#[test]
fn rejects_non_executable() {
    let e = check_hook_security(&facts(true, 0, 0, 0o644), PROD).unwrap_err();
    assert!(e.contains("executable"), "{e}");
}

#[test]
fn rejects_non_regular_file() {
    // e.g. a symlink: symlink_metadata reports is_file == false.
    let e = check_hook_security(&facts(false, 0, 0, 0o755), PROD).unwrap_err();
    assert!(e.contains("regular file"), "{e}");
}

#[test]
fn dev_accepts_process_owner_and_rejects_others() {
    assert!(check_hook_security(&facts(true, 501, 20, 0o755), DEV).is_ok());
    let e = check_hook_security(&facts(true, 0, 0, 0o755), DEV).unwrap_err();
    assert!(e.contains("uid 501"), "{e}");
}

#[test]
fn event_and_reason_strings() {
    assert_eq!(HookEvent::Up.as_str(), "up");
    assert_eq!(HookEvent::Down.as_str(), "down");
    assert_eq!(HookEvent::Up.script_name(), "up.sh");
    assert_eq!(HookEvent::Down.script_name(), "down.sh");
    assert_eq!(HookReason::Requested.as_str(), "requested");
    assert_eq!(HookReason::OwnerDrop.as_str(), "owner_drop");
    assert_eq!(HookReason::CoreExited.as_str(), "core_exited");
    assert_eq!(HookReason::Janitor.as_str(), "janitor");
}

#[test]
fn hooks_dir_and_timeout_defaults() {
    // No hooks_dir/hook_timeout keys -> derived from install_root and 30s.
    let cfg = Config {
        proto: 1,
        owner_uid: 501,
        core_path: "/opt/et/bin/easytier-core".into(),
        log_dir: "/opt/et/logs".into(),
        hooks_dir: None,
        hook_timeout_secs: None,
    };
    assert_eq!(PathBuf::from(cfg.hooks_dir()), PathBuf::from("/opt/et/hooks"));
    assert_eq!(Duration::from_secs(cfg.hook_timeout()), Duration::from_secs(30));
}

#[test]
fn hooks_dir_and_timeout_explicit() {
    let cfg = Config {
        proto: 1,
        owner_uid: 501,
        core_path: "/opt/et/bin/easytier-core".into(),
        log_dir: "/opt/et/logs".into(),
        hooks_dir: Some("/etc/et-hooks".into()),
        hook_timeout_secs: Some(7),
    };
    assert_eq!(cfg.hooks_dir(), "/etc/et-hooks");
    assert_eq!(cfg.hook_timeout(), 7);
    assert_eq!(cfg.hook_script(HookEvent::Down), "/etc/et-hooks/down.sh");
}

// ---- janitor ----

#[test]
fn matches_exact_and_with_args() {
    let cp = "/Library/Application Support/EasyTier/bin/easytier-core";
    assert!(argv0_matches(cp, cp));
    assert!(argv0_matches(&format!("{cp} --daemon --rpc-portal 127.0.0.1:5000"), cp));
}

#[test]
fn does_not_match_sibling_or_substring() {
    let cp = "/tmp/et/easytier-core";
    assert!(!argv0_matches("/tmp/et/easytier-core-extra --daemon", cp));
    assert!(!argv0_matches("/usr/bin/easytier-core --daemon", cp));
    assert!(!argv0_matches("/bin/sh /tmp/et/easytier-core --daemon", cp));
}

// ---- server ----

#[test]
fn lease_no_owner_accepts() {
    assert_eq!(lease_decision(false, false), Lease::Accept);
    assert_eq!(lease_decision(false, true), Lease::Accept);
}

#[test]
fn lease_with_owner_busy_unless_takeover() {
    assert_eq!(lease_decision(true, false), Lease::Busy);
    assert_eq!(lease_decision(true, true), Lease::Takeover);
}

#[test]
fn read_line_limited_reads_and_trims_to_newline() {
    let data = b"{\"cmd\":\"stop\"}\nleftover";
    let mut r = ByteReader::new(data.to_vec());
    let line = read_line_limited(&mut r, MAX_LINE).unwrap().unwrap();
    assert_eq!(line, "{\"cmd\":\"stop\"}\n");
}

#[test]
fn read_line_limited_eof_is_none() {
    let data = b"";
    let mut r = ByteReader::new(data.to_vec());
    assert!(read_line_limited(&mut r, MAX_LINE).unwrap().is_none());
}

#[test]
fn read_line_limited_rejects_overlong_line() {
    // No newline within the limit -> error (caller closes the connection).
    let data = vec![b'x'; 100];
    let mut r = ByteReader::new(data);
    let err = read_line_limited(&mut r, 16).unwrap_err();
    assert_eq!(err.kind(), ErrorKind::InvalidData);
}

// ---- proto ----

#[test]
fn encode_hello_event_shape() {
    let ev = Event::Hello { proto: 1, version: "0.1.0".into(), core: CoreState::Stopped, rpc_port: None };
    assert_eq!(
        encode_event(&ev),
        "{\"event\":\"hello\",\"proto\":1,\"version\":\"0.1.0\",\"core\":\"stopped\",\"rpc_port\":null}\n"
    );
}

#[test]
fn encode_core_started_shape() {
    let ev = Event::CoreStarted { pid: 12345, rpc_port: 50321 };
    assert_eq!(encode_event(&ev), "{\"event\":\"core_started\",\"pid\":12345,\"rpc_port\":50321}\n");
}

#[test]
fn encode_status_running_shape() {
    let ev = Event::Status { core: CoreState::Running, pid: Some(12345), rpc_port: Some(50321) };
    assert_eq!(
        encode_event(&ev),
        "{\"event\":\"status\",\"core\":\"running\",\"pid\":12345,\"rpc_port\":50321}\n"
    );
}

#[test]
fn encode_busy_and_kicked_shape() {
    assert_eq!(encode_event(&Event::Busy { owner: true }), "{\"event\":\"busy\",\"owner\":true}\n");
    assert_eq!(encode_event(&Event::Kicked), "{\"event\":\"kicked\"}\n");
}

#[test]
fn encode_core_exited_shape() {
    assert_eq!(
        encode_event(&Event::CoreExited { code: None, signal: Some(9) }),
        "{\"event\":\"core_exited\",\"code\":null,\"signal\":9}\n"
    );
}

#[test]
fn event_round_trips_through_a_line() {
    // Events are what a client parses; make sure each encodes to exactly one line.
    let ev = Event::CoreStopped { reason: "requested".into() };
    let line = encode_event(&ev);
    assert!(line.ends_with('\n'));
    assert_eq!(line.matches('\n').count(), 1);
}
