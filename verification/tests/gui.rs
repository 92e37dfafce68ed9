use easytier_mac::gui::conflict::{classify, is_core_argv0, is_managed_core, is_tun_vpn, process_args, Conflicts};
use easytier_mac::gui::profiles::{
    default_true, derive_name, profile_file_id, profile_meta, profile_record, sort_profiles, validate_id, AppState,
    ProfileMeta, ProfileStore,
};
use easytier_mac::gui::restart::{
    forget_running, launched_hidden, note_running, plan_restart, record_restart, RestartPlan, SupervisorStatus,
};
use easytier_mac::gui::rpc::{retry_after, run_gave_up, RpcClient};

// ---- conflict ----

#[test]
fn detects_unmanaged_core_but_not_managed() {
    let lines = vec![
        "  501 /Users/me/.bin/easytier-core --daemon".to_string(),
        "    1 /Library/Application Support/EasyTier/bin/easytier-core --daemon --rpc-portal 127.0.0.1:1".to_string(),
    ];
    let c = classify(&lines);
    assert!(c.unmanaged_core);
    assert_eq!(c.unmanaged_core_cmds.len(), 1);
    assert!(c.unmanaged_core_cmds[0].contains("/Users/me/.bin/easytier-core"));
}

#[test]
fn managed_core_alone_is_not_a_conflict() {
    let lines = vec!["    1 /Library/Application Support/EasyTier/bin/easytier-core --daemon".to_string()];
    let c = classify(&lines);
    assert!(!c.unmanaged_core);
}

#[test]
fn detects_tun_vpn() {
    let lines = vec!["  777 /opt/homebrew/bin/mihomo -d /etc/mihomo".to_string()];
    let c = classify(&lines);
    assert!(c.tun_vpn);
    assert_eq!(c.tun_vpn_cmds.len(), 1);
}

#[test]
fn ignores_unrelated_processes() {
    let lines = vec!["  123 /usr/sbin/mDNSResponder".to_string()];
    let c = classify(&lines);
    assert!(!c.unmanaged_core);
    assert!(!c.tun_vpn);
}

#[test]
fn conflict_predicates() {
    assert!(is_core_argv0("easytier-core"));
    assert!(is_core_argv0("/x/easytier-core"));
    assert!(!is_core_argv0("/x/easytier-core-2"));
    assert!(!is_core_argv0("/x/my-easytier-core"));
    assert!(is_managed_core("/Library/Application Support/EasyTier/bin/easytier-core"));
    assert!(!is_managed_core("/Library/Application Support/EasyTier/bin/easytier-corex"));
    for name in ["mihomo", "clash", "clash-meta", "clashx", "ClashX", "sing-box", "sing_box", "/usr/local/bin/sing-box"] {
        assert!(is_tun_vpn(name), "{name}");
    }
    assert!(!is_tun_vpn("Clash"));
    assert!(!is_tun_vpn("/opt/mihomo/run"));
    assert!(!is_tun_vpn(""));
    assert_eq!(process_args("  12 /bin/a  b  "), Some("/bin/a  b".to_string()));
    assert_eq!(process_args("12"), None);
}

#[test]
fn classify_keeps_order_and_both_kinds() {
    let lines = vec![
        "1 easytier-core -c a".to_string(),
        "2 /opt/clash -f x".to_string(),
        "3 /bin/easytier-core".to_string(),
        "garbage".to_string(),
    ];
    let c = classify(&lines);
    assert_eq!(c.unmanaged_core_cmds, vec!["easytier-core -c a", "/bin/easytier-core"]);
    assert_eq!(c.tun_vpn_cmds, vec!["/opt/clash -f x"]);
    assert_eq!(classify(&Vec::new()), Conflicts::default());
}

// ---- profiles ----

#[test]
fn rejects_path_traversal_ids() {
    let store = ProfileStore::new("/tmp/et-store");
    assert!(store.profile_path("../evil").is_err());
    assert!(store.profile_path("a/b").is_err());
}

#[test]
fn name_falls_back_through_network_name_then_hostname_then_id() {
    assert_eq!(profile_record("a", "hostname = \"boxA\"\n".to_string()).name, "boxA");
    assert_eq!(profile_record("b", "[network_identity]\nnetwork_name = \"team\"\n".to_string()).name, "team");
    assert_eq!(profile_record("c", "ipv4 = \"10.0.0.1\"\n".to_string()).name, "c");
}

#[test]
fn record_keeps_id_name_and_text() {
    let toml = "instance_name = \"home-net\"\nhostname = \"mac\"\n";
    let rec = profile_record("id-1", toml.to_string());
    assert_eq!(rec.id, "id-1");
    assert_eq!(rec.name, "home-net");
    assert_eq!(rec.toml, toml);
    let meta = profile_meta("id-1", toml);
    assert_eq!(meta, ProfileMeta { id: "id-1".into(), name: "home-net".into() });
}

#[test]
fn blank_or_non_string_names_are_skipped() {
    assert_eq!(derive_name("x", "instance_name = \"  \"\nhostname = \"h\"\n"), "h");
    assert_eq!(derive_name("x", "instance_name = 5\n"), "x");
    assert_eq!(derive_name("x", "this is = not = toml"), "x");
    assert_eq!(derive_name("x", "instance_name = \"i\"\n[network_identity]\nnetwork_name = \"n\"\n"), "i");
}

#[test]
fn id_validation_and_paths() {
    assert_eq!(validate_id("id-1"), Ok(()));
    assert_eq!(validate_id(""), Err("invalid profile id: \"\"".to_string()));
    assert_eq!(validate_id("a..b"), Err("invalid profile id: \"a..b\"".to_string()));
    assert!(validate_id("a\\b").is_err());
    assert!(validate_id("a\0b").is_err());
    assert_eq!(validate_id("a.b"), Ok(()));
    let store = ProfileStore::new("/r");
    assert_eq!(store.profile_path("id-1"), Ok("/r/profiles/id-1.toml".to_string()));
    assert_eq!(store.profiles_dir(), "/r/profiles");
    assert_eq!(store.state_path(), "/r/state.json");
    assert_eq!(store.state_tmp_path(), "/r/state.json.tmp");
    assert_eq!(profile_file_id("id-1.toml"), Some("id-1".to_string()));
    assert_eq!(profile_file_id(".toml"), None);
    assert_eq!(profile_file_id("notes.txt"), None);
}

#[test]
fn listing_is_sorted_case_insensitively() {
    let metas = vec![
        ProfileMeta { id: "z".into(), name: "Zeta".into() },
        ProfileMeta { id: "a".into(), name: "alpha".into() },
        ProfileMeta { id: "m".into(), name: "Mid".into() },
    ];
    let sorted = sort_profiles(metas);
    assert_eq!(sorted.iter().map(|m| m.name.as_str()).collect::<Vec<_>>(), vec!["alpha", "Mid", "Zeta"]);
    assert!(sort_profiles(Vec::new()).is_empty());
}

#[test]
fn equal_names_keep_their_order() {
    let metas = vec![
        ProfileMeta { id: "2".into(), name: "beta".into() },
        ProfileMeta { id: "1".into(), name: "Alpha".into() },
        ProfileMeta { id: "3".into(), name: "alpha".into() },
        ProfileMeta { id: "4".into(), name: "ALPHA".into() },
    ];
    let sorted = sort_profiles(metas);
    assert_eq!(sorted.iter().map(|m| m.id.as_str()).collect::<Vec<_>>(), vec!["1", "3", "4", "2"]);
}

#[test]
fn state_defaults() {
    let def = AppState::default();
    assert!(def.auto_restart);
    assert!(!def.autostart);
    assert!(def.running.is_empty());
    assert!(default_true());
}

// ---- restart policy ----

#[test]
fn restart_budget_is_three_consecutive_failures() {
    assert_eq!(plan_restart(0, true, 0), RestartPlan::Nothing);
    assert_eq!(plan_restart(2, false, 0), RestartPlan::Skipped);
    let mut failures = 0;
    let mut attempts = Vec::new();
    loop {
        match plan_restart(1, true, failures) {
            RestartPlan::Attempt { attempt, delay_secs } => {
                attempts.push((attempt, delay_secs));
                failures = record_restart(failures, false);
            }
            RestartPlan::GiveUp => break,
            other => panic!("unexpected plan {other:?}"),
        }
    }
    assert_eq!(attempts, vec![(1, 1), (2, 2), (3, 4)]);
    assert_eq!(record_restart(2, true), 0);
    assert_eq!(record_restart(u32::MAX, false), u32::MAX);
}

#[test]
fn restart_waits_double() {
    assert_eq!(plan_restart(1, true, 0), RestartPlan::Attempt { attempt: 1, delay_secs: 1 });
    assert_eq!(plan_restart(1, true, 1), RestartPlan::Attempt { attempt: 2, delay_secs: 2 });
    assert_eq!(plan_restart(1, true, 2), RestartPlan::Attempt { attempt: 3, delay_secs: 4 });
    assert_eq!(plan_restart(1, true, 3), RestartPlan::GiveUp);
}

#[test]
fn last_stopped_network_empties_the_set() {
    let mut running: Vec<String> = Vec::new();
    note_running(&mut running, "a");
    note_running(&mut running, "b");
    note_running(&mut running, "a");
    assert_eq!(running, vec!["a", "b"]);
    assert!(!forget_running(&mut running, "a"));
    assert_eq!(running, vec!["b"]);
    assert!(!forget_running(&mut running, "zzz"));
    assert!(forget_running(&mut running, "b"));
    assert!(running.is_empty());
    assert!(forget_running(&mut running, "b"));
}

#[test]
fn status_settings_and_hidden_flag() {
    let s = SupervisorStatus::new(true, Some(5), false);
    assert!(s.core_running && s.connected && !s.installed);
    assert!(!SupervisorStatus::new(true, None, true).core_running);
    assert!(launched_hidden(&vec!["app".to_string(), "--hidden".to_string()]));
    assert!(!launched_hidden(&vec!["app".to_string(), "--hide".to_string()]));
}

// ---- rpc ----

#[test]
fn rpc_port_and_retry_policy() {
    let mut c = RpcClient::new();
    assert_eq!(c.port(), None);
    assert_eq!(c.portal_url(), Err("core is not running (no rpc port)".to_string()));
    c.set_port(Some(50321));
    assert_eq!(c.portal_url(), Ok("tcp://127.0.0.1:50321".to_string()));
    c.set_port(None);
    assert_eq!(RpcClient::default().port(), None);
    assert!(retry_after(0));
    assert!(retry_after(28));
    assert!(!retry_after(29));
    assert!(!retry_after(u32::MAX));
    assert_eq!(run_gave_up("refused"), "run network instance failed after 30 attempts: refused");
}
