use syauth::bonds::BondSummary;
use syauth::presenced::{
    build_config, has_bonded_peer, idle_without_a_bond, pairing_mode_marker, parse_fixed_nonce,
    parse_inject_response, parse_peripheral_mode, prepare_startup, resolve_runtime_dir, CliArgs, PeripheralMode,
};

fn bond(seed: u8, bonded: bool) -> BondSummary {
    BondSummary {
        peer_id: format!("peer-{seed}"),
        bonded,
        created_at_nanos: 0,
    }
}

#[test]
fn an_empty_store_stops_the_daemon() {
    let store: Result<Vec<BondSummary>, String> = Ok(vec![]);
    assert!(idle_without_a_bond(false, &store).is_some());
}

#[test]
fn only_revoked_bonds_stop_the_daemon() {
    let store: Result<Vec<BondSummary>, String> = Ok(vec![bond(1, false)]);
    assert!(idle_without_a_bond(false, &store).is_some());
}

#[test]
fn a_bonded_peer_keeps_the_daemon_running() {
    let store: Result<Vec<BondSummary>, String> = Ok(vec![bond(1, true)]);
    assert!(idle_without_a_bond(false, &store).is_none());
}

#[test]
fn startup_without_a_bond_and_without_a_window_exits() {
    let store: Result<Vec<BondSummary>, String> = Ok(vec![]);
    assert!(prepare_startup(false, &store).exit_reason.is_some());
}

#[test]
fn the_pairing_marker_allows_the_daemon_to_run_without_a_bond() {
    let store: Result<Vec<BondSummary>, String> = Ok(vec![]);
    let decision = prepare_startup(true, &store);
    assert!(decision.exit_reason.is_none());
    assert!(!decision.clear_marker, "a pairing window must survive the restart it is meant to allow");
}

#[test]
fn startup_with_a_bond_clears_the_pairing_marker() {
    let store: Result<Vec<BondSummary>, String> = Ok(vec![bond(1, true)]);
    let decision = prepare_startup(true, &store);
    assert!(decision.exit_reason.is_none());
    assert!(decision.clear_marker);
}

#[test]
fn an_unreadable_store_stops_the_daemon() {
    let store: Result<Vec<BondSummary>, String> = Err("bad toml".to_owned());
    assert_eq!(idle_without_a_bond(false, &store), Some("bonds store unreadable"));
    assert!(!has_bonded_peer(&store));
    assert_eq!(
        idle_without_a_bond(false, &Ok(vec![bond(2, false)])),
        Some("no bonded peer in the store")
    );
}

#[test]
fn the_marker_sits_next_to_the_pidfile() {
    assert_eq!(pairing_mode_marker("/run/user/1000/syauth/presenced.pid"), "/run/user/1000/syauth/pairing-mode");
    assert_eq!(pairing_mode_marker("presenced.pid"), "pairing-mode");
    assert_eq!(pairing_mode_marker("/"), "pairing-mode");
}

#[test]
fn the_runtime_dir_falls_back_to_the_uid() {
    assert_eq!(resolve_runtime_dir(Some("/run/user/42"), 7), "/run/user/42");
    assert_eq!(resolve_runtime_dir(Some(""), 7), "/run/user/7");
    assert_eq!(resolve_runtime_dir(None, 1000), "/run/user/1000");
}

#[test]
fn the_peripheral_mode_is_real_or_fake() {
    assert_eq!(parse_peripheral_mode("real"), Ok(PeripheralMode::Real));
    assert_eq!(parse_peripheral_mode("fake"), Ok(PeripheralMode::Fake));
    assert_eq!(
        parse_peripheral_mode("radio"),
        Err("--peripheral must be `real` or `fake`, got: radio".to_owned())
    );
}

#[test]
fn injected_responses_split_at_the_first_colon() {
    let r = parse_inject_response("peer:a:00ff").err().expect("second colon is not hex");
    assert_eq!(r, "--inject-response hex decode failed for: peer:a:00ff");
    let r = parse_inject_response("peer-1:00FFab").expect("valid");
    assert_eq!(r.peer_id, "peer-1");
    assert_eq!(r.bytes, vec![0x00, 0xff, 0xab]);
    assert_eq!(
        parse_inject_response("nocolon").err(),
        Some("--inject-response must be `<peer_id>:<hex>`, got: nocolon".to_owned())
    );
    assert!(parse_inject_response("p:abc").is_err(), "odd length");
}

#[test]
fn the_fixed_nonce_must_be_sixteen_bytes() {
    assert_eq!(parse_fixed_nonce(None), Ok(None));
    assert_eq!(parse_fixed_nonce(Some(&"ab".repeat(16))), Ok(Some([0xab; 16])));
    assert_eq!(
        parse_fixed_nonce(Some("abcd")),
        Err("--test-fixed-nonce must decode to 16 bytes, got 2".to_owned())
    );
    assert_eq!(
        parse_fixed_nonce(Some("zz")),
        Err("--test-fixed-nonce hex decode failed: zz".to_owned())
    );
}

#[test]
fn the_config_defaults_live_under_the_runtime_dir() {
    let cli = CliArgs {
        socket: None,
        bonds_file: "/var/lib/syauth/bonds.toml".to_owned(),
        keys_dir: "/var/lib/syauth/keys/".to_owned(),
        audit_log: "/var/lib/syauth/last.log".to_owned(),
        log_level: "info".to_owned(),
        pidfile: None,
        peripheral: "fake".to_owned(),
        inject_response: vec!["p:0102".to_owned()],
        test_fixed_nonce: None,
    };
    let cfg = build_config(&cli, "/run/user/1000").expect("config");
    assert_eq!(cfg.socket, "/run/user/1000/syauth/auth.sock");
    assert_eq!(cfg.pidfile, "/run/user/1000/syauth/presenced.pid");
    assert_eq!(cfg.peripheral_mode, PeripheralMode::Fake);
    assert_eq!(cfg.inject_responses.len(), 1);
    assert_eq!(cfg.inject_responses[0].bytes, vec![1, 2]);
    assert_eq!(cfg.expected_uid, None);
    let bad = CliArgs {
        peripheral: "radio".to_owned(),
        ..cli
    };
    assert!(build_config(&bad, "/run/user/1000").is_err());
}
