use syauth::bonds::BondSummary;
use syauth::unlock_request::{
    challenge_nonce, challenge_outcome, default_socket_path, loginctl_bin, newest_bonded_peer, UnlockRequestError,
    LOGINCTL_BIN_DEFAULT, LOGINCTL_BIN_ENV, NONCE_LEN, UNLOCK_SESSION_ARG,
};

fn bond(peer: &str, bonded: bool, seconds: i128) -> BondSummary {
    BondSummary {
        peer_id: peer.to_owned(),
        bonded,
        created_at_nanos: seconds * 1_000_000_000,
    }
}

#[test]
fn the_loginctl_binary_honours_the_test_override() {
    assert_eq!(LOGINCTL_BIN_ENV, "SYAUTH_LOGINCTL_BIN");
    assert_eq!(LOGINCTL_BIN_DEFAULT, "loginctl");
    assert_eq!(UNLOCK_SESSION_ARG, "unlock-session");
}

#[test]
fn the_newest_bonded_peer_wins_over_an_older_bond() {
    let older = bond("peer-1", true, 100);
    let newer = bond("peer-2", true, 200);
    assert_ne!(older.peer_id, newer.peer_id);
    let chosen = newest_bonded_peer(Ok(vec![older, newer.clone()]), "/d/bonds.toml").expect("peer");
    assert_eq!(chosen, newer.peer_id);
}

#[test]
fn a_revoked_newer_bond_is_not_chosen() {
    let older = bond("peer-1", true, 100);
    let revoked = bond("peer-2", false, 200);
    let chosen = newest_bonded_peer(Ok(vec![older.clone(), revoked]), "/d/bonds.toml").expect("peer");
    assert_eq!(chosen, older.peer_id);
}

#[test]
fn an_empty_store_is_refused_before_touching_anything() {
    let err = newest_bonded_peer(Ok(vec![]), "/d/bonds.toml").expect_err("no bonded peer");
    assert_eq!(err, UnlockRequestError::NoBondedPeer("no bonded peer in /d/bonds.toml".to_owned()));
    let err = newest_bonded_peer(Err("unreadable".to_owned()), "/d/bonds.toml").expect_err("no store");
    assert_eq!(err, UnlockRequestError::NoBondedPeer("unreadable".to_owned()));
    assert_eq!(err.message(), "no bonded peer: unreadable");
}

#[test]
fn the_challenge_targets_the_newest_bonded_peer() {
    let older = bond("peer-1", true, 100);
    let newer = bond("peer-2", true, 200);
    let revoked = bond("peer-3", false, 300);
    let chosen = newest_bonded_peer(Ok(vec![older.clone(), newer.clone(), revoked]), "/d/bonds.toml").unwrap();
    assert_eq!(chosen, newer.peer_id);
    assert_ne!(chosen, older.peer_id);
}

#[test]
fn of_equally_new_bonds_the_last_wins() {
    let first = bond("peer-1", true, 100);
    let second = bond("peer-2", true, 100);
    assert_eq!(newest_bonded_peer(Ok(vec![first, second]), "b").unwrap(), "peer-2");
}

#[test]
fn the_default_socket_lives_under_the_runtime_dir() {
    let path = default_socket_path(Some("/run/user/1000"), 1000);
    assert!(path.ends_with("syauth/auth.sock"), "got {path}");
    assert_eq!(default_socket_path(None, 1000), "/run/user/1000/syauth/auth.sock");
}

#[test]
fn the_loginctl_override_replaces_the_default() {
    assert_eq!(loginctl_bin(None), "loginctl");
    assert_eq!(loginctl_bin(Some("/tmp/fake".to_owned())), "/tmp/fake");
}

#[test]
fn only_an_approval_unlocks_and_a_dry_run_never_does() {
    let refused = challenge_outcome(false, "timeout", "peer-1", false);
    assert!(matches!(refused, Err(UnlockRequestError::Refused(ref r)) if r == "timeout"));
    let plan = challenge_outcome(true, "ok", "peer-1", false).unwrap();
    assert!(plan.unlock);
    assert_eq!(plan.line, "unlocked peer=peer-1 reason=ok dry-run=0");
    let plan = challenge_outcome(true, "ok", "peer-1", true).unwrap();
    assert!(!plan.unlock);
    assert_eq!(plan.line, "verified peer=peer-1 reason=ok dry-run=1");
}

#[test]
fn a_challenge_nonce_has_the_nonce_width_and_is_fresh() {
    let first = challenge_nonce().expect("the OS random source is available");
    let second = challenge_nonce().expect("the OS random source is available");
    assert_eq!(first.len(), NONCE_LEN);
    assert_eq!(second.len(), NONCE_LEN);
    assert_ne!(first, second);
}
