use syauth::pair_recovery::{
    active_key_path, bonds_path, journal_contents, journal_is_sliceable, journal_path, keys_dir, mark_commit_pending,
    parse_journal, pending_bond_path, pending_key_path, JournalState, RecoveryError,
};

#[test]
fn the_on_disk_names_live_under_the_bond_dir() {
    assert_eq!(bonds_path("/var/lib/syauth"), "/var/lib/syauth/bonds.toml");
    assert_eq!(journal_path("/var/lib/syauth"), "/var/lib/syauth/pairing-v2.journal");
    assert_eq!(pending_bond_path("/var/lib/syauth/"), "/var/lib/syauth/pairing-v2.pending");
    assert_eq!(keys_dir("/d"), "/d/keys");
    assert_eq!(active_key_path("/d", "p1"), "/d/keys/p1.bin");
    assert_eq!(pending_key_path("/d", "p1"), "/d/keys/.pending-p1.bin");
}

#[test]
fn stage_writes_no_active_trust_and_journal_roundtrips() {
    let text = journal_contents([0xAB; 16], "peer-1", "AA:BB", JournalState::PreCommit);
    assert_eq!(
        text,
        "version=2\ntransaction_id=abababababababababababababababab\npeer_id=peer-1\npeer_address=AA:BB\nstate=pre_commit\n"
    );
    assert!(journal_is_sliceable(&text));
    let record = parse_journal(&text).expect("parse");
    assert_eq!(record.transaction, [0xAB; 16]);
    assert_eq!(record.peer_id, "peer-1");
    assert_eq!(record.peer_address, "AA:BB");
    assert_eq!(record.state, JournalState::PreCommit);
}

#[test]
fn marking_the_commit_rewrites_only_the_state() {
    let text = journal_contents([1; 16], "peer-1", "AA:BB", JournalState::PreCommit);
    let marked = mark_commit_pending(Some(&text)).expect("mark");
    assert_eq!(marked, text.replace("state=pre_commit", "state=commit_pending"));
    assert_eq!(parse_journal(&marked).unwrap().state, JournalState::CommitPending);
    assert_eq!(mark_commit_pending(None), Err(RecoveryError::Malformed));
    assert_eq!(mark_commit_pending(Some("junk")), Err(RecoveryError::Malformed));
}

#[test]
fn missing_journal_reads_as_none_and_malformed_reads_as_error() {
    assert_eq!(parse_journal("version=2\n"), Err(RecoveryError::Malformed));
    assert_eq!(
        parse_journal("transaction_id=00\npeer_id=p\npeer_address=a\n"),
        Err(RecoveryError::Malformed)
    );
    let no_state = "transaction_id=00000000000000000000000000000000\npeer_id=p\npeer_address=a\n";
    assert_eq!(parse_journal(no_state).unwrap().state, JournalState::PreCommit);
}

#[test]
fn recovery_errors_render_their_cause() {
    assert_eq!(RecoveryError::Io("x".to_owned()).message(), "pair recovery i/o error: x");
    assert_eq!(RecoveryError::Malformed.message(), "pair recovery state is malformed");
}

#[test]
fn a_transaction_id_of_thirty_two_bytes_but_not_thirty_two_chars_is_malformed() {
    let text = "transaction_id=aa\u{20ac}\u{20ac}\u{20ac}\u{20ac}\u{20ac}\u{20ac}\u{20ac}\u{20ac}\u{20ac}\u{20ac}\npeer_id=p\npeer_address=a\n";
    assert_eq!(text.lines().next().unwrap().len(), "transaction_id=".len() + 32);
    assert!(!journal_is_sliceable(text));
    assert_eq!(parse_journal(text).err(), Some(RecoveryError::Malformed));
    assert_eq!(mark_commit_pending(Some(text)), Err(RecoveryError::Malformed));
}

fn summary(peer_id: &str, created_at_nanos: i128) -> syauth::bonds::BondSummary {
    syauth::bonds::BondSummary { peer_id: peer_id.to_owned(), bonded: true, created_at_nanos }
}

fn peer_ids(bonds: &[syauth::bonds::BondSummary]) -> Vec<String> {
    bonds.iter().map(|b| b.peer_id.clone()).collect()
}

#[test]
fn promote_is_the_only_active_trust_writer_and_clears_recovery() {
    let plan = syauth::pair_recovery::stage_plan("/d", [7; 16], "phone", "AA:BB", &summary("phone", 5), &[2; 32]);
    assert_eq!(plan.pending_store_path, "/d/pairing-v2.pending");
    assert_eq!(peer_ids(&plan.pending), vec!["phone".to_owned()]);
    assert_eq!(plan.key_path, "/d/keys/.pending-phone.bin");
    assert_eq!(plan.key, vec![2u8; 32]);
    assert_eq!(plan.journal_path, "/d/pairing-v2.journal");
    assert_eq!(plan.journal, journal_contents([7; 16], "phone", "AA:BB", JournalState::PreCommit));

    let (active, key) =
        syauth::pair_recovery::promote_plan(&plan.pending, &[], "phone", Some(&plan.key), false).expect("promote");
    assert_eq!(peer_ids(&active), vec!["phone".to_owned()]);
    assert_eq!(key, Some(vec![2u8; 32]));
}

#[test]
fn promote_is_idempotent_and_replaces_the_same_peer() {
    let staged = vec![summary("phone", 9)];
    let active = vec![summary("other", 1), summary("phone", 2), summary("third", 3)];
    let (once, _) = syauth::pair_recovery::promote_plan(&staged, &active, "phone", Some(&[1; 32]), false).unwrap();
    assert_eq!(peer_ids(&once), vec!["other".to_owned(), "third".to_owned(), "phone".to_owned()]);
    assert_eq!(once[2].created_at_nanos, 9);
    let (twice, _) = syauth::pair_recovery::promote_plan(&staged, &once, "phone", Some(&[1; 32]), false).unwrap();
    assert_eq!(peer_ids(&twice), peer_ids(&once));
    assert_eq!(twice.iter().filter(|b| b.peer_id == "phone").count(), 1);
}

#[test]
fn promotion_needs_a_staged_peer_and_a_key() {
    let staged = vec![summary("phone", 9)];
    assert_eq!(
        syauth::pair_recovery::promote_plan(&staged, &[], "stranger", Some(&[1; 32]), true).err(),
        Some(RecoveryError::Malformed)
    );
    assert_eq!(
        syauth::pair_recovery::promote_plan(&staged, &[], "phone", Some(&[1; 31]), true).err(),
        Some(RecoveryError::Malformed)
    );
    assert_eq!(syauth::pair_recovery::promote_plan(&staged, &[], "phone", None, false).err(), Some(RecoveryError::Malformed));
    let (active, key) = syauth::pair_recovery::promote_plan(&staged, &[], "phone", None, true).unwrap();
    assert_eq!(peer_ids(&active), vec!["phone".to_owned()]);
    assert_eq!(key, None);
}

#[test]
fn discard_clears_staging_without_touching_active_trust() {
    let staged = vec![summary("a", 1), summary("b", 2)];
    let paths = syauth::pair_recovery::discard_all_paths("/d", Some(&staged));
    assert_eq!(
        paths,
        vec![
            "/d/keys/.pending-a.bin".to_owned(),
            "/d/keys/.pending-b.bin".to_owned(),
            "/d/pairing-v2.journal".to_owned(),
            "/d/pairing-v2.pending".to_owned(),
        ]
    );
    assert!(!paths.contains(&bonds_path("/d")));
    assert!(!paths.contains(&active_key_path("/d", "a")));
    assert_eq!(
        syauth::pair_recovery::discard_all_paths("/d", None),
        vec!["/d/pairing-v2.journal".to_owned(), "/d/pairing-v2.pending".to_owned()]
    );
}
