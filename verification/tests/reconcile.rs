use syauth::pair_recovery::{journal_contents, mark_commit_pending, JournalState, RecoveryError};
use syauth::pair_transaction::{Phase, StatusMessage, StatusState};
use syauth::reconcile::{
    apply_status_decision, cli_outcome, finalize_error, hex_id, pending_path, recover_journal, status_query, ReconcileError,
    ReconcileResult,
};

const TX: [u8; 16] = [7u8; 16];
const PEER: &str = "peer-7";

fn journal(commit_decision: bool) -> String {
    let text = journal_contents(TX, PEER, "AA:BB:CC:DD:EE:FF", JournalState::PreCommit);
    if commit_decision {
        mark_commit_pending(Some(&text)).expect("mark commit")
    } else {
        text
    }
}

fn recovered(commit_decision: bool) -> syauth::reconcile::RecoveredJournal {
    recover_journal(Some(&journal(commit_decision)), Ok(Some(PEER.to_owned()))).expect("recover")
}

#[test]
fn missing_journal_is_a_successful_no_op() {
    assert_eq!(recover_journal(None, Ok(None)).err(), Some(ReconcileError::NoJournal));
}

#[test]
fn reconcile_reads_the_state_written_by_the_daemon_engine() {
    let rec = recovered(false);
    assert_eq!(rec.id, TX);
    assert_eq!(rec.peer_id, PEER);
    assert_eq!(rec.peer_address, "AA:BB:CC:DD:EE:FF");
    assert_eq!(rec.transaction.phase(), Phase::Prepared);
    let rec = recovered(true);
    assert_eq!(rec.transaction.phase(), Phase::CommitPending);
}

#[test]
fn a_journal_that_disagrees_with_the_staging_is_malformed() {
    let text = journal(false);
    assert_eq!(
        recover_journal(Some(&text), Ok(Some("other".to_owned()))).err(),
        Some(ReconcileError::MalformedJournal)
    );
    assert_eq!(recover_journal(Some(&text), Ok(None)).err(), Some(ReconcileError::MalformedJournal));
    assert_eq!(
        recover_journal(Some(&text), Err("bad store".to_owned())).err(),
        Some(ReconcileError::Bond("bad store".to_owned()))
    );
    assert_eq!(
        recover_journal(Some("version=2\n"), Ok(Some(PEER.to_owned()))).err(),
        Some(ReconcileError::MalformedJournal)
    );
    let unknown = text.replace("state=pre_commit", "state=later");
    assert_eq!(
        recover_journal(Some(&unknown), Ok(Some(PEER.to_owned()))).err(),
        Some(ReconcileError::MalformedJournal)
    );
    let missing_state = text.replace("state=pre_commit\n", "");
    let rec = recover_journal(Some(&missing_state), Ok(Some(PEER.to_owned()))).expect("defaults");
    assert_eq!(rec.transaction.phase(), Phase::CommitPending, "a missing state reads as commit_pending");
}

#[test]
fn reconcile_remote_committed_or_bonded_promotes_the_staged_bond() {
    for remote in [StatusState::Committed, StatusState::Bonded] {
        let mut rec = recovered(true);
        let result = apply_status_decision(&mut rec.transaction, StatusMessage::response(TX, 41, remote), 41)
            .expect("decision");
        assert_eq!(result, ReconcileResult::Bonded, "remote {remote:?} must promote");
        assert_eq!(rec.transaction.phase(), Phase::Bonded);
    }
}

#[test]
fn reconcile_remote_aborted_discards_the_staging() {
    let mut rec = recovered(false);
    let result = apply_status_decision(
        &mut rec.transaction,
        StatusMessage::response(TX, 42, StatusState::Aborted),
        42,
    )
    .expect("decision");
    assert_eq!(result, ReconcileResult::Aborted);
}

#[test]
fn reconcile_inconclusive_status_retains_recovery() {
    for (commit_decision, remote) in [
        (false, StatusState::PreCommit),
        (false, StatusState::Unknown),
        (true, StatusState::CommitPending),
        (true, StatusState::Unknown),
        (true, StatusState::Aborted),
    ] {
        let mut rec = recovered(commit_decision);
        let result = apply_status_decision(&mut rec.transaction, StatusMessage::response(TX, 43, remote), 43)
            .expect("decision");
        assert_eq!(
            result,
            ReconcileResult::Uncertain,
            "commit={commit_decision} remote={remote:?} must stay recoverable"
        );
    }
}

#[test]
fn a_response_for_another_nonce_or_a_query_is_refused() {
    let mut rec = recovered(true);
    let before = rec.transaction.phase();
    let r = apply_status_decision(&mut rec.transaction, StatusMessage::response(TX, 1, StatusState::Bonded), 2);
    assert_eq!(r, Err(ReconcileError::Transaction("different pairing transaction".to_owned())));
    let r = apply_status_decision(&mut rec.transaction, StatusMessage::query(TX, 2), 2);
    assert_eq!(r, Err(ReconcileError::Transaction("query received instead of response".to_owned())));
    assert_eq!(rec.transaction.phase(), before);
}

#[test]
fn the_status_query_is_bound_to_the_transaction_and_its_nonce() {
    let (query, nonce) = status_query(TX).expect("the OS random source is available");
    assert_eq!(query.transaction, TX);
    assert_eq!(query.nonce, nonce);
    assert_eq!(query.state, None);
}

#[test]
fn the_transaction_id_is_thirty_two_hex_digits() {
    assert_eq!(hex_id("07070707070707070707070707070707"), Ok(TX));
    assert_eq!(hex_id("0707"), Err(ReconcileError::MalformedJournal));
    assert_eq!(hex_id("zz070707070707070707070707070707"), Err(ReconcileError::MalformedJournal));
}

#[test]
fn a_failed_promotion_keeps_io_errors_apart() {
    assert_eq!(finalize_error(RecoveryError::Io("disk".to_owned())), ReconcileError::Io("disk".to_owned()));
    assert_eq!(
        finalize_error(RecoveryError::Malformed),
        ReconcileError::Transaction("pair recovery state is malformed".to_owned())
    );
    assert_eq!(ReconcileError::NoJournal.message(), "recovery journal unavailable");
    assert_eq!(
        ReconcileError::Transport("gone".to_owned()).message(),
        "recovery peer status unavailable: gone"
    );
}

#[test]
fn the_pending_store_lives_in_the_bond_dir() {
    assert_eq!(pending_path("/var/lib/syauth"), "/var/lib/syauth/pairing-v2.pending");
}

#[test]
fn a_journal_id_that_is_not_thirty_two_chars_is_malformed() {
    let text = "transaction_id=aa\u{20ac}\u{20ac}\u{20ac}\u{20ac}\u{20ac}\u{20ac}\u{20ac}\u{20ac}\u{20ac}\u{20ac}\npeer_id=peer-7\npeer_address=a\n";
    assert_eq!(recover_journal(Some(text), Ok(Some(PEER.to_owned()))).err(), Some(ReconcileError::MalformedJournal));
}

#[test]
fn the_reconcile_verb_fails_only_on_real_errors() {
    assert_eq!(cli_outcome(Ok(ReconcileResult::Bonded)), Ok(()));
    assert_eq!(cli_outcome(Ok(ReconcileResult::Aborted)), Ok(()));
    assert_eq!(cli_outcome(Ok(ReconcileResult::Uncertain)), Ok(()));
    assert_eq!(cli_outcome(Err(ReconcileError::NoJournal)), Ok(()));
    assert_eq!(cli_outcome(Err(ReconcileError::Transport("down".to_owned()))), Ok(()));
    assert_eq!(cli_outcome(Err(ReconcileError::MalformedJournal)), Err(ReconcileError::MalformedJournal));
    assert_eq!(cli_outcome(Err(ReconcileError::Io("disk".to_owned()))), Err(ReconcileError::Io("disk".to_owned())));
    assert_eq!(
        cli_outcome(Err(ReconcileError::Transaction("no".to_owned()))),
        Err(ReconcileError::Transaction("no".to_owned()))
    );
}
