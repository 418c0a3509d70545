use syauth::pair_transaction::{
    LocalEvent, Message, Operation, Phase, Role, StatusMessage, StatusState, Transaction, MESSAGE_LEN,
    STATUS_QUERY_STATE, VERSION, TransactionError,
};

const ID: [u8; 16] = [7; 16];

fn message(operation: Operation) -> Message {
    Message {
        transaction: ID,
        operation,
    }
}

fn exchanged(role: Role) -> Transaction {
    let mut t = Transaction::new(ID, role);
    t.remote(message(Operation::Capability)).unwrap();
    t.local(LocalEvent::Capability).unwrap();
    t.local(LocalEvent::VerifiedExchange).unwrap();
    t
}

fn prepared(role: Role) -> Transaction {
    let mut t = exchanged(role);
    t.local(LocalEvent::Confirm).unwrap();
    assert_eq!(t.phase(), Phase::OobPending);
    t.remote(message(Operation::Confirm)).unwrap();
    t.local(LocalEvent::Prepared).unwrap();
    t.remote(message(Operation::Prepared)).unwrap();
    assert_eq!(t.phase(), Phase::Prepared);
    t
}

#[test]
fn recovery_metadata_roundtrips_without_secrets() {
    let t = exchanged(Role::Coordinator);
    let restored = Transaction::restore(&t.serialize()).unwrap();
    assert_eq!(restored.phase(), Phase::OobPending);
    assert_eq!(restored.serialize(), t.serialize());
    assert!(Transaction::restore(&t.serialize()[..26]).is_err());
}

#[test]
fn complete_two_party_exchange_requires_both_verified_records() {
    let mut desktop = prepared(Role::Coordinator);
    let mut phone = prepared(Role::Participant);
    desktop.local(LocalEvent::Commit).unwrap();
    phone.remote(message(Operation::Commit)).unwrap();
    phone.local(LocalEvent::CommitAck).unwrap();
    desktop.remote(message(Operation::CommitAck)).unwrap();
    for t in [&mut desktop, &mut phone] {
        t.local(LocalEvent::Committed).unwrap();
        assert_eq!(t.phase(), Phase::Committed);
        t.remote(message(Operation::Committed)).unwrap();
        assert_eq!(t.phase(), Phase::Bonded);
    }
}

#[test]
fn reject_cancel_timeout_error_from_either_side_never_bond() {
    for op in [Operation::Reject, Operation::Cancel, Operation::Timeout, Operation::Error] {
        for local in [true, false] {
            let mut t = exchanged(Role::Coordinator);
            if local {
                t.local(LocalEvent::Abort(op)).unwrap();
            } else {
                t.remote(message(op)).unwrap();
            }
            assert_eq!(t.phase(), Phase::Aborted(op));
            assert!(t.local(LocalEvent::Committed).is_err());
        }
    }
}

#[test]
fn missing_ack_or_disconnect_after_commit_is_uncertain() {
    for event in [
        LocalEvent::Disconnected,
        LocalEvent::Abort(Operation::Timeout),
        LocalEvent::Abort(Operation::Error),
    ] {
        let mut t = prepared(Role::Coordinator);
        t.local(LocalEvent::Commit).unwrap();
        assert!(t.local(LocalEvent::Committed).is_err());
        t.local(event).unwrap();
        assert_eq!(t.phase(), Phase::Uncertain);
        t.remote(message(Operation::Status)).unwrap();
        assert_eq!(t.phase(), Phase::Uncertain);
        assert!(t.remote(message(Operation::CommitAck)).is_err());
    }
}

#[test]
fn disconnect_before_commit_aborts_only_inactive_staging() {
    for mut t in [exchanged(Role::Coordinator), prepared(Role::Coordinator)] {
        t.local(LocalEvent::Disconnected).unwrap();
        assert_eq!(t.phase(), Phase::Aborted(Operation::Cancel));
    }
}

#[test]
fn legacy_and_malformed_packets_fail_closed() {
    let valid = message(Operation::Capability).encode();
    assert_eq!(Message::decode(&valid).unwrap(), message(Operation::Capability));
    for n in 0..MESSAGE_LEN {
        assert!(Message::decode(&valid[..n]).is_err());
    }
    let mut legacy = valid;
    legacy[0] = 1;
    assert!(Message::decode(&legacy).is_err());
    legacy[0] = VERSION;
    legacy[17] = 255;
    assert!(Message::decode(&legacy).is_err());
    assert!(Message::decode(&[0; MESSAGE_LEN + 1]).is_err());
}

#[test]
fn status_query_response_is_nonce_bound_and_strict() {
    let tx = exchanged(Role::Coordinator);
    let query = StatusMessage::query(ID, 41);
    assert_eq!(StatusMessage::decode(&query.encode()).unwrap(), query);
    let response = StatusMessage::response(ID, 41, tx.status());
    let mut restored = Transaction::restore(&tx.serialize()).unwrap();
    restored.apply_status_response(response, 41).unwrap();
    assert!(restored.apply_status_response(response, 42).is_err());
    assert!(StatusMessage::decode(&response.encode()[..25]).is_err());
    let wrong = StatusMessage::response([8; 16], 41, tx.status());
    assert!(restored.apply_status_response(wrong, 41).is_err());
}

#[test]
fn reconciliation_matrix_never_downgrades_commit() {
    let mut pending = prepared(Role::Coordinator);
    pending.local(LocalEvent::Commit).unwrap();
    let mut pending = Transaction::restore(&pending.serialize()).unwrap();
    assert_eq!(pending.reconcile_status(StatusState::Committed).unwrap(), Phase::Committed);

    let mut committed = pending.clone();
    assert_eq!(committed.reconcile_status(StatusState::CommitPending).unwrap(), Phase::Committed);
    assert_eq!(committed.reconcile_status(StatusState::Committed).unwrap(), Phase::Bonded);
    let reloaded = Transaction::restore(&committed.serialize()).unwrap();
    assert_eq!(reloaded.phase(), Phase::Bonded);

    let mut pre = exchanged(Role::Coordinator);
    assert_eq!(
        pre.reconcile_status(StatusState::Aborted).unwrap(),
        Phase::Aborted(Operation::Error)
    );
    let mut unknown = exchanged(Role::Coordinator);
    assert_eq!(unknown.reconcile_status(StatusState::Unknown).unwrap(), Phase::Uncertain);
}

#[test]
fn malformed_status_operation_and_state_fail_closed() {
    let query = StatusMessage::query(ID, 1).encode();
    let mut bad = query;
    bad[25] = Operation::StatusResponse.code();
    assert!(StatusMessage::decode(&bad).is_err());
    bad[25] = Operation::StatusQuery.code();
    bad[26] = 99;
    assert!(StatusMessage::decode(&bad).is_err());
    bad[25] = 99;
    bad[26] = STATUS_QUERY_STATE;
    assert!(StatusMessage::decode(&bad).is_err());
    bad = query;
    bad[0] = VERSION - 1;
    assert!(StatusMessage::decode(&bad).is_err());
}

#[test]
fn unknown_status_preserves_fail_closed_uncertainty() {
    let tx = exchanged(Role::Coordinator);
    let mut restored = Transaction::restore(&tx.serialize()).unwrap();
    restored
        .apply_status_response(StatusMessage::response(ID, 9, StatusState::Unknown), 9)
        .unwrap();
    assert_eq!(restored.phase(), Phase::Uncertain);
}

#[test]
fn replay_wrong_role_and_skipping_gates_are_rejected() {
    let mut t = Transaction::new(ID, Role::Coordinator);
    assert!(t.local(LocalEvent::VerifiedExchange).is_err());
    assert!(t.local(LocalEvent::Confirm).is_err());
    assert!(t.local(LocalEvent::Committed).is_err());
    assert!(t
        .remote(Message {
            transaction: [8; 16],
            operation: Operation::Capability
        })
        .is_err());
    let mut t = prepared(Role::Participant);
    assert!(t.local(LocalEvent::Commit).is_err());
    assert!(t.remote(message(Operation::CommitAck)).is_err());
    let mut t = prepared(Role::Coordinator);
    t.local(LocalEvent::Commit).unwrap();
    t.remote(message(Operation::CommitAck)).unwrap();
    assert!(t.remote(message(Operation::CommitAck)).is_err());
    let mut t = Transaction::new(ID, Role::Coordinator);
    t.remote(message(Operation::Capability)).unwrap();
    assert!(t.remote(message(Operation::Capability)).is_err());
    assert_eq!(t.phase(), Phase::Negotiating);
}

#[test]
fn the_revoke_operation_round_trips_with_the_peer_id_in_the_transaction() {
    let peer_id_bytes = [0xAB; 16];
    let encoded = Message {
        transaction: peer_id_bytes,
        operation: Operation::Revoke,
    }
    .encode();
    assert_eq!(encoded[17], 14, "the wire tag is part of the contract");
    let decoded = Message::decode(&encoded).expect("round trip");
    assert_eq!(decoded.operation, Operation::Revoke);
    assert_eq!(decoded.transaction, peer_id_bytes);
}

#[test]
fn a_revoke_operation_never_advances_a_pairing_transaction() {
    let mut t = Transaction::new(ID, Role::Coordinator);
    let before = t.phase();
    assert!(t.remote(message(Operation::Revoke)).is_err());
    assert_eq!(t.phase(), before);
}

#[test]
fn from_recovery_status_restores_the_coarse_phase() {
    for (status, phase) in [
        (StatusState::PreCommit, Phase::Prepared),
        (StatusState::CommitPending, Phase::CommitPending),
        (StatusState::Committed, Phase::Committed),
        (StatusState::Bonded, Phase::Bonded),
        (StatusState::Aborted, Phase::Aborted(Operation::Error)),
        (StatusState::Unknown, Phase::Uncertain),
    ] {
        let t = Transaction::from_recovery_status(ID, Role::Coordinator, status).unwrap();
        assert_eq!(t.phase(), phase);
        assert_eq!(t.status(), status);
        assert_eq!(t.id(), ID);
    }
}

#[test]
fn transaction_error_messages_are_exact() {
    assert_eq!(TransactionError::Incompatible.message(), "incompatible pairing protocol");
    assert_eq!(TransactionError::WrongTransaction.message(), "different pairing transaction");
    assert_eq!(TransactionError::InvalidTransition.message(), "invalid pairing transition");
}
