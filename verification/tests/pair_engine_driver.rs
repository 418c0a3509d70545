use syauth::pair_engine::{
    apply_remote, classify_peer_operation, route_control_frame, EngineAction, EngineEvent, PairCommitPhase, PairEngine,
    PairEngineError, PairServiceState, WaitBudget,
};
use syauth::pair_transaction::{Message, Operation, Phase, Role, StatusState, Transaction};

const ID: [u8; 16] = [9u8; 16];

fn peer(op: Operation) -> EngineEvent {
    EngineEvent::Peer(Ok(op))
}

fn commits(actions: &[EngineAction]) -> Vec<PairCommitPhase> {
    actions
        .iter()
        .filter_map(|a| match a {
            EngineAction::RequestCommit(phase) => Some(*phase),
            _ => None,
        })
        .collect()
}

fn drive_to_commit_ack(engine: &mut PairEngine) -> Vec<PairCommitPhase> {
    let mut seen = Vec::new();
    seen.extend(commits(&engine.step(peer(Operation::Capability))));
    seen.extend(commits(&engine.step(EngineEvent::OobDecision(true))));
    seen.extend(commits(&engine.step(peer(Operation::Confirm))));
    seen.extend(commits(&engine.step(EngineEvent::CommitReply(true))));
    seen.extend(commits(&engine.step(peer(Operation::Prepared))));
    seen.extend(commits(&engine.step(EngineEvent::CommitReply(true))));
    seen
}

#[test]
fn the_engine_opens_with_capability() {
    let (engine, actions) = PairEngine::start(ID);
    assert_eq!(engine.id(), ID);
    assert!(matches!(
        actions[0],
        EngineAction::PublishPaced(Message { operation: Operation::Capability, .. })
    ));
    assert!(matches!(actions[1], EngineAction::WaitPeer(WaitBudget::Capability)));
    assert!(engine.outcome().is_none());
}

#[test]
fn bilateral_committed_promotes_active_trust_exactly_once() {
    let (mut engine, _) = PairEngine::start(ID);
    let mut seen = drive_to_commit_ack(&mut engine);
    assert_eq!(engine.transaction().phase(), Phase::CommitPending);
    seen.extend(commits(&engine.step(peer(Operation::CommitAck))));
    seen.extend(commits(&engine.step(peer(Operation::Committed))));
    let last = engine.step(EngineEvent::CommitReply(true));
    seen.extend(commits(&last));
    assert_eq!(
        seen,
        vec![PairCommitPhase::Stage, PairCommitPhase::MarkCommit, PairCommitPhase::Promote]
    );
    assert!(last.iter().any(|a| matches!(a, EngineAction::NotifyBonded)));
    assert_eq!(engine.outcome(), Some(Ok(())));
    assert_eq!(engine.transaction().phase(), Phase::Bonded);
}

#[test]
fn operator_reject_persists_no_trust_and_leaves_no_staging() {
    let (mut engine, _) = PairEngine::start(ID);
    engine.step(peer(Operation::Capability));
    let actions = engine.step(EngineEvent::OobDecision(false));
    assert!(commits(&actions).is_empty());
    assert!(matches!(
        actions[0],
        EngineAction::Publish(Message { operation: Operation::Reject, .. })
    ));
    assert_eq!(engine.outcome(), Some(Err(PairEngineError::Rejected)));
    assert_eq!(engine.transaction().phase(), Phase::Aborted(Operation::Reject));
}

#[test]
fn pre_commit_abort_writes_no_active_trust_and_clears_staging() {
    let (mut engine, _) = PairEngine::start(ID);
    engine.step(peer(Operation::Capability));
    engine.step(EngineEvent::OobDecision(true));
    engine.step(peer(Operation::Confirm));
    engine.step(EngineEvent::CommitReply(true));
    let actions = engine.step(EngineEvent::Peer(Err(PairEngineError::Aborted)));
    assert_eq!(commits(&actions), vec![PairCommitPhase::Discard]);
    assert!(engine.outcome().is_none(), "the outcome waits for the discard");
    let actions = engine.step(EngineEvent::CommitReply(true));
    assert_eq!(engine.outcome(), Some(Err(PairEngineError::Aborted)));
    assert!(commits(&actions).is_empty());
}

#[test]
fn commit_ack_without_remote_committed_is_uncertain_and_keeps_recovery() {
    let (mut engine, _) = PairEngine::start(ID);
    drive_to_commit_ack(&mut engine);
    engine.step(peer(Operation::CommitAck));
    let actions = engine.step(EngineEvent::Peer(Err(PairEngineError::Aborted)));
    assert!(commits(&actions).is_empty(), "no promotion and no discard after the commit decision");
    assert_eq!(engine.outcome(), Some(Err(PairEngineError::Uncertain)));
    assert_eq!(engine.transaction().phase(), Phase::Uncertain);
}

#[test]
fn a_failed_staging_reports_persistence_and_publishes_error() {
    let (mut engine, _) = PairEngine::start(ID);
    engine.step(peer(Operation::Capability));
    engine.step(EngineEvent::OobDecision(true));
    engine.step(peer(Operation::Confirm));
    let actions = engine.step(EngineEvent::CommitReply(false));
    assert!(matches!(
        actions[0],
        EngineAction::Publish(Message { operation: Operation::Error, .. })
    ));
    assert_eq!(engine.outcome(), Some(Err(PairEngineError::Persistence)));
}

#[test]
fn the_coordinator_holds_the_confirm_until_the_peer_answers() {
    let (mut engine, _) = PairEngine::start(ID);
    let actions = engine.step(peer(Operation::Capability));
    assert!(matches!(actions[1], EngineAction::RequestOob));
    assert!(
        !actions.iter().any(|a| matches!(a, EngineAction::PublishPaced(Message { operation: Operation::Confirm, .. }))),
        "CONFIRM is published only after the operator's decision"
    );
    let actions = engine.step(EngineEvent::OobDecision(true));
    assert!(matches!(
        actions[0],
        EngineAction::PublishPaced(Message { operation: Operation::Confirm, .. })
    ));
}

#[test]
fn two_consecutive_aborts_then_a_valid_attempt_succeeds() {
    for _ in 0..2 {
        let (mut engine, _) = PairEngine::start(ID);
        engine.step(EngineEvent::Peer(Err(PairEngineError::Aborted)));
        assert_eq!(engine.outcome(), Some(Err(PairEngineError::Aborted)));
    }
    let (mut engine, _) = PairEngine::start([10u8; 16]);
    drive_to_commit_ack(&mut engine);
    engine.step(peer(Operation::CommitAck));
    engine.step(peer(Operation::Committed));
    engine.step(EngineEvent::CommitReply(true));
    assert_eq!(engine.outcome(), Some(Ok(())));
}

#[test]
fn a_finished_attempt_ignores_further_events() {
    let (mut engine, _) = PairEngine::start(ID);
    engine.step(EngineEvent::Peer(Err(PairEngineError::Aborted)));
    assert!(engine.step(peer(Operation::Capability)).is_empty());
    assert_eq!(engine.outcome(), Some(Err(PairEngineError::Aborted)));
}

#[test]
fn abort_class_operations_abort_the_attempt() {
    assert_eq!(classify_peer_operation(Operation::Cancel), Err(PairEngineError::Aborted));
    assert_eq!(classify_peer_operation(Operation::Confirm), Ok(Operation::Confirm));
    let mut t = Transaction::new(ID, Role::Coordinator);
    assert_eq!(apply_remote(&mut t, [1; 16], Operation::Capability), Err(PairEngineError::Aborted));
    assert_eq!(apply_remote(&mut t, ID, Operation::Capability), Ok(()));
}

#[test]
fn a_revoke_frame_is_routed_to_the_daemon() {
    let mut state = PairServiceState::new([1u8; 32], vec![1]);
    let frame = Message {
        transaction: [4u8; 16],
        operation: Operation::Revoke,
    }
    .encode()
    .to_vec();
    assert_eq!(route_control_frame(&mut state, frame), Some([4u8; 16]));
    assert!(state.take_message([4u8; 16]).is_none());
    state.remember_session([4u8; 16], StatusState::PreCommit);
    let other = Message {
        transaction: [4u8; 16],
        operation: Operation::Confirm,
    }
    .encode()
    .to_vec();
    assert_eq!(route_control_frame(&mut state, other), None);
    assert_eq!(state.take_message([4u8; 16]), Some(Operation::Confirm));
}
