use syauth::pair_engine::{frame_control_payload, host_name_payload, peer_label, PairServiceState, ReadError};
use syauth::pair_transaction::{Message, Operation, StatusMessage, StatusState};
use syauth::pairing::PAIR_PUBKEY_LEN;

#[test]
fn a_publish_marks_the_register_unread_until_the_peer_reads_it() {
    let mut state = PairServiceState::new([7u8; PAIR_PUBKEY_LEN], host_name_payload("workstation"));
    assert!(!state.unread(), "a fresh session has nothing pending");
    state.publish(Message {
        transaction: [1u8; 16],
        operation: Operation::Confirm,
    });
    assert!(state.unread(), "the peer has not read CONFIRM yet");
    let _ = state.status_snapshot(0);
    assert!(!state.unread(), "the peer's read clears the mark");
}

#[test]
fn a_coalesced_control_payload_is_reframed_into_every_message() {
    let id = [3u8; 16];
    let mut payload = Vec::new();
    payload.extend_from_slice(
        &Message {
            transaction: id,
            operation: Operation::Confirm,
        }
        .encode(),
    );
    payload.extend_from_slice(
        &Message {
            transaction: id,
            operation: Operation::Prepared,
        }
        .encode(),
    );

    let frames = frame_control_payload(&payload);
    let seen: Vec<Operation> = frames
        .iter()
        .map(|frame| Message::decode(frame).expect("frame decodes").operation)
        .collect();

    assert_eq!(2, frames.len(), "both coalesced messages must be recovered");
    assert_eq!(vec![Operation::Confirm, Operation::Prepared], seen);
}

#[test]
fn a_desynced_control_payload_resynchronises_on_the_next_frame() {
    let id = [4u8; 16];
    let message = Message {
        transaction: id,
        operation: Operation::Committed,
    }
    .encode();
    let mut payload = vec![0x00, 0x2a, 0xff];
    payload.extend_from_slice(&message);
    payload.extend_from_slice(&message[..5]);

    let frames = frame_control_payload(&payload);
    let seen: Vec<Operation> = frames
        .iter()
        .map(|frame| Message::decode(frame).expect("frame decodes").operation)
        .collect();

    assert_eq!(1, frames.len());
    assert_eq!(vec![Operation::Committed], seen);
}

#[test]
fn pair_service_state_publishes_and_takes_only_the_matching_transaction() {
    let mut state = PairServiceState::new([7u8; PAIR_PUBKEY_LEN], host_name_payload("workstation"));
    state.accept_control(
        Message {
            transaction: [1u8; 16],
            operation: Operation::Capability,
        }
        .encode()
        .to_vec(),
    );
    assert_eq!(state.take_message([2u8; 16]), None);
    assert_eq!(state.take_message([1u8; 16]), Some(Operation::Capability));
    assert_eq!(state.take_message([1u8; 16]), None);
}

#[test]
fn status_query_is_answered_without_entering_the_commit_inbox() {
    let mut state = PairServiceState::new([7u8; PAIR_PUBKEY_LEN], host_name_payload("workstation"));
    state.remember_session([3u8; 16], StatusState::Committed);
    let query = StatusMessage::query([3u8; 16], 42);
    state.accept_control(query.encode().to_vec());
    assert!(state.take_message([3u8; 16]).is_none());
    let response = StatusMessage::decode(&state.status_snapshot(0)).expect("status response");
    assert_eq!(response.nonce, 42);
    assert_eq!(response.state, Some(StatusState::Committed));
}

#[test]
fn malformed_control_never_advances_and_is_ignored() {
    let mut state = PairServiceState::new([7u8; PAIR_PUBKEY_LEN], host_name_payload("workstation"));
    state.accept_control(vec![0u8; 3]);
    state.accept_control(vec![9u8; 64]);
    assert!(state.take_message([0u8; 16]).is_none());
}

#[test]
fn host_name_payload_is_bounded_and_versioned() {
    assert_eq!(host_name_payload(" workstation\n"), b"\x01workstation");
    assert_eq!(host_name_payload(""), b"\x01Computer DeskUnlock");
    let long = host_name_payload(&"è".repeat(200));
    assert!(long.len() <= 129);
    assert!(std::str::from_utf8(&long[1..]).is_ok());
}

#[test]
fn host_name_metadata_is_versioned_bounded_and_not_an_advertisement() {
    assert_eq!(host_name_payload(" workstation-test\n"), b"\x01workstation-test");
    assert_eq!(host_name_payload(""), b"\x01Computer DeskUnlock");
    let long = host_name_payload(&"è".repeat(100));
    assert_eq!(long.len(), 129);
    assert!(std::str::from_utf8(&long[1..]).is_ok());
    assert!(!host_name_payload("host\n\tname").contains(&b'\n'));
}

#[test]
fn a_status_query_for_another_session_is_dropped() {
    let mut state = PairServiceState::new([7u8; PAIR_PUBKEY_LEN], host_name_payload("workstation"));
    state.remember_session([3u8; 16], StatusState::Committed);
    state.accept_control(StatusMessage::query([4u8; 16], 42).encode().to_vec());
    assert!(!state.unread());
    assert!(state.status_snapshot(0).is_empty());
}

#[test]
fn begin_session_forgets_the_previous_attempt() {
    let mut state = PairServiceState::new([7u8; PAIR_PUBKEY_LEN], host_name_payload("workstation"));
    state.accept_control(
        Message {
            transaction: [1u8; 16],
            operation: Operation::Capability,
        }
        .encode()
        .to_vec(),
    );
    state.remember_session([1u8; 16], StatusState::PreCommit);
    state.publish(Message {
        transaction: [1u8; 16],
        operation: Operation::Confirm,
    });
    state.begin_session();
    assert!(state.take_message([1u8; 16]).is_none());
    assert!(state.current_session().is_none());
    assert!(!state.unread());
    assert!(state.status_snapshot(0).is_empty());
}

#[test]
fn a_status_snapshot_past_the_end_reads_nothing() {
    let mut state = PairServiceState::new([7u8; PAIR_PUBKEY_LEN], host_name_payload("workstation"));
    state.publish(Message {
        transaction: [1u8; 16],
        operation: Operation::Confirm,
    });
    assert_eq!(state.status_snapshot(17), vec![Operation::Confirm.code()]);
    assert!(state.status_snapshot(19).is_empty());
}

#[test]
fn the_peer_label_is_the_uppercase_address() {
    assert_eq!(peer_label("aa:bb:cc:dd:ee:ff"), "AA:BB:CC:DD:EE:FF");
}

#[test]
fn the_host_name_reads_from_an_offset_and_refuses_one_past_the_end() {
    let state = PairServiceState::new([7u8; PAIR_PUBKEY_LEN], host_name_payload("ws"));
    assert_eq!(state.host_name_read(0), Ok(vec![1, b'w', b's']));
    assert_eq!(state.host_name_read(2), Ok(vec![b's']));
    assert_eq!(state.host_name_read(3), Ok(vec![]));
    assert_eq!(state.host_name_read(4), Err(ReadError::InvalidOffset));
}

#[test]
fn coalesced_messages_are_each_recovered_in_order() {
    let a = Message { transaction: [1; 16], operation: Operation::Capability }.encode();
    let b = Message { transaction: [2; 16], operation: Operation::Confirm }.encode();
    let c = Message { transaction: [3; 16], operation: Operation::Commit }.encode();
    let mut payload = Vec::new();
    payload.extend_from_slice(&a);
    payload.extend_from_slice(&b);
    payload.extend_from_slice(&c);
    assert_eq!(frame_control_payload(&payload), vec![a.to_vec(), b.to_vec(), c.to_vec()]);
}
