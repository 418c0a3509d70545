use syauth::peripheral::{response_timeout, FakePeripheral, PeripheralError, BOND_KEY_BYTES};

#[test]
fn fake_peripheral_records_notify_calls() {
    let mut fake = FakePeripheral::new();
    fake.add_peer("a", &[0xAA; BOND_KEY_BYTES]).expect("add a");
    fake.notify_challenge("a", &[0x01, 0x02, 0x03]).expect("notify a");
    let calls = fake.notify_calls();
    assert_eq!(calls.len(), 1);
    assert_eq!(calls[0].0, "a");
    assert_eq!(calls[0].1, vec![0x01, 0x02, 0x03]);
}

#[test]
fn fake_peripheral_wait_for_response_returns_injected_bytes() {
    let mut fake = FakePeripheral::new();
    fake.add_peer("a", &[0xAA; BOND_KEY_BYTES]).expect("add a");
    fake.inject_response("a", vec![0x10, 0x20, 0x30]);
    let bytes = fake.poll_response("a").expect("known peer").expect("response present");
    assert_eq!(bytes, vec![0x10, 0x20, 0x30]);
}

#[test]
fn fake_peripheral_wait_for_response_times_out_when_empty() {
    let mut fake = FakePeripheral::new();
    fake.add_peer("a", &[0xAA; BOND_KEY_BYTES]).expect("add a");
    assert_eq!(fake.poll_response("a"), Ok(None));
    match response_timeout("a", 50) {
        PeripheralError::ResponseTimeout { peer_id, deadline_ms } => {
            assert_eq!(peer_id, "a");
            assert_eq!(deadline_ms, 50);
        }
        other => panic!("expected ResponseTimeout, got {other:?}"),
    }
}

#[test]
fn fake_peripheral_wait_for_response_rejects_unknown_peer() {
    let mut fake = FakePeripheral::new();
    match fake.poll_response("ghost") {
        Err(PeripheralError::UnknownPeer { peer_id }) => assert_eq!(peer_id, "ghost"),
        other => panic!("expected UnknownPeer, got {other:?}"),
    }
}

#[test]
fn fake_peripheral_rejects_duplicate_add() {
    let mut fake = FakePeripheral::new();
    fake.add_peer("a", &[0xAA; BOND_KEY_BYTES]).expect("first");
    let err = fake.add_peer("a", &[0xBB; BOND_KEY_BYTES]).expect_err("dup");
    match err {
        PeripheralError::PeerAlreadyAdded { peer_id } => assert_eq!(peer_id, "a"),
        other => panic!("expected PeerAlreadyAdded, got {other:?}"),
    }
}

#[test]
fn responses_are_handed_out_per_peer_oldest_first() {
    let mut fake = FakePeripheral::new();
    fake.add_peer("a", &[1; BOND_KEY_BYTES]).unwrap();
    fake.add_peer("b", &[2; BOND_KEY_BYTES]).unwrap();
    fake.inject_response("a", vec![1]);
    fake.inject_response("b", vec![2]);
    fake.inject_response("a", vec![3]);
    assert_eq!(fake.poll_response("b"), Ok(Some(vec![2])));
    assert_eq!(fake.poll_response("a"), Ok(Some(vec![1])));
    assert_eq!(fake.poll_response("a"), Ok(Some(vec![3])));
    assert_eq!(fake.poll_response("a"), Ok(None));
}

#[test]
fn removed_peers_leave_the_order_of_the_others() {
    let mut fake = FakePeripheral::new();
    for id in ["a", "b", "c"] {
        fake.add_peer(id, &[0; BOND_KEY_BYTES]).unwrap();
    }
    fake.remove_peer("b").unwrap();
    assert_eq!(fake.peers(), vec!["a".to_owned(), "c".to_owned()]);
    assert_eq!(
        fake.remove_peer("b"),
        Err(PeripheralError::UnknownPeer { peer_id: "b".to_owned() })
    );
    assert_eq!(
        fake.notify_challenge("b", &[1]),
        Err(PeripheralError::UnknownPeer { peer_id: "b".to_owned() })
    );
    fake.set_session_uuids(vec![7, 8]);
    fake.set_session_uuids(vec![]);
    assert_eq!(fake.session_uuid_calls(), vec![vec![7u128, 8], vec![]]);
}
