use syauth::pair_transaction::{Message, Operation};
use syauth::peripheral::{
    agent_acquired, challenge_ready_text, challenge_ready_token, AgentAcquired, classify_peer_write, notify_step, NotifyStep, pairable_step, parse_rssi, register_agent_failed, revoke_peer_id,
    PairAgentRestore, PairAgentSession, PairableStep, PeerWrite, PeripheralError, TransportError, PRESENCE_HEARTBEAT,
};

#[test]
fn a_revoke_frame_is_recognised_on_the_writable_peer_characteristic() {
    let peer_id = [0x5au8; 16];
    let frame = Message {
        transaction: peer_id,
        operation: Operation::Revoke,
    }
    .encode();

    assert_eq!(revoke_peer_id(&frame), Some(peer_id));

    let capability = Message {
        transaction: peer_id,
        operation: Operation::Capability,
    }
    .encode();
    assert_eq!(revoke_peer_id(&capability), None);
    assert_eq!(revoke_peer_id(&PRESENCE_HEARTBEAT), None);
    assert_eq!(revoke_peer_id(b"SYAUTH-RSSI-v1:-70"), None);
    assert_eq!(revoke_peer_id(&frame[..frame.len() - 1]), None);
}

#[test]
fn rssi_telemetry_parses_signed_values_and_uses_ewma() {
    assert_eq!(parse_rssi(b"SYAUTH-RSSI-v1:-80"), Some(-80));
    assert_eq!(parse_rssi(b"SYAUTH-RSSI-v1:+1"), None);
    assert_eq!(parse_rssi(b"SYAUTH-RSSI-v1:-128"), None);
    assert_eq!(parse_rssi(b"SYAUTH-PRESENCE-v1"), None);
}

#[test]
fn transport_error_maps_to_peripheral_error() {
    let mapped = PeripheralError::from(TransportError::AdapterMissing { name: "hci99".to_owned() });
    match mapped {
        PeripheralError::AdapterMissing { name } => assert_eq!(name, "hci99"),
        other => panic!("expected AdapterMissing, got {other:?}"),
    }
    let mapped = PeripheralError::from(TransportError::Closed);
    match mapped {
        PeripheralError::Backend { reason } => assert!(reason.contains("closed")),
        other => panic!("expected Backend, got {other:?}"),
    }
}

#[test]
fn pair_agent_session_supports_reacquire_and_never_leaks() {
    let restore = || PairAgentRestore::from_pairable(true, false);
    let mut session: PairAgentSession<u8> = PairAgentSession::default();
    assert!(!session.is_held());

    session.begin(7, restore());
    assert!(session.is_held());
    let released = session.end().expect("first release restores");
    assert_eq!(released.previous_pairable, Some(false));
    assert!(!session.is_held());
    assert!(session.end().is_none(), "a second release is a no-op, never a double restore");

    session.begin(9, restore());
    assert!(session.is_held());
    assert!(session.end().is_some());

    let unchanged = PairAgentRestore::from_pairable(false, true);
    assert_eq!(unchanged.previous_pairable, None, "an unchanged flag is never restored");
}

#[test]
fn rssi_samples_are_trimmed_and_bounded() {
    assert_eq!(parse_rssi(b"SYAUTH-RSSI-v1: -70\n"), Some(-70));
    assert_eq!(parse_rssi(b"SYAUTH-RSSI-v1:0"), Some(0));
    assert_eq!(parse_rssi(b"SYAUTH-RSSI-v1:-127"), Some(-127));
    assert_eq!(parse_rssi(b"SYAUTH-RSSI-v1:"), None);
    assert_eq!(parse_rssi(b"SYAUTH-RSSI-v1:-"), None);
    assert_eq!(parse_rssi(b"SYAUTH-RSSI-v1:-99999999999"), None);
    assert_eq!(parse_rssi(b"SYAUTH-RSSI-v1:-7x"), None);
    assert_eq!(parse_rssi(b"SYAUTH-RSSI-v1:\xff"), None);
}

#[test]
fn peer_writes_are_routed_by_kind() {
    assert_eq!(classify_peer_write(b""), PeerWrite::Closed);
    assert_eq!(classify_peer_write(&PRESENCE_HEARTBEAT), PeerWrite::Presence);
    let frame = Message {
        transaction: [1; 16],
        operation: Operation::Revoke,
    }
    .encode();
    assert_eq!(classify_peer_write(&frame), PeerWrite::Revoke([1; 16]));
    assert_eq!(classify_peer_write(b"SYAUTH-RSSI-v1:-60"), PeerWrite::Rssi(-60));
    assert_eq!(classify_peer_write(b"SYAUTH-RSSI-v1:-600"), PeerWrite::Response);
    assert_eq!(classify_peer_write(&[9u8; 40]), PeerWrite::Response);
}

#[test]
fn pairable_is_verified_within_the_budget() {
    assert_eq!(pairable_step(0, 10, true), PairableStep::Verified(false));
    assert_eq!(pairable_step(3, 10, true), PairableStep::Verified(true));
    assert_eq!(pairable_step(0, 10, false), PairableStep::SetAndRecheck);
    assert_eq!(pairable_step(10, 10, false), PairableStep::GiveUp);
}

#[test]
fn a_failed_registration_names_its_cause() {
    match register_agent_failed("busy") {
        PeripheralError::Backend { reason } => assert_eq!(reason, "register_agent: busy"),
        other => panic!("unexpected {other:?}"),
    }
}

#[test]
fn a_challenge_ready_token_is_hex_and_a_newline() {
    if let Some(token) = challenge_ready_token() {
        assert_eq!(token.len(), 33);
        assert!(token.ends_with('\n'));
        assert!(token[..32].chars().all(|c| c.is_ascii_hexdigit() && !c.is_ascii_uppercase()));
    }
}

#[test]
fn the_challenge_ready_text_is_the_token_in_lowercase_hex() {
    let bytes: [u8; 16] = [0x00, 0x01, 0x0a, 0x1f, 0x20, 0x7f, 0x80, 0xab, 0xcd, 0xef, 0xf0, 0xff, 0x12, 0x34, 0x56, 0x78];
    assert_eq!(challenge_ready_text(&bytes), "00010a1f207f80abcdeff0ff12345678\n");
    assert_eq!(challenge_ready_text(&[0u8; 16]), "00000000000000000000000000000000\n");
}

#[test]
fn a_dead_notifier_is_rebuilt_once_then_fails() {
    assert_eq!(notify_step(0, "p", Some(Ok(()))), NotifyStep::Delivered);
    assert_eq!(notify_step(1, "p", Some(Ok(()))), NotifyStep::Delivered);
    assert_eq!(notify_step(0, "p", Some(Err("broken pipe".to_owned()))), NotifyStep::Rebuild);
    assert_eq!(notify_step(0, "p", None), NotifyStep::Rebuild);
    assert_eq!(
        notify_step(1, "p", Some(Err("broken pipe".to_owned()))),
        NotifyStep::Fail(PeripheralError::Backend {
            reason: "notify_challenge retry write: broken pipe".to_owned()
        })
    );
    assert_eq!(
        notify_step(1, "p", None),
        NotifyStep::Fail(PeripheralError::Backend {
            reason: "no active GATT subscription after rebuild for peer_id=p".to_owned()
        })
    );
}

#[test]
fn a_failed_registration_rolls_back_only_this_sessions_change() {
    match agent_acquired(Ok(()), true, false) {
        AgentAcquired::Hold(plan) => assert_eq!(plan.previous_pairable, Some(false)),
        other => panic!("expected the agent held, got {other:?}"),
    }
    match agent_acquired(Ok(()), false, true) {
        AgentAcquired::Hold(plan) => assert_eq!(plan.previous_pairable, None),
        other => panic!("expected the agent held, got {other:?}"),
    }
    match agent_acquired(Err("busy".to_owned()), true, false) {
        AgentAcquired::Undo(back, err) => {
            assert_eq!(back, Some(false));
            assert_eq!(err, PeripheralError::Backend { reason: "register_agent: busy".to_owned() });
        }
        other => panic!("expected a roll-back, got {other:?}"),
    }
    match agent_acquired(Err("busy".to_owned()), false, true) {
        AgentAcquired::Undo(back, _) => assert_eq!(back, None),
        other => panic!("expected a roll-back, got {other:?}"),
    }
}
