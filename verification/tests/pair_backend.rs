use syauth::pair_backend::{
    bonded_event, classify_gui_frame, friendly_peer_name, is_confirm_command, is_yes_answer, json_string_field,
    lesc_events, oob_events, pair_ipc_dir, pair_request_json, parse_decision, parse_u32, phone_pubkey_from_write,
    unix_minute_floor,
    CoordinatorStage, CoordinatorStep, PairProtocol, ProtocolError, PAIR_CONNECTED_PEER_NAME,
};
use syauth::pair_transaction::{LocalEvent, Message, Operation, Phase, StatusMessage, StatusState, TransactionError};
use syauth::pairing::{BondedNotice, GuiEvent, OobRequest, PairingRequest};

#[test]
fn actual_peer_name_is_vendor_independent_and_not_an_identity_filter() {
    assert_eq!(friendly_peer_name("Galaxy S26", "test-address"), "Galaxy S26");
    assert_eq!(friendly_peer_name("Fairphone", "test-address"), "Fairphone");
    assert_eq!(friendly_peer_name("\tGalaxy\nS26\r", "test-address"), "Galaxy S26");
    assert_eq!(friendly_peer_name("", "test-address"), PAIR_CONNECTED_PEER_NAME);
    assert_eq!(friendly_peer_name("test-address", "test-address"), PAIR_CONNECTED_PEER_NAME);
}

#[test]
fn json_string_field_extracts_value_for_known_key() {
    let text = r#"{"schema_version":1,"request_id":"abc-123","decision":"accept"}"#;
    assert_eq!(json_string_field(text, "request_id"), Some("abc-123".to_owned()));
    assert_eq!(json_string_field(text, "decision"), Some("accept".to_owned()));
}

#[test]
fn json_string_field_returns_none_for_missing_key() {
    let text = r#"{"request_id":"abc-123"}"#;
    assert!(json_string_field(text, "decision").is_none());
}

#[test]
fn parse_decision_accepts_matching_request_id_and_accept() {
    let text = br#"{"schema_version":1,"request_id":"req-7","decision":"accept"}"#;
    assert_eq!(parse_decision(text, "req-7"), Some(true));
}

#[test]
fn parse_decision_rejects_matching_request_id_and_reject() {
    let text = br#"{"schema_version":1,"request_id":"req-7","decision":"reject"}"#;
    assert_eq!(parse_decision(text, "req-7"), Some(false));
}

#[test]
fn parse_decision_ignores_mismatched_request_id() {
    let text = br#"{"schema_version":1,"request_id":"stale","decision":"accept"}"#;
    assert!(parse_decision(text, "req-7").is_none());
}

#[test]
fn parse_decision_returns_none_for_unknown_decision_token() {
    let text = br#"{"schema_version":1,"request_id":"req-7","decision":"maybe"}"#;
    assert!(parse_decision(text, "req-7").is_none());
}

#[test]
fn parse_decision_returns_none_for_invalid_utf8() {
    let bytes = b"\xff\xfe not valid utf-8";
    assert!(parse_decision(bytes, "req-7").is_none());
}

#[test]
fn a_peer_name_is_cut_to_128_chars_and_case_folded_against_the_address() {
    let long = "é".repeat(200);
    assert_eq!(friendly_peer_name(&long, "x").chars().count(), 128);
    assert_eq!(friendly_peer_name("AA:BB:CC", "aa:bb:cc"), PAIR_CONNECTED_PEER_NAME);
    assert_eq!(friendly_peer_name(" \u{7f} ", "x"), PAIR_CONNECTED_PEER_NAME);
}

#[test]
fn the_json_scanner_takes_the_value_after_the_first_colon() {
    assert_eq!(json_string_field(r#""k" : "v" , "x":"y""#, "k"), Some("v".to_owned()));
    assert_eq!(json_string_field(r#""k":"unterminated"#, "k"), None);
    assert_eq!(json_string_field(r#""k":"""#, "k"), Some(String::new()));
    assert_eq!(json_string_field(r#"k:"v""#, "k"), None);
}

#[test]
fn the_minute_floor_counts_whole_minutes() {
    assert_eq!(unix_minute_floor(Some(0)), 0);
    assert_eq!(unix_minute_floor(Some(59)), 0);
    assert_eq!(unix_minute_floor(Some(60)), 1);
    assert_eq!(unix_minute_floor(Some(1_807_257_600)), 30_120_960);
    assert_eq!(unix_minute_floor(None), 0);
    assert_eq!(unix_minute_floor(Some(u64::MAX)), 0);
}

#[test]
fn only_an_explicit_confirm_command_confirms() {
    assert!(is_confirm_command(r#"{"command":"confirm"}"#));
    assert!(is_confirm_command("{\"command\": \"confirm\"}\n"));
    assert!(!is_confirm_command(r#"{"command":"reject"}"#));
    assert!(!is_confirm_command("confirm"));
    assert!(!is_confirm_command(""));
    assert!(!is_confirm_command(r#"{"command":true}"#));
}

#[test]
fn the_stdio_prompt_accepts_only_y_or_yes() {
    assert!(is_yes_answer("y\n"));
    assert!(is_yes_answer("  YES "));
    assert!(is_yes_answer("Yes"));
    assert!(!is_yes_answer("n"));
    assert!(!is_yes_answer("yess"));
    assert!(!is_yes_answer(""));
}

#[test]
fn the_waybar_request_pads_the_passkey() {
    assert_eq!(
        pair_request_json("12-34", 4321, 1700000000),
        r#"{"schema_version":1,"kind":"pair_confirm","request_id":"12-34","passkey":"004321","created_at_secs":1700000000}"#
    );
}

#[test]
fn the_ipc_dir_prefers_the_sudo_caller() {
    assert_eq!(pair_ipc_dir(Some("1000"), Some("/run/user/0")).as_deref(), Some("/run/user/1000/syauth"));
    assert_eq!(pair_ipc_dir(Some("+7"), None).as_deref(), Some("/run/user/7/syauth"));
    assert_eq!(pair_ipc_dir(Some("x"), Some("/run/user/5")).as_deref(), Some("/run/user/5/syauth"));
    assert_eq!(pair_ipc_dir(None, Some("")), None);
    assert_eq!(pair_ipc_dir(None, None), None);
}

#[test]
fn u32_parsing_follows_str_parse() {
    assert_eq!(parse_u32("4294967295"), Some(u32::MAX));
    assert_eq!(parse_u32("4294967296"), None);
    assert_eq!(parse_u32("+0"), Some(0));
    assert_eq!(parse_u32("+"), None);
    assert_eq!(parse_u32("-1"), None);
    assert_eq!(parse_u32("007"), Some(7));
}

#[test]
fn gui_events_render_the_codes_and_quote_the_labels() {
    let lesc = PairingRequest {
        id: 1,
        peer: "Pixel \"8\"".into(),
        passkey: 42,
    };
    assert_eq!(
        lesc_events(&lesc),
        vec![
            r#"{"event":"device_found","name":"Pixel \"8\""}"#.to_owned(),
            r#"{"event":"lesc_code","code":"000042"}"#.to_owned(),
            r#"{"event":"waiting_lesc_confirmation"}"#.to_owned(),
        ]
    );
    let oob = OobRequest {
        id: 2,
        peer: "phone".into(),
        host_pubkey: [1; 32],
        phone_pubkey: [2; 32],
    };
    assert_eq!(
        oob_events(&oob, "01234567"),
        vec![
            r#"{"event":"device_found","name":"phone"}"#.to_owned(),
            r#"{"event":"oob_ready","code":"01234567"}"#.to_owned(),
        ]
    );
    assert_eq!(
        bonded_event(&BondedNotice { peer: "phone".into() }),
        r#"{"event":"bonded","device":"phone"}"#
    );
}

#[test]
fn gui_frames_are_sorted_by_kind() {
    let lesc = PairingRequest {
        id: 1,
        peer: "p".into(),
        passkey: 7,
    };
    let bytes = lesc.encode().unwrap();
    assert_eq!(classify_gui_frame(&bytes), Some(GuiEvent::Lesc(lesc)));
    let notice = BondedNotice { peer: "p".into() };
    let bytes = notice.encode().unwrap();
    assert_eq!(classify_gui_frame(&bytes), Some(GuiEvent::Bonded(notice)));
    assert_eq!(classify_gui_frame(b"junk"), None);
}

const ID: [u8; 16] = [5; 16];

fn queue(protocol: &mut PairProtocol, op: Operation) {
    protocol.accept_control_write(
        "AA:BB",
        Message {
            transaction: ID,
            operation: op,
        }
        .encode()
        .to_vec(),
    );
}

#[test]
fn control_writes_from_other_peers_or_too_long_are_dropped() {
    let mut protocol = PairProtocol::new();
    protocol.set_transaction_id(ID);
    queue(&mut protocol, Operation::Capability);
    assert_eq!(protocol.take_protocol(ID), None, "no peer bound yet");
    protocol.bind_peer("AA:BB".to_owned());
    protocol.accept_control_write("CC:DD", Message { transaction: ID, operation: Operation::Capability }.encode().to_vec());
    assert_eq!(protocol.take_protocol(ID), None);
    protocol.accept_control_write("AA:BB", vec![0u8; 65]);
    assert_eq!(protocol.take_protocol(ID), None);
    queue(&mut protocol, Operation::Capability);
    assert_eq!(protocol.take_protocol([6; 16]), None);
    assert_eq!(protocol.take_protocol(ID), Some(Operation::Capability));
}

#[test]
fn a_status_query_is_answered_from_the_transaction() {
    let mut protocol = PairProtocol::new();
    protocol.bind_peer("AA:BB".to_owned());
    protocol.set_transaction_id(ID);
    protocol.accept_control_write("AA:BB", StatusMessage::query(ID, 77).encode().to_vec());
    let response = StatusMessage::decode(&protocol.read_status(0)).expect("response");
    assert_eq!(response.nonce, 77);
    assert_eq!(response.state, Some(StatusState::PreCommit));
    assert_eq!(protocol.take_protocol(ID), None);
}

#[test]
fn the_coordinator_walks_the_whole_exchange() {
    let mut protocol = PairProtocol::new();
    protocol.bind_peer("AA:BB".to_owned());
    protocol.set_transaction_id(ID);
    let mut stage = protocol.coordinate_begin(ID);
    assert_eq!(Message::decode(&protocol.read_status(0)).unwrap().operation, Operation::Capability);
    let script = [
        Operation::Capability,
        Operation::Confirm,
        Operation::Prepared,
        Operation::CommitAck,
        Operation::Committed,
    ];
    for op in script {
        assert_eq!(stage.wanted(), op);
        queue(&mut protocol, Operation::StatusQuery);
        queue(&mut protocol, op);
        let waited = protocol.poll_protocol(ID, stage.wanted()).expect("queued");
        match protocol.coordinate_after(ID, stage, waited).expect("step") {
            CoordinatorStep::Await(next) => stage = next,
            CoordinatorStep::Finished => {
                assert_eq!(op, Operation::Committed);
            }
        }
    }
    assert_eq!(protocol.transaction().unwrap().phase(), Phase::Bonded);
}

#[test]
fn an_abort_or_an_out_of_order_message_ends_the_wait() {
    let mut protocol = PairProtocol::new();
    protocol.bind_peer("AA:BB".to_owned());
    protocol.set_transaction_id(ID);
    assert_eq!(protocol.poll_protocol(ID, Operation::Capability), None);
    queue(&mut protocol, Operation::Reject);
    assert_eq!(protocol.poll_protocol(ID, Operation::Capability), Some(Err(ProtocolError::RemoteAbort)));
    assert_eq!(
        protocol.transaction().unwrap().phase(),
        Phase::Aborted(Operation::Reject)
    );
    let mut protocol = PairProtocol::new();
    protocol.bind_peer("AA:BB".to_owned());
    protocol.set_transaction_id(ID);
    queue(&mut protocol, Operation::Commit);
    assert_eq!(protocol.poll_protocol(ID, Operation::Capability), Some(Err(ProtocolError::InvalidMessage)));
}

#[test]
fn a_lost_link_after_the_commit_is_uncertain() {
    let mut protocol = PairProtocol::new();
    protocol.set_transaction_id(ID);
    let r = protocol.coordinate_after(ID, CoordinatorStage::CommitAck, Err(ProtocolError::ProtocolTimeout));
    assert_eq!(r, Err(ProtocolError::ProtocolUncertain));
    let r = protocol.coordinate_after(ID, CoordinatorStage::Confirm, Err(ProtocolError::ProtocolTimeout));
    assert_eq!(r, Err(ProtocolError::ProtocolTimeout));
}

#[test]
fn steps_without_a_transaction_or_out_of_order_are_refused() {
    let mut protocol = PairProtocol::new();
    assert_eq!(protocol.apply_local(LocalEvent::Capability), Err(ProtocolError::NotInitialized));
    protocol.set_transaction_id(ID);
    assert_eq!(
        protocol.apply_local(LocalEvent::Commit),
        Err(ProtocolError::Transaction(TransactionError::InvalidTransition))
    );
    assert_eq!(protocol.wait_timed_out(), ProtocolError::ProtocolTimeout);
    assert_eq!(
        protocol.transaction().unwrap().phase(),
        Phase::Aborted(Operation::Cancel)
    );
}

#[test]
fn the_exchange_begins_with_the_local_capability() {
    let mut protocol = PairProtocol::new();
    protocol.set_transaction_id(ID);
    assert_eq!(protocol.begin_exchange(), Ok(()));
    assert_eq!(Message::decode(&protocol.read_status(0)).unwrap().operation, Operation::Capability);
    assert_eq!(protocol.begin_exchange(), Err(ProtocolError::Transaction(TransactionError::InvalidTransition)));
}

#[test]
fn the_phone_key_is_exactly_thirty_two_bytes() {
    assert_eq!(phone_pubkey_from_write(&[7u8; 32]), Ok([7u8; 32]));
    assert_eq!(
        phone_pubkey_from_write(&[7u8; 31]),
        Err("phone-pubkey: expected 32 bytes, got 31".to_owned())
    );
}

#[test]
fn event_strings_carry_serde_json_escapes() {
    let notice = BondedNotice { peer: "a\"b\\c\nd\u{1}\u{8}\u{c}\r\te\u{7f}é".into() };
    assert_eq!(
        bonded_event(&notice),
        "{\"event\":\"bonded\",\"device\":\"a\\\"b\\\\c\\nd\\u0001\\b\\f\\r\\te\u{7f}é\"}"
    );
    assert_eq!(bonded_event(&BondedNotice { peer: "\u{1f}".into() }), "{\"event\":\"bonded\",\"device\":\"\\u001f\"}");
}
