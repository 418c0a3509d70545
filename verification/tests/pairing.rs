use syauth::pairing::{
    exchange_accepted, frame, frame_payload_len, pairing_confirmation_socket, pairing_session_socket,
    with_request_id, BondedNotice, BrokerState, GuiAlreadyConnected, GuiEvent, GuiRequestStart, OobRequest,
    PairingRequest, MAX_FRAME_BYTES, PAIR_PUBKEY_LEN,
};

#[test]
fn oob_request_roundtrips_and_rejects_malformed_input() {
    let request = OobRequest {
        id: 7,
        peer: "AA:BB:CC:DD:EE:FF".into(),
        host_pubkey: [0x11; PAIR_PUBKEY_LEN],
        phone_pubkey: [0x22; PAIR_PUBKEY_LEN],
    };
    let encoded = request.encode().expect("encode");
    assert_eq!(OobRequest::decode(&encoded), Some(request));
    assert!(OobRequest::decode(&encoded[..encoded.len() - 1]).is_none());
    let mut extra = encoded.clone();
    extra.push(0);
    assert!(OobRequest::decode(&extra).is_none());
    assert!(OobRequest::decode(b"SYPC\x00\x00\x00\x00\x00\x00\x00\x00").is_none());
}

#[test]
fn bonded_notice_roundtrips_and_is_distinct_from_lesc() {
    let notice = BondedNotice { peer: "phone".into() };
    let encoded = notice.encode().expect("encode");
    assert_eq!(BondedNotice::decode(&encoded), Some(notice));
    assert!(PairingRequest::decode(&encoded).is_none());
    assert!(BondedNotice::decode(b"SYPC\x00\x00").is_none());
}

#[test]
fn frame_is_length_prefixed_and_bounded() {
    let framed = frame(b"hello").expect("frame");
    assert_eq!(&framed[..4], &5u32.to_be_bytes());
    assert_eq!(&framed[4..], b"hello");
    assert!(frame(&vec![0u8; MAX_FRAME_BYTES + 1]).is_none());
}

#[test]
fn a_pairing_request_roundtrips_with_its_passkey() {
    let request = PairingRequest {
        id: 3,
        peer: "AA:BB".into(),
        passkey: 123456,
    };
    let encoded = request.encode().expect("encode");
    assert_eq!(&encoded[..4], b"SYPC");
    assert_eq!(PairingRequest::decode(&encoded), Some(request));
    assert!(PairingRequest::decode(&encoded[..encoded.len() - 1]).is_none());
}

#[test]
fn an_overlong_peer_label_is_not_encoded() {
    let request = PairingRequest {
        id: 1,
        peer: "x".repeat(257),
        passkey: 1,
    };
    assert!(request.encode().is_none());
    let request = PairingRequest {
        id: 1,
        peer: "x".repeat(256),
        passkey: 1,
    };
    assert!(request.encode().is_some());
}

#[test]
fn a_frame_header_announcing_too_much_is_refused() {
    assert_eq!(frame_payload_len(5u32.to_be_bytes()), Some(5));
    assert_eq!(frame_payload_len((MAX_FRAME_BYTES as u32).to_be_bytes()), Some(MAX_FRAME_BYTES));
    assert_eq!(frame_payload_len((MAX_FRAME_BYTES as u32 + 1).to_be_bytes()), None);
}

#[test]
fn the_sockets_live_under_the_runtime_dir() {
    assert_eq!(
        pairing_confirmation_socket(Some("/run/user/1000")).as_deref(),
        Some("/run/user/1000/syauth/pair-confirm.sock")
    );
    assert_eq!(
        pairing_session_socket(Some("/run/user/1000/")).as_deref(),
        Some("/run/user/1000/syauth/pair-session.sock")
    );
    assert_eq!(pairing_confirmation_socket(Some("")), None);
    assert_eq!(pairing_session_socket(None), None);
}

#[test]
fn a_second_gui_session_is_rejected() {
    let mut broker = BrokerState::new();
    assert_eq!(broker.register_gui(), Ok(()));
    assert_eq!(broker.register_gui(), Err(GuiAlreadyConnected));
    assert_eq!(broker.unregister_gui(), None);
    assert_eq!(broker.register_gui(), Ok(()));
}

#[test]
fn one_confirmation_at_a_time_and_late_answers_are_rejected() {
    let mut broker = BrokerState::new();
    assert_eq!(broker.begin_gui_request(), GuiRequestStart::NoGui);
    broker.register_gui().expect("gui");
    assert_eq!(broker.begin_gui_request(), GuiRequestStart::Started(0));
    assert_eq!(broker.begin_gui_request(), GuiRequestStart::Busy);
    assert!(!broker.respond(1), "an unknown id is rejected");
    assert!(broker.respond(0));
    assert!(!broker.respond(0), "a late answer is rejected");
    assert_eq!(broker.begin_gui_request(), GuiRequestStart::Started(1));
    assert_eq!(broker.unregister_gui(), Some(1), "a disconnect fails the pending request");
    assert_eq!(broker.pending, None);
}

#[test]
fn request_ids_wrap_around() {
    let mut broker = BrokerState {
        gui_connected: true,
        pending: None,
        next_id: u64::MAX,
        socket_active: false,
    };
    assert_eq!(broker.begin_gui_request(), GuiRequestStart::Started(u64::MAX));
    assert_eq!(broker.next_id, 0);
}

#[test]
fn one_socket_exchange_at_a_time() {
    let mut broker = BrokerState::new();
    assert!(broker.begin_exchange());
    assert!(!broker.begin_exchange());
    broker.end_exchange();
    assert!(broker.begin_exchange());
}

#[test]
fn a_socket_reply_accepts_only_on_one() {
    assert!(exchange_accepted(true, true, Some(1)));
    assert!(!exchange_accepted(true, true, Some(0)));
    assert!(!exchange_accepted(true, true, None));
    assert!(!exchange_accepted(true, false, Some(1)));
    assert!(exchange_accepted(false, true, None));
    assert!(!exchange_accepted(false, false, None));
}

#[test]
fn the_gui_request_carries_its_id() {
    let event = GuiEvent::Lesc(PairingRequest {
        id: 0,
        peer: "peer".into(),
        passkey: 42,
    });
    match with_request_id(event, 9) {
        GuiEvent::Lesc(request) => {
            assert_eq!(request.id, 9);
            assert_eq!(request.passkey, 42);
        }
        other => panic!("unexpected {other:?}"),
    }
    let notice = GuiEvent::Bonded(BondedNotice { peer: "p".into() });
    assert_eq!(with_request_id(notice.clone(), 9), notice);
}
