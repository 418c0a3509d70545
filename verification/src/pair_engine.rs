//! Daemon-owned DeskUnlock pairing engine: the pair service's shared state,
//! control-stream framing, display metadata, and the engine's decisions.
//!
//! Invariants kept here:
//!
//! - a Bluetooth bond is transport only; it never completes DeskUnlock;
//! - the phone-pubkey write stages a session but persists no trust;
//! - the DeskUnlock OOB confirmation is a real application decision,
//!   separate from the BlueZ LESC confirmation;
//! - trust is persisted exactly once, at the V2 commit boundary, and only
//!   after the local commit decision is durable;
//! - a link that disappears after the commit decision is `Uncertain`, never
//!   a silent success or a silent rollback.
use vstd::prelude::*;
use vstd::utf8::encode_utf8;
use crate::pair_transaction::{
    Message, StatusMessage, StatusState, Operation, Transaction, LocalEvent, Role, Phase,
    TransactionView, spec_remote, spec_local, MESSAGE_LEN, STATUS_MESSAGE_LEN, same_id, both,
    gate_level, lemma_steps_keep_gates, STATUS_QUERY_STATE,
};
use crate::pairing::PAIR_PUBKEY_LEN;
use crate::be_bytes::{copy_range, push_all};
use crate::text::{
    chars_of, trim, trim_chars, drop_controls, without_controls, string_from_chars, string_bytes,
    ascii_upper, to_ascii_uppercase,
};

verus! {

broadcast use vstd::utf8::group_utf8_lib;

/// Largest host-name display payload, in UTF-8 bytes.
pub const HOST_NAME_MAX_BYTES: usize = 128;
/// Version byte of the host-name metadata.
pub const HOST_NAME_VERSION: u8 = 1;

/// `peer_label`: the BlueZ address, ASCII letters upper-cased.
pub open spec fn spec_peer_label(address: Seq<char>) -> Seq<char> {
    address.map_values(|c: char| ascii_upper(c))
}

/// Resolve the peer display label for a BlueZ device address. The address is
/// a transport label only and never becomes a trust identity.
pub fn peer_label(address: &str) -> (r: String)
    ensures
        r@ == spec_peer_label(address@),
{
    to_ascii_uppercase(address)
}

/// `d` with chars dropped from its end until its UTF-8 encoding has at most
/// `max` bytes.
pub open spec fn truncate_to_bytes(d: Seq<char>, max: nat) -> Seq<char>
    decreases d.len(),
{
    if d.len() > 0 && encode_utf8(d).len() > max {
        truncate_to_bytes(d.drop_last(), max)
    } else {
        d
    }
}

/// The host's display name: trimmed, without control chars, cut to 128
/// UTF-8 bytes on a char boundary, or `Computer DeskUnlock` when nothing is
/// left.
pub open spec fn host_display_name(name: Seq<char>) -> Seq<char> {
    let d = truncate_to_bytes(drop_controls(trim(name)), HOST_NAME_MAX_BYTES as nat);
    if d.len() == 0 {
        "Computer DeskUnlock"@
    } else {
        d
    }
}

/// The host-name metadata: the version byte, then the display name's UTF-8
/// bytes.
pub open spec fn spec_host_name_payload(name: Seq<char>) -> Seq<u8> {
    seq![HOST_NAME_VERSION] + encode_utf8(host_display_name(name))
}

/// Encoded `host-name` metadata: one version byte plus the display name,
/// truncated without splitting a UTF-8 code point. This is the only
/// authenticated application identity; the OS/CDM label is provisional.
pub fn host_name_payload(name: &str) -> (r: Vec<u8>)
    ensures
        r@ == spec_host_name_payload(name@),
{
    let cs = chars_of(name);
    let trimmed = trim_chars(&cs);
    let d = without_controls(&trimmed);
    let mut k: usize = d.len();
    let ghost full = d@;
    assert(d@.subrange(0, k as int) =~= d@);
    let mut display = string_from_chars(vstd::slice::slice_subrange(d.as_slice(), 0, k));
    while string_bytes(&display).len() > HOST_NAME_MAX_BYTES
        invariant
            k <= d@.len(),
            display@ == d@.subrange(0, k as int),
            truncate_to_bytes(full, HOST_NAME_MAX_BYTES as nat) == truncate_to_bytes(
                d@.subrange(0, k as int),
                HOST_NAME_MAX_BYTES as nat,
            ),
            full == d@,
        decreases k,
    {
        proof {
            if k == 0 {
                assert(d@.subrange(0, 0) =~= Seq::<char>::empty());
                assert(encode_utf8(Seq::<char>::empty()) =~= Seq::<u8>::empty());
            }
            assert(d@.subrange(0, k as int).drop_last() =~= d@.subrange(0, k - 1));
        }
        k = k - 1;
        display = string_from_chars(vstd::slice::slice_subrange(d.as_slice(), 0, k));
    }
    if k == 0 {
        display = "Computer DeskUnlock".to_owned();
    } else {
        assert(display@.len() > 0);
    }
    let mut bytes: Vec<u8> = Vec::new();
    bytes.push(HOST_NAME_VERSION);
    push_all(&mut bytes, string_bytes(&display));
    proof {
        assert(d@ == drop_controls(trim(name@)));
        assert(bytes@ =~= spec_host_name_payload(name@));
    }
    bytes
}


/// The complete V2 frames of a control payload, in order: at each position a
/// status frame is tried first, then a protocol message; anything else is
/// skipped one byte at a time.
pub open spec fn spec_control_frames(s: Seq<u8>) -> Seq<Seq<u8>>
    decreases s.len(),
{
    if s.len() == 0 {
        seq![]
    } else if s.len() >= STATUS_MESSAGE_LEN && StatusMessage::spec_wire_ok(
        s.subrange(0, STATUS_MESSAGE_LEN as int),
    ) {
        seq![s.subrange(0, STATUS_MESSAGE_LEN as int)] + spec_control_frames(
            s.subrange(STATUS_MESSAGE_LEN as int, s.len() as int),
        )
    } else if s.len() >= MESSAGE_LEN && Message::spec_wire_ok(s.subrange(0, MESSAGE_LEN as int)) {
        seq![s.subrange(0, MESSAGE_LEN as int)] + spec_control_frames(
            s.subrange(MESSAGE_LEN as int, s.len() as int),
        )
    } else {
        spec_control_frames(s.subrange(1, s.len() as int))
    }
}

/// The messages' encodings, one after the other: what a control stream
/// carries when writes coalesce.
pub open spec fn concat_encodings(msgs: Seq<Message>) -> Seq<u8>
    decreases msgs.len(),
{
    if msgs.len() == 0 {
        Seq::empty()
    } else {
        msgs[0].spec_encode() + concat_encodings(msgs.drop_first())
    }
}

/// A message whose identifier bytes 6 and 7 are what bytes 25 and 26 of a
/// status frame hold: behind another message it completes a status frame.
pub open spec fn reads_as_status_tail(m: Message) -> bool {
    let b = m.spec_encode();
    ||| (b[7] == 12 && b[8] == STATUS_QUERY_STATE)
    ||| (b[7] == 13 && 1 <= b[8] <= 6)
}

/// Coalesced messages are all recovered, in order, none merged or lost,
/// whenever no message after the first reads as the tail of a status frame
/// (the reframer tries a status frame first, so such a message and the one
/// before it are taken as one status frame).
pub proof fn lemma_coalesced_messages_are_recovered(msgs: Seq<Message>)
    requires
        forall|i: int| 1 <= i < msgs.len() ==> !reads_as_status_tail(#[trigger] msgs[i]),
    ensures
        spec_control_frames(concat_encodings(msgs)) == msgs.map_values(|m: Message| m.spec_encode()),
    decreases msgs.len(),
{
    if msgs.len() == 0 {
        assert(msgs.map_values(|m: Message| m.spec_encode()) =~= Seq::<Seq<u8>>::empty());
    } else {
        let e = msgs[0].spec_encode();
        let rest = msgs.drop_first();
        let s = concat_encodings(msgs);
        assert forall|i: int| 1 <= i < rest.len() implies !reads_as_status_tail(#[trigger] rest[i]) by {
            assert(rest[i] == msgs[i + 1]);
        }
        lemma_coalesced_messages_are_recovered(rest);
        crate::pair_transaction::lemma_message_roundtrip(msgs[0]);
        assert(e.len() == MESSAGE_LEN);
        assert(s.subrange(0, MESSAGE_LEN as int) =~= e);
        assert(s.subrange(MESSAGE_LEN as int, s.len() as int) =~= concat_encodings(rest));
        if s.len() >= STATUS_MESSAGE_LEN {
            assert(rest.len() > 0);
            let e1 = rest[0].spec_encode();
            assert(rest[0] == msgs[1]);
            assert(!reads_as_status_tail(msgs[1]));
            let t = concat_encodings(rest);
            assert(t.subrange(0, MESSAGE_LEN as int) =~= e1);
            assert(s[25] == e1[7]);
            assert(s[26] == e1[8]);
            assert(!StatusMessage::spec_wire_ok(s.subrange(0, STATUS_MESSAGE_LEN as int)));
        }
        assert(msgs.map_values(|m: Message| m.spec_encode()) =~= seq![e] + rest.map_values(
            |m: Message| m.spec_encode(),
        ));
    }
}

/// The byte strings of a vector of frames.
pub open spec fn frames_view(v: Seq<Vec<u8>>) -> Seq<Seq<u8>> {
    v.map_values(|f: Vec<u8>| f@)
}

/// Split one incoming v2-control payload into its complete V2 frames.
///
/// The control characteristic is a byte stream: writes that arrive before
/// the reader runs concatenate, so one read can carry several frames. Foreign
/// or truncated bytes are resynchronised one byte at a time, so a desynced
/// stream can never stall the channel.
pub fn frame_control_payload(payload: &[u8]) -> (r: Vec<Vec<u8>>)
    ensures
        frames_view(r@) == spec_control_frames(payload@),
{
    let n = payload.len();
    let mut out: Vec<Vec<u8>> = Vec::new();
    let mut offset: usize = 0;
    assert(payload@.subrange(0, n as int) =~= payload@);
    while offset < n
        invariant
            n == payload@.len(),
            offset <= n,
            frames_view(out@) + spec_control_frames(payload@.subrange(offset as int, n as int))
                == spec_control_frames(payload@),
        decreases n - offset,
    {
        let ghost rest = payload@.subrange(offset as int, n as int);
        let ghost before = out@;
        if n - offset >= STATUS_MESSAGE_LEN {
            let slice = vstd::slice::slice_subrange(payload, offset, offset + STATUS_MESSAGE_LEN);
            if StatusMessage::decode(slice).is_ok() {
                let f = copy_range(payload, offset, offset + STATUS_MESSAGE_LEN);
                out.push(f);
                proof {
                    assert(rest.subrange(0, STATUS_MESSAGE_LEN as int) =~= slice@);
                    assert(rest.subrange(STATUS_MESSAGE_LEN as int, rest.len() as int) =~= payload@.subrange(offset + STATUS_MESSAGE_LEN, n as int));
                    assert(frames_view(out@) =~= frames_view(before).push(slice@));
                    assert(seq![slice@] + spec_control_frames(payload@.subrange(offset + STATUS_MESSAGE_LEN, n as int)) == spec_control_frames(rest));
                    assert(frames_view(before) + spec_control_frames(rest) =~= frames_view(out@) + spec_control_frames(payload@.subrange(offset + STATUS_MESSAGE_LEN, n as int)));
                }
                offset = offset + STATUS_MESSAGE_LEN;
                continue;
            }
            proof {
                assert(rest.subrange(0, STATUS_MESSAGE_LEN as int) =~= slice@);
            }
        }
        if n - offset >= MESSAGE_LEN {
            let slice = vstd::slice::slice_subrange(payload, offset, offset + MESSAGE_LEN);
            if Message::decode(slice).is_ok() {
                let f = copy_range(payload, offset, offset + MESSAGE_LEN);
                out.push(f);
                proof {
                    assert(rest.subrange(0, MESSAGE_LEN as int) =~= slice@);
                    assert(rest.subrange(MESSAGE_LEN as int, rest.len() as int) =~= payload@.subrange(offset + MESSAGE_LEN, n as int));
                    assert(frames_view(out@) =~= frames_view(before).push(slice@));
                    assert(frames_view(before) + spec_control_frames(rest) =~= frames_view(out@) + spec_control_frames(payload@.subrange(offset + MESSAGE_LEN, n as int)));
                }
                offset = offset + MESSAGE_LEN;
                continue;
            }
            proof {
                assert(rest.subrange(0, MESSAGE_LEN as int) =~= slice@);
            }
        }
        proof {
            assert(rest.subrange(1, rest.len() as int) =~= payload@.subrange(offset + 1, n as int));
        }
        offset = offset + 1;
    }
    proof {
        assert(payload@.subrange(n as int, n as int) =~= Seq::<u8>::empty());
        assert(frames_view(out@) + Seq::<Seq<u8>>::empty() =~= frames_view(out@));
    }
    out
}


/// Whether a control frame is a protocol message for attempt `id`.
pub open spec fn message_for(frame: Seq<u8>, id: Seq<u8>) -> bool {
    Message::spec_wire_ok(frame) && frame.subrange(1, 17) == id
}

/// The effect of one control write on the pair service: a status query for
/// the current session is answered from its snapshot; any other status frame
/// is dropped; everything else is queued for the engine.
pub open spec fn spec_accept_control(v: PairServiceView, bytes: Seq<u8>) -> PairServiceView {
    if StatusMessage::spec_wire_ok(bytes) {
        if bytes[25] == 12 && (v.session matches Some((id, st)) && id == bytes.subrange(1, 17)) {
            PairServiceView {
                status: StatusMessage::response_bytes(bytes, v.session.unwrap().1),
                unread: true,
                ..v
            }
        } else {
            v
        }
    } else {
        PairServiceView { inbox: v.inbox.push(bytes), ..v }
    }
}

/// Why a characteristic read is refused.
#[derive(Debug, Clone, Copy, PartialEq, Eq, Structural)]
pub enum ReadError {
    /// The read starts past the end of the value.
    InvalidOffset,
}

/// The abstract state of the pair service.
pub struct PairServiceView {
    pub host_pubkey: Seq<u8>,
    pub host_name: Seq<u8>,
    /// The last-value status register the peer polls.
    pub status: Seq<u8>,
    /// True from a publish until the peer's next read of the register.
    pub unread: bool,
    /// Control frames waiting for the engine, oldest first.
    pub inbox: Seq<Seq<u8>>,
    /// The current attempt's identifier and coarse state.
    pub session: Option<(Seq<u8>, StatusState)>,
}

/// Shared state of the always-present DeskUnlock pair service. The GATT
/// characteristics read and write this state; the pair engine drives the V2
/// transaction over it.
pub struct PairServiceState {
    host_pubkey: [u8; PAIR_PUBKEY_LEN],
    host_name: Vec<u8>,
    status: Vec<u8>,
    unread: bool,
    inbox: Vec<Vec<u8>>,
    session: Option<([u8; 16], StatusState)>,
}

impl View for PairServiceState {
    type V = PairServiceView;

    closed spec fn view(&self) -> PairServiceView {
        PairServiceView {
            host_pubkey: self.host_pubkey@,
            host_name: self.host_name@,
            status: self.status@,
            unread: self.unread,
            inbox: frames_view(self.inbox@),
            session: match self.session {
                Some((id, st)) => Some((id@, st)),
                None => None,
            },
        }
    }
}

impl PairServiceState {
    /// Build the pair-service state for `host_pubkey` and the encoded
    /// host-name payload.
    pub fn new(host_pubkey: [u8; PAIR_PUBKEY_LEN], host_name: Vec<u8>) -> (r: Self)
        ensures
            r@ == (PairServiceView {
                host_pubkey: host_pubkey@,
                host_name: host_name@,
                status: Seq::empty(),
                unread: false,
                inbox: Seq::empty(),
                session: None,
            }),
    {
        let r = PairServiceState {
            host_pubkey,
            host_name,
            status: Vec::new(),
            unread: false,
            inbox: Vec::new(),
            session: None,
        };
        assert(r@.inbox =~= Seq::<Seq<u8>>::empty());
        r
    }

    /// The host public key served on the `host-pubkey` characteristic.
    pub fn host_pubkey(&self) -> (k: [u8; PAIR_PUBKEY_LEN])
        ensures
            k@ == self@.host_pubkey,
    {
        self.host_pubkey
    }

    /// The host-name metadata served on the `host-name` characteristic.
    pub fn host_name(&self) -> (n: &Vec<u8>)
        ensures
            n@ == self@.host_name,
    {
        &self.host_name
    }

    /// The peer's read of the host-name metadata from `offset`: the bytes
    /// from there on, or `InvalidOffset` for an offset past the end.
    pub fn host_name_read(&self, offset: usize) -> (r: Result<Vec<u8>, ReadError>)
        ensures
            match r {
                Ok(v) => offset <= self@.host_name.len() && v@ == self@.host_name.subrange(
                    offset as int,
                    self@.host_name.len() as int,
                ),
                Err(e) => offset > self@.host_name.len() && e == ReadError::InvalidOffset,
            },
    {
        if offset <= self.host_name.len() {
            Ok(copy_range(self.host_name.as_slice(), offset, self.host_name.len()))
        } else {
            Err(ReadError::InvalidOffset)
        }
    }

    /// Whether the peer has yet to read the last published message.
    pub fn unread(&self) -> (b: bool)
        ensures
            b == self@.unread,
    {
        self.unread
    }

    /// Publish one protocol message into the status register.
    pub fn publish(&mut self, message: Message)
        ensures
            final(self)@ == (PairServiceView { status: message.spec_encode(), unread: true, ..old(self)@ }),
    {
        let bytes = message.encode();
        self.status = copy_range(&bytes, 0, MESSAGE_LEN);
        self.unread = true;
        assert(self.status@ =~= message.spec_encode());
    }

    /// Publish a status response into the status register.
    pub fn publish_status(&mut self, response: StatusMessage)
        ensures
            final(self)@ == (PairServiceView { status: response.spec_encode(), unread: true, ..old(self)@ }),
    {
        let bytes = response.encode();
        self.status = copy_range(&bytes, 0, STATUS_MESSAGE_LEN);
        self.unread = true;
        assert(self.status@ =~= response.spec_encode());
    }

    /// The peer's read of the status register from `offset`: it consumes the
    /// unread mark, and an offset past the end reads nothing.
    pub fn status_snapshot(&mut self, offset: usize) -> (r: Vec<u8>)
        ensures
            final(self)@ == (PairServiceView { unread: false, ..old(self)@ }),
            r@ == if offset <= old(self)@.status.len() {
                old(self)@.status.subrange(offset as int, old(self)@.status.len() as int)
            } else {
                Seq::empty()
            },
    {
        self.unread = false;
        if offset <= self.status.len() {
            copy_range(self.status.as_slice(), offset, self.status.len())
        } else {
            Vec::new()
        }
    }

    /// Reset the per-attempt state so a retry can never inherit a previous
    /// session's published message, control inbox or transaction snapshot.
    pub fn begin_session(&mut self)
        ensures
            final(self)@ == (PairServiceView {
                status: Seq::empty(),
                unread: false,
                inbox: Seq::empty(),
                session: None,
                ..old(self)@
            }),
    {
        self.status = Vec::new();
        self.unread = false;
        self.inbox = Vec::new();
        self.session = None;
        assert(self@.inbox =~= Seq::<Seq<u8>>::empty());
    }

    /// Remember the current attempt's identifier and coarse state.
    pub fn remember_session(&mut self, id: [u8; 16], status: StatusState)
        ensures
            final(self)@ == (PairServiceView { session: Some((id@, status)), ..old(self)@ }),
    {
        self.session = Some((id, status));
    }

    /// The current attempt's identifier and coarse state.
    pub fn current_session(&self) -> (r: Option<([u8; 16], StatusState)>)
        ensures
            match (r, self@.session) {
                (Some((id, st)), Some((vid, vst))) => id@ == vid && st == vst,
                (None, None) => true,
                _ => false,
            },
    {
        self.session
    }

    /// Accept one authenticated V2 control write. A status query for the
    /// current session is answered from its snapshot; any other status frame
    /// is dropped; neither enters the commit inbox. Everything else is queued
    /// and only ever advances a transaction through the strict decoder.
    pub fn accept_control(&mut self, bytes: Vec<u8>)
        ensures
            final(self)@ == spec_accept_control(old(self)@, bytes@),
    {
        match StatusMessage::decode(bytes.as_slice()) {
            Ok(query) => {
                if query.state.is_none() {
                    match self.session {
                        Some((id, status)) => {
                            if same_id(&id, &query.transaction) {
                                proof {
                                    assert(query.transaction@ =~= bytes@.subrange(1, 17));
                                    assert(bytes@[25] == 12);
                                }
                                let response = StatusMessage::response(id, query.nonce, status);
                                self.publish_status(response);
                                proof {
                                    assert(StatusMessage::response_bytes(bytes@, status) =~= response.spec_encode());
                                }
                            } else {
                                proof {
                                    assert(query.transaction@ =~= bytes@.subrange(1, 17));
                                }
                            }
                        },
                        None => {},
                    }
                } else {
                    assert(bytes@[25] == 13);
                }
                return;
            },
            Err(_) => {},
        }
        let ghost before = self.inbox@;
        self.inbox.push(bytes);
        assert(frames_view(self.inbox@) =~= frames_view(before).push(bytes@));
    }

    /// Take the oldest queued message of attempt `id`, if any: the entry is
    /// removed and its operation returned; other attempts' messages stay.
    pub fn take_message(&mut self, id: [u8; 16]) -> (r: Option<Operation>)
        ensures
            match r {
                None => {
                    &&& forall|i: int| 0 <= i < old(self)@.inbox.len() ==> !message_for(#[trigger] old(self)@.inbox[i], id@)
                    &&& final(self)@ == old(self)@
                },
                Some(op) => exists|i: int| {
                    &&& 0 <= i < old(self)@.inbox.len()
                    &&& message_for(old(self)@.inbox[i], id@)
                    &&& forall|j: int| 0 <= j < i ==> !message_for(#[trigger] old(self)@.inbox[j], id@)
                    &&& final(self)@ == (PairServiceView { inbox: old(self)@.inbox.remove(i), ..old(self)@ })
                    &&& Operation::spec_from_code(old(self)@.inbox[i][17]) == Some(op)
                },
            },
    {
        let ghost before = *self;
        let r = take_first_message(&mut self.inbox, id);
        proof {
            assert(before@.inbox == frames_view(before.inbox@));
            assert(self@ == PairServiceView { inbox: frames_view(self.inbox@), ..before@ });
            if r is None {
                assert(self@.inbox == before@.inbox);
                assert(self@ == before@);
            } else {
                let k = choose|k: int| {
                    &&& 0 <= k < frames_view(before.inbox@).len()
                    &&& message_for(frames_view(before.inbox@)[k], id@)
                    &&& forall|j: int| 0 <= j < k ==> !message_for(#[trigger] frames_view(before.inbox@)[j], id@)
                    &&& frames_view(self.inbox@) == frames_view(before.inbox@).remove(k)
                    &&& Operation::spec_from_code(frames_view(before.inbox@)[k][17]) == Some(r.unwrap())
                };
                assert(self@ == PairServiceView { inbox: before@.inbox.remove(k), ..before@ });
            }
        }
        r
    }
}

/// Take the oldest frame of `inbox` that is a message of attempt `id`, if
/// any: the frame is removed and its operation returned; the other frames
/// stay, in order.
pub fn take_first_message(inbox: &mut Vec<Vec<u8>>, id: [u8; 16]) -> (r: Option<Operation>)
    ensures
        match r {
            None => {
                &&& forall|i: int| 0 <= i < frames_view(old(inbox)@).len() ==> !message_for(#[trigger] frames_view(old(inbox)@)[i], id@)
                &&& frames_view(final(inbox)@) == frames_view(old(inbox)@)
            },
            Some(op) => exists|i: int| {
                &&& 0 <= i < frames_view(old(inbox)@).len()
                &&& message_for(frames_view(old(inbox)@)[i], id@)
                &&& forall|j: int| 0 <= j < i ==> !message_for(#[trigger] frames_view(old(inbox)@)[j], id@)
                &&& frames_view(final(inbox)@) == frames_view(old(inbox)@).remove(i)
                &&& Operation::spec_from_code(frames_view(old(inbox)@)[i][17]) == Some(op)
            },
        },
{
    let ghost start = frames_view(inbox@);
    let mut i: usize = 0;
    while i < inbox.len()
        invariant
            i <= inbox@.len(),
            frames_view(inbox@) == start,
            start == frames_view(old(inbox)@),
            forall|j: int| 0 <= j < i ==> !message_for(#[trigger] start[j], id@),
        decreases inbox@.len() - i,
    {
        let ghost e = inbox@[i as int]@;
        assert(start[i as int] == e);
        let matched = match Message::decode(inbox[i].as_slice()) {
            Ok(m) => {
                proof {
                    assert(m.transaction@ =~= m.spec_encode().subrange(1, 17));
                }
                same_id(&m.transaction, &id)
            },
            Err(_) => false,
        };
        assert(matched == message_for(e, id@));
        if matched {
            let ghost before = inbox@;
            let bytes = inbox.remove(i);
            assert(frames_view(inbox@) =~= frames_view(before).remove(i as int));
            let r = match Message::decode(bytes.as_slice()) {
                Ok(m) => {
                    proof {
                        crate::pair_transaction::lemma_operation_code_injective(m.operation);
                        assert(m.spec_encode()[17] == m.operation.spec_code());
                    }
                    Some(m.operation)
                },
                Err(_) => None,
            };
            assert(r is Some);
            return r;
        }
        i = i + 1;
    }
    None
}


/// Route one control frame: a day-2 revocation names the revoking peer and
/// goes to the daemon; every other frame is handed to `accept_control`.
pub fn route_control_frame(state: &mut PairServiceState, frame: Vec<u8>) -> (r: Option<[u8; 16]>)
    ensures
        match r {
            Some(peer) => Message::spec_wire_ok(frame@) && frame@[17] == Operation::Revoke.spec_code()
                && peer@ == frame@.subrange(1, 17) && final(state)@ == old(state)@,
            None => !(Message::spec_wire_ok(frame@) && frame@[17] == Operation::Revoke.spec_code()),
        },
        !(Message::spec_wire_ok(frame@) && frame@[17] == Operation::Revoke.spec_code())
            ==> final(state)@ == spec_accept_control(old(state)@, frame@),
{
    match Message::decode(frame.as_slice()) {
        Ok(message) => {
            if message.operation == Operation::Revoke {
                assert(message.transaction@ =~= message.spec_encode().subrange(1, 17));
                return Some(message.transaction);
            }
            proof {
                crate::pair_transaction::lemma_operation_code_injective(message.operation);
                assert(message.spec_encode()[17] == message.operation.spec_code());
            }
        },
        Err(_) => {},
    }
    proof {
        crate::pair_transaction::lemma_operation_code_injective(Operation::Revoke);
    }
    state.accept_control(frame);
    None
}


/// Durable action the pair engine asks the daemon to perform at the V2
/// commit boundary.
#[derive(Debug, Clone, Copy, PartialEq, Eq, Structural)]
pub enum PairCommitPhase {
    /// Durably stage the inactive bond + key + journal (`state=pre_commit`),
    /// before COMMIT. Writes no active trust.
    Stage,
    /// Record the durable local commit decision in the journal
    /// (`state=commit_pending`), before the COMMITTED exchange.
    MarkCommit,
    /// Promote the staged bond/key into the active trust. Runs only after
    /// the bilateral V2 `COMMITTED`.
    Promote,
    /// Drop the staging after an abort. Never touches active trust.
    Discard,
    /// Day-2 revocation: the phone says the association is over; the peer id
    /// travels in the request's transaction field.
    Revoke,
}

/// Failure surface of the daemon-owned pair engine.
#[derive(Debug, Clone, Copy, PartialEq, Eq, Structural)]
pub enum PairEngineError {
    /// The operator rejected the DeskUnlock OOB confirmation.
    Rejected,
    /// The peer aborted, or the exchange timed out before the commit.
    Aborted,
    /// The link disappeared after the commit decision; outcome is unknown.
    Uncertain,
    /// The commit boundary could not durably persist the bond.
    Persistence,
}

/// Apply one peer operation of attempt `id`; any refusal aborts the attempt.
pub fn apply_remote(transaction: &mut Transaction, id: [u8; 16], operation: Operation) -> (r: Result<
    (),
    PairEngineError,
>)
    ensures
        match spec_remote(old(transaction)@, Message { transaction: id, operation }) {
            Ok(v) => r is Ok && final(transaction)@ == v,
            Err(_) => r == Err::<(), PairEngineError>(PairEngineError::Aborted)
                && final(transaction)@ == old(transaction)@,
        },
{
    match transaction.remote(Message { transaction: id, operation }) {
        Ok(()) => Ok(()),
        Err(_) => Err(PairEngineError::Aborted),
    }
}

/// What a waited-for peer operation means to the engine: an abort-class
/// operation aborts the attempt, any other is handed on.
pub fn classify_peer_operation(operation: Operation) -> (r: Result<Operation, PairEngineError>)
    ensures
        r == if operation.spec_is_abort() {
            Err::<Operation, PairEngineError>(PairEngineError::Aborted)
        } else {
            Ok::<Operation, PairEngineError>(operation)
        },
{
    if operation.is_abort() {
        Err(PairEngineError::Aborted)
    } else {
        Ok(operation)
    }
}

/// How long a wait for the peer may last.
#[derive(Debug, Clone, Copy, PartialEq, Eq, Structural)]
pub enum WaitBudget {
    /// The human-paced first round (the peer's CAPABILITY).
    Capability,
    /// Every later, machine-paced step.
    Message,
}

/// One effect the engine asks its driver to perform, in order.
#[derive(Debug, Clone, Copy)]
pub enum EngineAction {
    /// Wait (bounded) for the peer to read the register, then publish.
    PublishPaced(Message),
    /// Publish at once.
    Publish(Message),
    /// Remember the attempt's identifier and coarse state for status queries.
    RememberSession([u8; 16], StatusState),
    /// Wait for the peer's next operation of this attempt.
    WaitPeer(WaitBudget),
    /// Ask the operator for the DeskUnlock OOB decision.
    RequestOob,
    /// Ask the daemon for a durable commit-boundary action.
    RequestCommit(PairCommitPhase),
    /// Tell the GUI that trust is established.
    NotifyBonded,
    /// The attempt is over with this outcome.
    Finish(Result<(), PairEngineError>),
}

/// What the engine waits for.
#[derive(Debug, Clone, Copy)]
pub enum EngineStage {
    AwaitCapability,
    AwaitOob,
    AwaitConfirm,
    AwaitStage,
    AwaitPrepared,
    AwaitMarkCommit,
    AwaitCommitAck,
    AwaitCommitted,
    AwaitPromote,
    /// Waiting for the staging to be dropped before reporting this error.
    AwaitDiscard(PairEngineError),
    Done(Result<(), PairEngineError>),
}

/// What the driver reports back.
#[derive(Debug, Clone, Copy)]
pub enum EngineEvent {
    /// The outcome of a wait for the peer.
    Peer(Result<Operation, PairEngineError>),
    /// The operator's OOB decision.
    OobDecision(bool),
    /// The outcome of a durable commit-boundary action.
    CommitReply(bool),
}

/// The abstract state of one pairing attempt.
pub struct EngineView {
    pub id: [u8; 16],
    pub tx: TransactionView,
    pub stage: EngineStage,
}

/// The message of attempt `id` carrying `op`.
pub open spec fn msg(id: [u8; 16], op: Operation) -> Message {
    Message { transaction: id, operation: op }
}

/// Give up before any staging exists.
pub open spec fn finish(s: EngineView, tx: TransactionView, e: PairEngineError) -> (EngineView, Seq<EngineAction>) {
    (EngineView { tx, stage: EngineStage::Done(Err(e)), ..s }, seq![EngineAction::Finish(Err(e))])
}

/// A failed durable action: publish ERROR, abort locally, remember the
/// outcome and report the persistence failure.
pub open spec fn fail_persistence(s: EngineView) -> (EngineView, Seq<EngineAction>) {
    let tx = match spec_local(s.tx, LocalEvent::Abort(Operation::Error)) {
        Some(v) => v,
        None => s.tx,
    };
    (
        EngineView { tx, stage: EngineStage::Done(Err(PairEngineError::Persistence)), ..s },
        seq![
            EngineAction::Publish(msg(s.id, Operation::Error)),
            EngineAction::RememberSession(s.id, tx.status()),
            EngineAction::Finish(Err(PairEngineError::Persistence)),
        ],
    )
}

/// Abort with discard: publish ERROR, abort locally, remember the outcome
/// and ask the daemon to drop the staging before reporting `e`.
pub open spec fn abort_with_discard(s: EngineView, e: PairEngineError) -> (EngineView, Seq<EngineAction>) {
    let tx = match spec_local(s.tx, LocalEvent::Abort(Operation::Error)) {
        Some(v) => v,
        None => s.tx,
    };
    (
        EngineView { tx, stage: EngineStage::AwaitDiscard(e), ..s },
        seq![
            EngineAction::Publish(msg(s.id, Operation::Error)),
            EngineAction::RememberSession(s.id, tx.status()),
            EngineAction::RequestCommit(PairCommitPhase::Discard),
        ],
    )
}

/// The remote step of attempt `id` as a partial function.
pub open spec fn remote_step(tx: TransactionView, id: [u8; 16], op: Operation) -> Option<TransactionView> {
    match spec_remote(tx, msg(id, op)) {
        Ok(v) => Some(v),
        Err(_) => None,
    }
}

/// One step of the coordinator's pairing attempt.
pub open spec fn spec_engine_step(s: EngineView, event: EngineEvent) -> (EngineView, Seq<EngineAction>) {
    let unchanged = (s, Seq::<EngineAction>::empty());
    match (s.stage, event) {
        (EngineStage::AwaitCapability, EngineEvent::Peer(r)) => match r {
            Err(e) => finish(s, s.tx, e),
            Ok(op) => if op != Operation::Capability {
                finish(s, s.tx, PairEngineError::Aborted)
            } else {
                match remote_step(s.tx, s.id, op) {
                    None => finish(s, s.tx, PairEngineError::Aborted),
                    Some(t1) => match spec_local(t1, LocalEvent::Capability) {
                        None => finish(s, t1, PairEngineError::Aborted),
                        Some(t2) => match spec_local(t2, LocalEvent::VerifiedExchange) {
                            None => finish(s, t2, PairEngineError::Aborted),
                            Some(t3) => (
                                EngineView { tx: t3, stage: EngineStage::AwaitOob, ..s },
                                seq![EngineAction::RememberSession(s.id, t3.status()), EngineAction::RequestOob],
                            ),
                        },
                    },
                }
            },
        },
        (EngineStage::AwaitOob, EngineEvent::OobDecision(accepted)) => if !accepted {
            let tx = match spec_local(s.tx, LocalEvent::Abort(Operation::Reject)) {
                Some(v) => v,
                None => s.tx,
            };
            (
                EngineView { tx, stage: EngineStage::Done(Err(PairEngineError::Rejected)), ..s },
                seq![
                    EngineAction::Publish(msg(s.id, Operation::Reject)),
                    EngineAction::RememberSession(s.id, tx.status()),
                    EngineAction::Finish(Err(PairEngineError::Rejected)),
                ],
            )
        } else {
            match spec_local(s.tx, LocalEvent::Confirm) {
                None => finish(s, s.tx, PairEngineError::Aborted),
                Some(t) => (
                    EngineView { tx: t, stage: EngineStage::AwaitConfirm, ..s },
                    seq![EngineAction::PublishPaced(msg(s.id, Operation::Confirm)), EngineAction::WaitPeer(WaitBudget::Message)],
                ),
            }
        },
        (EngineStage::AwaitConfirm, EngineEvent::Peer(r)) => match r {
            Err(e) => finish(s, s.tx, e),
            Ok(op) => if op != Operation::Confirm {
                finish(s, s.tx, PairEngineError::Aborted)
            } else {
                match remote_step(s.tx, s.id, op) {
                    None => finish(s, s.tx, PairEngineError::Aborted),
                    Some(t) => (
                        EngineView { tx: t, stage: EngineStage::AwaitStage, ..s },
                        seq![EngineAction::RequestCommit(PairCommitPhase::Stage)],
                    ),
                }
            },
        },
        (EngineStage::AwaitStage, EngineEvent::CommitReply(ok)) => if !ok {
            fail_persistence(s)
        } else {
            match spec_local(s.tx, LocalEvent::Prepared) {
                None => finish(s, s.tx, PairEngineError::Aborted),
                Some(t) => (
                    EngineView { tx: t, stage: EngineStage::AwaitPrepared, ..s },
                    seq![EngineAction::WaitPeer(WaitBudget::Message)],
                ),
            }
        },
        (EngineStage::AwaitPrepared, EngineEvent::Peer(r)) => match r {
            Err(e) => abort_with_discard(s, e),
            Ok(op) => if op != Operation::Prepared {
                abort_with_discard(s, PairEngineError::Aborted)
            } else {
                match remote_step(s.tx, s.id, op) {
                    None => finish(s, s.tx, PairEngineError::Aborted),
                    Some(t) => (
                        EngineView { tx: t, stage: EngineStage::AwaitMarkCommit, ..s },
                        seq![
                            EngineAction::PublishPaced(msg(s.id, Operation::Prepared)),
                            EngineAction::RequestCommit(PairCommitPhase::MarkCommit),
                        ],
                    ),
                }
            },
        },
        (EngineStage::AwaitMarkCommit, EngineEvent::CommitReply(ok)) => if !ok {
            fail_persistence(s)
        } else {
            match spec_local(s.tx, LocalEvent::Commit) {
                None => finish(s, s.tx, PairEngineError::Aborted),
                Some(t) => (
                    EngineView { tx: t, stage: EngineStage::AwaitCommitAck, ..s },
                    seq![EngineAction::PublishPaced(msg(s.id, Operation::Commit)), EngineAction::WaitPeer(WaitBudget::Message)],
                ),
            }
        },
        (EngineStage::AwaitCommitAck, EngineEvent::Peer(r)) => match r {
            Err(e) => abort_with_discard(s, e),
            Ok(op) => if op != Operation::CommitAck {
                abort_with_discard(s, PairEngineError::Aborted)
            } else {
                match remote_step(s.tx, s.id, op) {
                    None => finish(s, s.tx, PairEngineError::Aborted),
                    Some(t) => (
                        EngineView { tx: t, stage: EngineStage::AwaitCommitted, ..s },
                        seq![
                            EngineAction::RememberSession(s.id, t.status()),
                            EngineAction::PublishPaced(msg(s.id, Operation::Committed)),
                            EngineAction::WaitPeer(WaitBudget::Message),
                        ],
                    ),
                }
            },
        },
        (EngineStage::AwaitCommitted, EngineEvent::Peer(r)) => if r == Ok::<Operation, PairEngineError>(Operation::Committed) {
            match remote_step(s.tx, s.id, Operation::Committed) {
                None => finish(s, s.tx, PairEngineError::Aborted),
                Some(t) => (
                    EngineView { tx: t, stage: EngineStage::AwaitPromote, ..s },
                    seq![EngineAction::RequestCommit(PairCommitPhase::Promote)],
                ),
            }
        } else {
            let tx = spec_local(s.tx, LocalEvent::Disconnected).unwrap();
            (
                EngineView { tx, stage: EngineStage::Done(Err(PairEngineError::Uncertain)), ..s },
                seq![
                    EngineAction::RememberSession(s.id, tx.status()),
                    EngineAction::Finish(Err(PairEngineError::Uncertain)),
                ],
            )
        },
        (EngineStage::AwaitPromote, EngineEvent::CommitReply(ok)) => if !ok {
            let tx = spec_local(s.tx, LocalEvent::Disconnected).unwrap();
            (
                EngineView { tx, stage: EngineStage::Done(Err(PairEngineError::Persistence)), ..s },
                seq![
                    EngineAction::RememberSession(s.id, tx.status()),
                    EngineAction::Finish(Err(PairEngineError::Persistence)),
                ],
            )
        } else {
            match spec_local(s.tx, LocalEvent::Committed) {
                None => finish(s, s.tx, PairEngineError::Uncertain),
                Some(t) => (
                    EngineView { tx: t, stage: EngineStage::Done(Ok(())), ..s },
                    seq![
                        EngineAction::RememberSession(s.id, t.status()),
                        EngineAction::NotifyBonded,
                        EngineAction::Finish(Ok(())),
                    ],
                ),
            }
        },
        (EngineStage::AwaitDiscard(e), EngineEvent::CommitReply(_)) => finish(s, s.tx, e),
        _ => unchanged,
    }
}


/// `getrandom::fill` on a 16-byte buffer: 16 random bytes from the
/// operating system, or `None` when the OS source failed. Nothing is
/// promised of the bytes.
#[verifier::external_body]
pub(crate) fn random_16_bytes() -> (r: Option<[u8; 16]>) {
    let mut id = [0u8; 16];
    match getrandom::fill(&mut id) {
        Ok(()) => Some(id),
        Err(_) => None,
    }
}

/// The coordinator's side of one pairing attempt, driven one event at a
/// time. The driver performs the returned actions in order and reports the
/// outcome of each wait or request back as the next event.
pub struct PairEngine {
    id: [u8; 16],
    transaction: Transaction,
    stage: EngineStage,
}

impl View for PairEngine {
    type V = EngineView;

    closed spec fn view(&self) -> EngineView {
        EngineView { id: self.id, tx: self.transaction@, stage: self.stage }
    }
}

/// The first actions of an attempt: offer CAPABILITY and wait for the peer's.
pub open spec fn spec_engine_start(id: [u8; 16]) -> (EngineView, Seq<EngineAction>) {
    (
        EngineView {
            id,
            tx: TransactionView::fresh(id@, Role::Coordinator),
            stage: EngineStage::AwaitCapability,
        },
        seq![EngineAction::PublishPaced(msg(id, Operation::Capability)), EngineAction::WaitPeer(WaitBudget::Capability)],
    )
}

impl PairEngine {
    /// Open attempt `id` as the coordinator.
    pub fn start(id: [u8; 16]) -> (r: (PairEngine, Vec<EngineAction>))
        ensures
            (r.0@, r.1@) == spec_engine_start(id),
    {
        let engine = PairEngine {
            id,
            transaction: Transaction::new(id, Role::Coordinator),
            stage: EngineStage::AwaitCapability,
        };
        let actions = vec![
            EngineAction::PublishPaced(Message { transaction: id, operation: Operation::Capability }),
            EngineAction::WaitPeer(WaitBudget::Capability),
        ];
        assert(actions@ =~= spec_engine_start(id).1);
        (engine, actions)
    }

    /// Open an attempt under a fresh random identifier; a failed random
    /// source aborts before anything is published.
    pub fn start_random() -> (r: Result<(PairEngine, Vec<EngineAction>), PairEngineError>)
        ensures
            match r {
                Ok((engine, actions)) => (engine@, actions@) == spec_engine_start(engine@.id),
                Err(e) => e == PairEngineError::Aborted,
            },
    {
        match random_16_bytes() {
            Some(id) => Ok(PairEngine::start(id)),
            None => Err(PairEngineError::Aborted),
        }
    }

    /// The attempt's transaction.
    pub fn transaction(&self) -> (t: &Transaction)
        ensures
            t@ == self@.tx,
    {
        &self.transaction
    }

    /// The attempt's identifier.
    pub fn id(&self) -> (id: [u8; 16])
        ensures
            id == self@.id,
    {
        self.id
    }

    /// The outcome, once the attempt is over.
    pub fn outcome(&self) -> (r: Option<Result<(), PairEngineError>>)
        ensures
            r == match self@.stage {
                EngineStage::Done(o) => Some(o),
                _ => None,
            },
    {
        match self.stage {
            EngineStage::Done(o) => Some(o),
            _ => None,
        }
    }

    fn finish(&mut self, e: PairEngineError) -> (r: Vec<EngineAction>)
        ensures
            (final(self)@, r@) == finish(old(self)@, old(self)@.tx, e),
    {
        self.stage = EngineStage::Done(Err(e));
        let r = vec![EngineAction::Finish(Err(e))];
        assert(r@ =~= seq![EngineAction::Finish(Err(e))]);
        r
    }

    fn fail_persistence(&mut self) -> (r: Vec<EngineAction>)
        ensures
            (final(self)@, r@) == fail_persistence(old(self)@),
    {
        let _ = self.transaction.local(LocalEvent::Abort(Operation::Error));
        self.stage = EngineStage::Done(Err(PairEngineError::Persistence));
        let r = vec![
            EngineAction::Publish(Message { transaction: self.id, operation: Operation::Error }),
            EngineAction::RememberSession(self.id, self.transaction.status()),
            EngineAction::Finish(Err(PairEngineError::Persistence)),
        ];
        assert(r@ =~= fail_persistence(old(self)@).1);
        r
    }

    fn abort_with_discard(&mut self, e: PairEngineError) -> (r: Vec<EngineAction>)
        ensures
            (final(self)@, r@) == abort_with_discard(old(self)@, e),
    {
        let _ = self.transaction.local(LocalEvent::Abort(Operation::Error));
        self.stage = EngineStage::AwaitDiscard(e);
        let r = vec![
            EngineAction::Publish(Message { transaction: self.id, operation: Operation::Error }),
            EngineAction::RememberSession(self.id, self.transaction.status()),
            EngineAction::RequestCommit(PairCommitPhase::Discard),
        ];
        assert(r@ =~= abort_with_discard(old(self)@, e).1);
        r
    }

    /// Advance the attempt by one reported event. An event the current stage
    /// does not wait for changes nothing and asks for nothing.
    #[verifier::rlimit(60)]
    pub fn step(&mut self, event: EngineEvent) -> (r: Vec<EngineAction>)
        ensures
            (final(self)@, r@) == spec_engine_step(old(self)@, event),
    {
        let id = self.id;
        match (self.stage, event) {
            (EngineStage::AwaitCapability, EngineEvent::Peer(r)) => match r {
                Err(e) => self.finish(e),
                Ok(op) => {
                    if op != Operation::Capability {
                        return self.finish(PairEngineError::Aborted);
                    }
                    if apply_remote(&mut self.transaction, id, op).is_err() {
                        return self.finish(PairEngineError::Aborted);
                    }
                    if self.transaction.local(LocalEvent::Capability).is_err() {
                        return self.finish(PairEngineError::Aborted);
                    }
                    if self.transaction.local(LocalEvent::VerifiedExchange).is_err() {
                        return self.finish(PairEngineError::Aborted);
                    }
                    self.stage = EngineStage::AwaitOob;
                    let r = vec![EngineAction::RememberSession(id, self.transaction.status()), EngineAction::RequestOob];
                    assert(r@ =~= spec_engine_step(old(self)@, event).1);
                    r
                },
            },
            (EngineStage::AwaitOob, EngineEvent::OobDecision(accepted)) => {
                if !accepted {
                    let _ = self.transaction.local(LocalEvent::Abort(Operation::Reject));
                    self.stage = EngineStage::Done(Err(PairEngineError::Rejected));
                    let r = vec![
                        EngineAction::Publish(Message { transaction: id, operation: Operation::Reject }),
                        EngineAction::RememberSession(id, self.transaction.status()),
                        EngineAction::Finish(Err(PairEngineError::Rejected)),
                    ];
                    assert(r@ =~= spec_engine_step(old(self)@, event).1);
                    return r;
                }
                if self.transaction.local(LocalEvent::Confirm).is_err() {
                    return self.finish(PairEngineError::Aborted);
                }
                self.stage = EngineStage::AwaitConfirm;
                let r = vec![
                    EngineAction::PublishPaced(Message { transaction: id, operation: Operation::Confirm }),
                    EngineAction::WaitPeer(WaitBudget::Message),
                ];
                assert(r@ =~= spec_engine_step(old(self)@, event).1);
                r
            },
            (EngineStage::AwaitConfirm, EngineEvent::Peer(r)) => match r {
                Err(e) => self.finish(e),
                Ok(op) => {
                    if op != Operation::Confirm {
                        return self.finish(PairEngineError::Aborted);
                    }
                    if apply_remote(&mut self.transaction, id, op).is_err() {
                        return self.finish(PairEngineError::Aborted);
                    }
                    self.stage = EngineStage::AwaitStage;
                    let r = vec![EngineAction::RequestCommit(PairCommitPhase::Stage)];
                    assert(r@ =~= spec_engine_step(old(self)@, event).1);
                    r
                },
            },
            (EngineStage::AwaitStage, EngineEvent::CommitReply(ok)) => {
                if !ok {
                    return self.fail_persistence();
                }
                if self.transaction.local(LocalEvent::Prepared).is_err() {
                    return self.finish(PairEngineError::Aborted);
                }
                self.stage = EngineStage::AwaitPrepared;
                let r = vec![EngineAction::WaitPeer(WaitBudget::Message)];
                assert(r@ =~= spec_engine_step(old(self)@, event).1);
                r
            },
            (EngineStage::AwaitPrepared, EngineEvent::Peer(r)) => match r {
                Err(e) => self.abort_with_discard(e),
                Ok(op) => {
                    if op != Operation::Prepared {
                        return self.abort_with_discard(PairEngineError::Aborted);
                    }
                    if apply_remote(&mut self.transaction, id, op).is_err() {
                        return self.finish(PairEngineError::Aborted);
                    }
                    self.stage = EngineStage::AwaitMarkCommit;
                    let r = vec![
                        EngineAction::PublishPaced(Message { transaction: id, operation: Operation::Prepared }),
                        EngineAction::RequestCommit(PairCommitPhase::MarkCommit),
                    ];
                    assert(r@ =~= spec_engine_step(old(self)@, event).1);
                    r
                },
            },
            (EngineStage::AwaitMarkCommit, EngineEvent::CommitReply(ok)) => {
                if !ok {
                    return self.fail_persistence();
                }
                if self.transaction.local(LocalEvent::Commit).is_err() {
                    return self.finish(PairEngineError::Aborted);
                }
                self.stage = EngineStage::AwaitCommitAck;
                let r = vec![
                    EngineAction::PublishPaced(Message { transaction: id, operation: Operation::Commit }),
                    EngineAction::WaitPeer(WaitBudget::Message),
                ];
                assert(r@ =~= spec_engine_step(old(self)@, event).1);
                r
            },
            (EngineStage::AwaitCommitAck, EngineEvent::Peer(r)) => match r {
                Err(e) => self.abort_with_discard(e),
                Ok(op) => {
                    if op != Operation::CommitAck {
                        return self.abort_with_discard(PairEngineError::Aborted);
                    }
                    if apply_remote(&mut self.transaction, id, op).is_err() {
                        return self.finish(PairEngineError::Aborted);
                    }
                    self.stage = EngineStage::AwaitCommitted;
                    let r = vec![
                        EngineAction::RememberSession(id, self.transaction.status()),
                        EngineAction::PublishPaced(Message { transaction: id, operation: Operation::Committed }),
                        EngineAction::WaitPeer(WaitBudget::Message),
                    ];
                    assert(r@ =~= spec_engine_step(old(self)@, event).1);
                    r
                },
            },
            (EngineStage::AwaitCommitted, EngineEvent::Peer(r)) => {
                let committed = match r {
                    Ok(Operation::Committed) => true,
                    _ => false,
                };
                if committed {
                    if apply_remote(&mut self.transaction, id, Operation::Committed).is_err() {
                        return self.finish(PairEngineError::Aborted);
                    }
                    self.stage = EngineStage::AwaitPromote;
                    let r = vec![EngineAction::RequestCommit(PairCommitPhase::Promote)];
                    assert(r@ =~= spec_engine_step(old(self)@, event).1);
                    r
                } else {
                    let _ = self.transaction.local(LocalEvent::Disconnected);
                    self.stage = EngineStage::Done(Err(PairEngineError::Uncertain));
                    let r = vec![
                        EngineAction::RememberSession(id, self.transaction.status()),
                        EngineAction::Finish(Err(PairEngineError::Uncertain)),
                    ];
                    assert(r@ =~= spec_engine_step(old(self)@, event).1);
                    r
                }
            },
            (EngineStage::AwaitPromote, EngineEvent::CommitReply(ok)) => {
                if !ok {
                    let _ = self.transaction.local(LocalEvent::Disconnected);
                    self.stage = EngineStage::Done(Err(PairEngineError::Persistence));
                    let r = vec![
                        EngineAction::RememberSession(id, self.transaction.status()),
                        EngineAction::Finish(Err(PairEngineError::Persistence)),
                    ];
                    assert(r@ =~= spec_engine_step(old(self)@, event).1);
                    return r;
                }
                if self.transaction.local(LocalEvent::Committed).is_err() {
                    return self.finish(PairEngineError::Uncertain);
                }
                self.stage = EngineStage::Done(Ok(()));
                let r = vec![
                    EngineAction::RememberSession(id, self.transaction.status()),
                    EngineAction::NotifyBonded,
                    EngineAction::Finish(Ok(())),
                ];
                assert(r@ =~= spec_engine_step(old(self)@, event).1);
                r
            },
            (EngineStage::AwaitDiscard(e), EngineEvent::CommitReply(_)) => self.finish(e),
            _ => Vec::new(),
        }
    }
}


/// What each stage of an attempt knows about its transaction: the attempt's
/// identifier and the coordinator role, the exact gate reached, and no
/// committed record before the peer's COMMITTED.
pub open spec fn engine_inv(s: EngineView) -> bool {
    let t = s.tx;
    let none = (false, false);
    &&& t.id == s.id@
    &&& t.role == Role::Coordinator
    &&& t.gates_hold()
    &&& match s.stage {
        EngineStage::AwaitCapability => t == TransactionView::fresh(s.id@, Role::Coordinator),
        EngineStage::AwaitOob => t.phase == Phase::OobPending && t.confirmed == none
            && t.prepared == none && t.committed == none,
        EngineStage::AwaitConfirm => t.phase == Phase::OobPending && t.confirmed == (true, false)
            && t.prepared == none && t.committed == none,
        EngineStage::AwaitStage => t.phase == Phase::Preparing && t.prepared == none
            && t.committed == none,
        EngineStage::AwaitPrepared => t.phase == Phase::Preparing && t.prepared == (true, false)
            && t.committed == none,
        EngineStage::AwaitMarkCommit => t.phase == Phase::Prepared && t.committed == none,
        EngineStage::AwaitCommitAck => t.phase == Phase::CommitPending && t.committed == none,
        EngineStage::AwaitCommitted => t.phase == Phase::Committed && t.committed == none,
        EngineStage::AwaitPromote => t.phase == Phase::Committed && t.committed == (false, true),
        EngineStage::AwaitDiscard(_) => true,
        EngineStage::Done(_) => true,
    }
}

/// A fresh attempt satisfies the stage invariant, and every step keeps it.
pub proof fn lemma_engine_inv(id: [u8; 16], s: EngineView, event: EngineEvent)
    ensures
        engine_inv(spec_engine_start(id).0),
        engine_inv(s) ==> engine_inv(spec_engine_step(s, event).0),
{
    if engine_inv(s) {
        let m = match event {
            EngineEvent::Peer(Ok(op)) => msg(s.id, op),
            _ => msg(s.id, Operation::Committed),
        };
        let t = s.tx;
        lemma_steps_keep_gates(t, LocalEvent::Abort(Operation::Error), m, StatusState::Unknown);
        lemma_steps_keep_gates(t, LocalEvent::Abort(Operation::Reject), m, StatusState::Unknown);
        lemma_steps_keep_gates(t, LocalEvent::Disconnected, m, StatusState::Unknown);
        lemma_steps_keep_gates(t, LocalEvent::Confirm, m, StatusState::Unknown);
        lemma_steps_keep_gates(t, LocalEvent::Prepared, m, StatusState::Unknown);
        lemma_steps_keep_gates(t, LocalEvent::Commit, m, StatusState::Unknown);
        lemma_steps_keep_gates(t, LocalEvent::Committed, m, StatusState::Unknown);
        match (s.stage, event) {
            (EngineStage::AwaitCapability, EngineEvent::Peer(Ok(op))) => {
                if op == Operation::Capability {
                    if let Some(t1) = remote_step(t, s.id, op) {
                        lemma_steps_keep_gates(t1, LocalEvent::Capability, m, StatusState::Unknown);
                        if let Some(t2) = spec_local(t1, LocalEvent::Capability) {
                            lemma_steps_keep_gates(t2, LocalEvent::VerifiedExchange, m, StatusState::Unknown);
                        }
                    }
                }
            },
            _ => {},
        }
    }
}

/// Trust is persisted only at the commit boundary: the engine asks to stage
/// only once both OOB confirmations are in, to mark the commit decision only
/// once both inactive records are staged, and to promote only after the
/// peer's COMMIT_ACK and COMMITTED, and then exactly once.
pub proof fn lemma_engine_commit_boundary(s: EngineView, event: EngineEvent)
    requires
        engine_inv(s),
    ensures
        ({
            let (n, acts) = spec_engine_step(s, event);
            &&& acts.contains(EngineAction::RequestCommit(PairCommitPhase::Stage)) ==> {
                &&& n.tx.phase == Phase::Preparing
                &&& both(n.tx.confirmed)
            }
            &&& acts.contains(EngineAction::RequestCommit(PairCommitPhase::MarkCommit)) ==> {
                &&& n.tx.phase == Phase::Prepared
                &&& both(n.tx.prepared)
            }
            &&& acts.contains(EngineAction::RequestCommit(PairCommitPhase::Promote)) ==> {
                &&& n.tx.phase == Phase::Committed
                &&& n.tx.committed == (false, true)
                &&& both(n.tx.prepared) && both(n.tx.confirmed)
                &&& n.stage is AwaitPromote
            }
            &&& s.stage is AwaitPromote ==> !acts.contains(
                EngineAction::RequestCommit(PairCommitPhase::Promote),
            )
        }),
{
    let (n, acts) = spec_engine_step(s, event);
    lemma_engine_inv(s.id, s, event);
    if acts.contains(EngineAction::RequestCommit(PairCommitPhase::Stage)) {
        let i = choose|i: int| 0 <= i < acts.len() && acts[i] == EngineAction::RequestCommit(PairCommitPhase::Stage);
        assert(n.stage is AwaitStage);
    }
    if acts.contains(EngineAction::RequestCommit(PairCommitPhase::MarkCommit)) {
        let i = choose|i: int| 0 <= i < acts.len() && acts[i] == EngineAction::RequestCommit(PairCommitPhase::MarkCommit);
        assert(n.stage is AwaitMarkCommit);
    }
    if acts.contains(EngineAction::RequestCommit(PairCommitPhase::Promote)) {
        let i = choose|i: int| 0 <= i < acts.len() && acts[i] == EngineAction::RequestCommit(PairCommitPhase::Promote);
        assert(n.stage is AwaitPromote);
    }
}

/// Success is reported only for a bonded transaction: the GUI is told that
/// trust exists, and the attempt finishes without error, only when both
/// peers' committed records are in; and a finished attempt asks for nothing
/// more.
pub proof fn lemma_engine_success_only_when_bonded(s: EngineView, event: EngineEvent)
    requires
        engine_inv(s),
    ensures
        ({
            let (n, acts) = spec_engine_step(s, event);
            &&& (acts.contains(EngineAction::NotifyBonded) || acts.contains(EngineAction::Finish(Ok(()))))
                ==> n.tx.phase == Phase::Bonded && both(n.tx.committed)
            &&& s.stage is Done ==> acts.len() == 0
        }),
{
    let (n, acts) = spec_engine_step(s, event);
    if acts.contains(EngineAction::NotifyBonded) {
        let i = choose|i: int| 0 <= i < acts.len() && acts[i] == EngineAction::NotifyBonded;
        assert(s.stage is AwaitPromote);
    }
    if acts.contains(EngineAction::Finish(Ok(()))) {
        let i = choose|i: int| 0 <= i < acts.len() && acts[i] == EngineAction::Finish(Ok(()));
        assert(s.stage is AwaitPromote);
    }
}


/// The operation the peer answers with what the engine waits for in
/// `stage`: our CAPABILITY before its CAPABILITY, our CONFIRM before its
/// CONFIRM, our COMMIT before its COMMIT_ACK, our COMMITTED before its
/// COMMITTED. (Its PREPARED is awaited before ours is published.)
pub open spec fn engine_request(stage: EngineStage) -> Option<Operation> {
    match stage {
        EngineStage::AwaitCapability => Some(Operation::Capability),
        EngineStage::AwaitConfirm => Some(Operation::Confirm),
        EngineStage::AwaitCommitAck => Some(Operation::Commit),
        EngineStage::AwaitCommitted => Some(Operation::Committed),
        _ => None,
    }
}

/// `acts` publishes `op` of attempt `id` before its `k`-th action.
pub open spec fn published_before(acts: Seq<EngineAction>, k: int, id: [u8; 16], op: Operation) -> bool {
    exists|j: int| 0 <= j < k && #[trigger] acts[j] == EngineAction::PublishPaced(msg(id, op))
}

/// The engine never waits for the peer without having asked: whenever an
/// attempt's actions (its start, or any step) end in a wait for the peer,
/// they have first published the operation the peer answers in the stage
/// waited in. The only wait without a publication is the one for the peer's
/// PREPARED, which comes before ours: ours is published before the commit
/// decision is made durable.
pub proof fn lemma_engine_asks_before_waiting(id: [u8; 16], s: EngineView, event: EngineEvent)
    ensures
        ({
            let (s1, acts) = spec_engine_start(id);
            forall|k: int| 0 <= k < acts.len() && #[trigger] acts[k] is WaitPeer
                ==> (engine_request(s1.stage) matches Some(op) && published_before(acts, k, id, op))
        }),
        ({
            let (s2, acts) = spec_engine_step(s, event);
            forall|k: int| 0 <= k < acts.len() && #[trigger] acts[k] is WaitPeer
                ==> (s2.stage == EngineStage::AwaitPrepared || (engine_request(s2.stage) matches Some(op)
                && published_before(acts, k, s.id, op)))
        }),
        ({
            let (s2, acts) = spec_engine_step(s, event);
            forall|k: int| 0 <= k < acts.len() && #[trigger] acts[k] == EngineAction::RequestCommit(
                PairCommitPhase::MarkCommit,
            ) ==> published_before(acts, k, s.id, Operation::Prepared)
        }),
{
    let (s1, a1) = spec_engine_start(id);
    assert(a1[0] == EngineAction::PublishPaced(msg(id, Operation::Capability)));
    let (s2, acts) = spec_engine_step(s, event);
    if acts.len() > 0 {
        let a0 = acts[0];
    }
    if acts.len() > 1 {
        let a1 = acts[1];
    }
}

} // verus!
