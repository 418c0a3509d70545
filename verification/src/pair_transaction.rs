//! Versioned, secret-free pairing transaction state machine.
//!
//! This is the application commit protocol. Callers bind a transaction to one
//! authenticated connection and durably stage both bonds before COMMIT. A lost
//! connection after COMMIT is *uncertain*, never an implicit rollback.
use vstd::prelude::*;
use crate::be_bytes::{be64, from_be64, u64_from_be_at, u64_to_be, lemma_be64_roundtrip, lemma_from_be64_roundtrip};

verus! {

broadcast use vstd::array::group_array_axioms;

/// Pairing transaction protocol version (independent of unlock frames).
pub const VERSION: u8 = 2;
/// One version byte, a 128-bit transaction identifier, and one operation byte.
pub const MESSAGE_LEN: usize = 18;
/// Fixed-size authenticated status exchange: version, transaction, nonce,
/// operation and state.
pub const STATUS_MESSAGE_LEN: usize = 27;
/// Canonical neutral state carried by a status query.
pub const STATUS_QUERY_STATE: u8 = 0;
/// Length of the serialized recovery metadata of a [`Transaction`].
pub const RECORD_LEN: usize = 27;

/// Messages carried inside the authenticated pairing connection.
#[derive(Debug, Clone, Copy, PartialEq, Eq, Structural)]
pub enum Operation {
    /// Offer/accept coordinated pairing version 2.
    Capability,
    /// Explicit OOB confirmation; never generated automatically.
    Confirm,
    /// Explicit mismatch decision.
    Reject,
    /// Explicit cancellation before the commit decision.
    Cancel,
    /// Deadline expired before the commit decision.
    Timeout,
    /// The sender has durably staged its inactive bond.
    Prepared,
    /// Coordinator has durably recorded the commit decision.
    Commit,
    /// Participant has durably recorded that same decision.
    CommitAck,
    /// Sender has verified its committed local bond.
    Committed,
    /// Query the durable outcome after reconnecting.
    Status,
    /// Failure; after COMMIT it cannot imply rollback.
    Error,
    /// Query the durable outcome after reconnecting.
    StatusQuery,
    /// Reply to a status query; the payload is a [`StatusState`].
    StatusResponse,
    /// Day-2 revocation: the transaction field carries the sender's peer id.
    Revoke,
}

impl Operation {
    /// The operation's wire tag.
    pub open spec fn spec_code(self) -> u8 {
        match self {
            Operation::Capability => 1,
            Operation::Confirm => 2,
            Operation::Reject => 3,
            Operation::Cancel => 4,
            Operation::Timeout => 5,
            Operation::Prepared => 6,
            Operation::Commit => 7,
            Operation::CommitAck => 8,
            Operation::Committed => 9,
            Operation::Status => 10,
            Operation::Error => 11,
            Operation::StatusQuery => 12,
            Operation::StatusResponse => 13,
            Operation::Revoke => 14,
        }
    }

    /// The operation that a wire tag names, if any: tags 1 to 14.
    pub open spec fn spec_from_code(code: u8) -> Option<Operation> {
        if 1 <= code <= 14 {
            Some(choose|op: Operation| op.spec_code() == code)
        } else {
            None
        }
    }

    /// An abort-class operation: it ends an attempt before trust exists.
    pub open spec fn spec_is_abort(self) -> bool {
        self == Operation::Reject || self == Operation::Cancel || self == Operation::Timeout || self
            == Operation::Error
    }

    /// The operation's wire tag.
    #[verifier::when_used_as_spec(spec_code)]
    pub fn code(self) -> (c: u8)
        ensures
            c == self.spec_code(),
    {
        match self {
            Operation::Capability => 1,
            Operation::Confirm => 2,
            Operation::Reject => 3,
            Operation::Cancel => 4,
            Operation::Timeout => 5,
            Operation::Prepared => 6,
            Operation::Commit => 7,
            Operation::CommitAck => 8,
            Operation::Committed => 9,
            Operation::Status => 10,
            Operation::Error => 11,
            Operation::StatusQuery => 12,
            Operation::StatusResponse => 13,
            Operation::Revoke => 14,
        }
    }

    /// Decode a wire tag; unknown tags are refused.
    pub fn from_code(code: u8) -> (r: Option<Operation>)
        ensures
            match r {
                Some(op) => op.spec_code() == code,
                None => !(1 <= code <= 14),
            },
            r == Operation::spec_from_code(code),
    {
        let r = match code {
            1 => Some(Operation::Capability),
            2 => Some(Operation::Confirm),
            3 => Some(Operation::Reject),
            4 => Some(Operation::Cancel),
            5 => Some(Operation::Timeout),
            6 => Some(Operation::Prepared),
            7 => Some(Operation::Commit),
            8 => Some(Operation::CommitAck),
            9 => Some(Operation::Committed),
            10 => Some(Operation::Status),
            11 => Some(Operation::Error),
            12 => Some(Operation::StatusQuery),
            13 => Some(Operation::StatusResponse),
            14 => Some(Operation::Revoke),
            _ => None,
        };
        proof {
            if let Some(op) = r {
                lemma_operation_code_injective(op);
            }
        }
        r
    }

    /// Whether the operation is one of the four abort-class operations.
    #[verifier::when_used_as_spec(spec_is_abort)]
    pub fn is_abort(self) -> (b: bool)
        ensures
            b == self.spec_is_abort(),
    {
        match self {
            Operation::Reject | Operation::Cancel | Operation::Timeout | Operation::Error => true,
            _ => false,
        }
    }
}

/// Distinct operations have distinct wire tags, each within 1 to 14.
pub proof fn lemma_operation_code_injective(op: Operation)
    ensures
        1 <= op.spec_code() <= 14,
        forall|other: Operation| #[trigger] other.spec_code() == op.spec_code() ==> other == op,
        Operation::spec_from_code(op.spec_code()) == Some(op),
{
}

/// Bounded wire message. Contains no key material or identifying peer data.
#[derive(Debug, Clone, Copy, PartialEq, Eq)]
pub struct Message {
    /// Fresh random identifier, bound to this authenticated pairing attempt.
    pub transaction: [u8; 16],
    /// Transaction operation.
    pub operation: Operation,
}

/// Invalid input never advances the transaction.
#[derive(Debug, Clone, Copy, PartialEq, Eq, Structural)]
pub enum TransactionError {
    /// Missing/unsupported version or malformed operation/length.
    Incompatible,
    /// A message belongs to another attempt.
    WrongTransaction,
    /// A prerequisite, role, or ordering requirement was not met.
    InvalidTransition,
}

impl TransactionError {
    /// Human-readable description of the error.
    pub open spec fn spec_message(self) -> Seq<char> {
        match self {
            TransactionError::Incompatible => "incompatible pairing protocol"@,
            TransactionError::WrongTransaction => "different pairing transaction"@,
            TransactionError::InvalidTransition => "invalid pairing transition"@,
        }
    }

    /// Human-readable description of the error.
    pub fn message(&self) -> (s: &'static str)
        ensures
            s@ == self.spec_message(),
    {
        match self {
            TransactionError::Incompatible => "incompatible pairing protocol",
            TransactionError::WrongTransaction => "different pairing transaction",
            TransactionError::InvalidTransition => "invalid pairing transition",
        }
    }
}

impl Message {
    /// The 18 wire bytes: version, transaction identifier, operation tag.
    pub open spec fn spec_encode(self) -> Seq<u8> {
        seq![VERSION] + self.transaction@ + seq![self.operation.spec_code()]
    }

    /// The byte strings that are the encoding of some message.
    pub open spec fn spec_wire_ok(bytes: Seq<u8>) -> bool {
        &&& bytes.len() == MESSAGE_LEN
        &&& bytes[0] == VERSION
        &&& 1 <= bytes[17] <= 14
    }

    /// Fixed size encoding, fitting the default ATT payload.
    pub fn encode(self) -> (r: [u8; MESSAGE_LEN])
        ensures
            r@ == self.spec_encode(),
    {
        let t = self.transaction;
        let r = [
            VERSION,
            t[0],
            t[1],
            t[2],
            t[3],
            t[4],
            t[5],
            t[6],
            t[7],
            t[8],
            t[9],
            t[10],
            t[11],
            t[12],
            t[13],
            t[14],
            t[15],
            self.operation.code(),
        ];
        assert(r@ =~= self.spec_encode());
        r
    }

    /// Strict decoding: reject legacy, truncated, extra and unknown input.
    pub fn decode(bytes: &[u8]) -> (r: Result<Self, TransactionError>)
        ensures
            r is Ok <==> Message::spec_wire_ok(bytes@),
            match r {
                Ok(m) => m.spec_encode() == bytes@,
                Err(e) => e == TransactionError::Incompatible,
            },
    {
        if bytes.len() != MESSAGE_LEN || bytes[0] != VERSION {
            return Err(TransactionError::Incompatible);
        }
        let operation = match Operation::from_code(bytes[17]) {
            Some(op) => op,
            None => return Err(TransactionError::Incompatible),
        };
        let transaction = [
            bytes[1],
            bytes[2],
            bytes[3],
            bytes[4],
            bytes[5],
            bytes[6],
            bytes[7],
            bytes[8],
            bytes[9],
            bytes[10],
            bytes[11],
            bytes[12],
            bytes[13],
            bytes[14],
            bytes[15],
            bytes[16],
        ];
        let m = Message { transaction, operation };
        assert(m.spec_encode() =~= bytes@);
        Ok(m)
    }
}

/// Decoding the encoding of a message gives that message back: the encoding
/// is always accepted by the strict decoder, and no other message shares it.
pub proof fn lemma_message_roundtrip(m: Message)
    ensures
        Message::spec_wire_ok(m.spec_encode()),
        forall|other: Message| #[trigger] other.spec_encode() == m.spec_encode() ==> other == m,
{
    lemma_operation_code_injective(m.operation);
    assert forall|other: Message| #[trigger] other.spec_encode() == m.spec_encode() implies other
        == m by {
        assert(other.spec_encode()[17] == m.spec_encode()[17]);
        assert(other.transaction@ =~= other.spec_encode().subrange(1, 17));
        assert(m.transaction@ =~= m.spec_encode().subrange(1, 17));
        lemma_operation_code_injective(other.operation);
        assert(other.transaction@ =~= m.transaction@);
        assert(other.transaction == m.transaction);
        assert(other.operation == m.operation);
    }
}


/// Coarse, secret-free outcome exposed during authenticated recovery.
#[derive(Debug, Clone, Copy, PartialEq, Eq, Structural)]
pub enum StatusState {
    /// No durable commit decision exists.
    PreCommit,
    /// A commit decision exists but bilateral completion is not proven.
    CommitPending,
    /// The local commit decision is durable.
    Committed,
    /// Both sides verified the committed bond.
    Bonded,
    /// The transaction was certainly aborted before commit.
    Aborted,
    /// The peer cannot determine its durable outcome.
    Unknown,
}

impl StatusState {
    /// The state's wire tag.
    pub open spec fn spec_code(self) -> u8 {
        match self {
            StatusState::PreCommit => 1,
            StatusState::CommitPending => 2,
            StatusState::Committed => 3,
            StatusState::Bonded => 4,
            StatusState::Aborted => 5,
            StatusState::Unknown => 6,
        }
    }

    /// The state's wire tag.
    #[verifier::when_used_as_spec(spec_code)]
    pub fn code(self) -> (c: u8)
        ensures
            c == self.spec_code(),
    {
        match self {
            StatusState::PreCommit => 1,
            StatusState::CommitPending => 2,
            StatusState::Committed => 3,
            StatusState::Bonded => 4,
            StatusState::Aborted => 5,
            StatusState::Unknown => 6,
        }
    }

    /// Decode a wire tag; only tags 1 to 6 name a state.
    fn decode(value: u8) -> (r: Result<Self, TransactionError>)
        ensures
            match r {
                Ok(s) => s.spec_code() == value,
                Err(e) => e == TransactionError::Incompatible && !(1 <= value <= 6),
            },
    {
        match value {
            1 => Ok(StatusState::PreCommit),
            2 => Ok(StatusState::CommitPending),
            3 => Ok(StatusState::Committed),
            4 => Ok(StatusState::Bonded),
            5 => Ok(StatusState::Aborted),
            6 => Ok(StatusState::Unknown),
            _ => Err(TransactionError::Incompatible),
        }
    }
}

/// Authenticated, nonce-bound status query/response. The nonce prevents a
/// response captured in an earlier reconnect from being accepted as current.
#[derive(Debug, Clone, Copy, PartialEq, Eq)]
pub struct StatusMessage {
    /// Transaction identifier bound to the authenticated session.
    pub transaction: [u8; 16],
    /// Fresh query nonce echoed by the response.
    pub nonce: u64,
    /// None for a query, Some for a response.
    pub state: Option<StatusState>,
}

impl StatusMessage {
    /// The 27 wire bytes: version, transaction, big-endian nonce, operation
    /// tag (status query or status response) and state tag (0 for a query).
    pub open spec fn spec_encode(self) -> Seq<u8> {
        seq![VERSION] + self.transaction@ + be64(self.nonce) + seq![
            match self.state {
                Some(_) => Operation::StatusResponse.spec_code(),
                None => Operation::StatusQuery.spec_code(),
            },
            match self.state {
                Some(state) => state.spec_code(),
                None => STATUS_QUERY_STATE,
            },
        ]
    }

    /// The byte strings that are the encoding of some status message.
    pub open spec fn spec_wire_ok(bytes: Seq<u8>) -> bool {
        &&& bytes.len() == STATUS_MESSAGE_LEN
        &&& bytes[0] == VERSION
        &&& {
            ||| (bytes[25] == 12 && bytes[26] == STATUS_QUERY_STATE)
            ||| (bytes[25] == 13 && 1 <= bytes[26] <= 6)
        }
    }

    /// The encoded response to the status query `query`, in state `state`.
    pub open spec fn response_bytes(query: Seq<u8>, state: StatusState) -> Seq<u8> {
        query.subrange(0, 25) + seq![Operation::StatusResponse.spec_code(), state.spec_code()]
    }

    /// Build a status query.
    pub fn query(transaction: [u8; 16], nonce: u64) -> (r: Self)
        ensures
            r.transaction == transaction,
            r.nonce == nonce,
            r.state == None::<StatusState>,
    {
        StatusMessage { transaction, nonce, state: None }
    }

    /// Build a status response.
    pub fn response(transaction: [u8; 16], nonce: u64, state: StatusState) -> (r: Self)
        ensures
            r.transaction == transaction,
            r.nonce == nonce,
            r.state == Some(state),
    {
        StatusMessage { transaction, nonce, state: Some(state) }
    }

    /// Encode the strict status wire format.
    pub fn encode(self) -> (r: [u8; STATUS_MESSAGE_LEN])
        ensures
            r@ == self.spec_encode(),
    {
        let t = self.transaction;
        let n = u64_to_be(self.nonce);
        let op = if self.state.is_some() {
            Operation::StatusResponse.code()
        } else {
            Operation::StatusQuery.code()
        };
        let st = match self.state {
            Some(state) => state.code(),
            None => STATUS_QUERY_STATE,
        };
        let r = [
            VERSION,
            t[0],
            t[1],
            t[2],
            t[3],
            t[4],
            t[5],
            t[6],
            t[7],
            t[8],
            t[9],
            t[10],
            t[11],
            t[12],
            t[13],
            t[14],
            t[15],
            n[0],
            n[1],
            n[2],
            n[3],
            n[4],
            n[5],
            n[6],
            n[7],
            op,
            st,
        ];
        assert(r@ =~= self.spec_encode());
        r
    }

    /// Decode and validate the strict status wire format.
    pub fn decode(bytes: &[u8]) -> (r: Result<Self, TransactionError>)
        ensures
            r is Ok <==> StatusMessage::spec_wire_ok(bytes@),
            match r {
                Ok(m) => m.spec_encode() == bytes@,
                Err(e) => e == TransactionError::Incompatible,
            },
    {
        if bytes.len() != STATUS_MESSAGE_LEN || bytes[0] != VERSION {
            return Err(TransactionError::Incompatible);
        }
        let transaction = [
            bytes[1],
            bytes[2],
            bytes[3],
            bytes[4],
            bytes[5],
            bytes[6],
            bytes[7],
            bytes[8],
            bytes[9],
            bytes[10],
            bytes[11],
            bytes[12],
            bytes[13],
            bytes[14],
            bytes[15],
            bytes[16],
        ];
        let nonce = u64_from_be_at(bytes, 17);
        proof {
            lemma_from_be64_roundtrip(bytes@.subrange(17, 25));
        }
        let op = bytes[25];
        let st = bytes[26];
        let r = if op == 12 && st == STATUS_QUERY_STATE {
            Ok(StatusMessage::query(transaction, nonce))
        } else if (op == 12) || (op == 13 && st == STATUS_QUERY_STATE) {
            Err(TransactionError::Incompatible)
        } else if op == 13 {
            match StatusState::decode(st) {
                Ok(state) => Ok(StatusMessage::response(transaction, nonce, state)),
                Err(e) => Err(e),
            }
        } else {
            Err(TransactionError::Incompatible)
        };
        proof {
            if let Ok(m) = r {
                assert(m.spec_encode() =~= bytes@);
            }
        }
        r
    }
}

/// Decoding the encoding of a status message gives it back: the encoding is
/// accepted, and no other status message shares it.
pub proof fn lemma_status_message_roundtrip(m: StatusMessage)
    ensures
        StatusMessage::spec_wire_ok(m.spec_encode()),
        forall|other: StatusMessage| #[trigger] other.spec_encode() == m.spec_encode() ==> other
            == m,
{
    assert forall|other: StatusMessage| #[trigger] other.spec_encode() == m.spec_encode() implies other
        == m by {
        let (a, b) = (other.spec_encode(), m.spec_encode());
        assert(other.transaction@ =~= a.subrange(1, 17));
        assert(m.transaction@ =~= b.subrange(1, 17));
        assert(other.transaction@ =~= m.transaction@);
        assert(be64(other.nonce) =~= a.subrange(17, 25));
        assert(be64(m.nonce) =~= b.subrange(17, 25));
        lemma_be64_roundtrip(other.nonce);
        lemma_be64_roundtrip(m.nonce);
        assert(be64(other.nonce) == be64(m.nonce));
        assert(other.nonce == m.nonce);
        assert(other.transaction == m.transaction);
        assert(a[25] == b[25] && a[26] == b[26]);
        assert(other.state == m.state);
    }
}


/// Persistent transaction phase. Only `Bonded` authorizes a success UI.
#[derive(Debug, Clone, Copy, PartialEq, Eq, Structural)]
pub enum Phase {
    /// Awaiting capability negotiation on a verified LESC connection.
    Negotiating,
    /// Keys exchanged; two independent explicit confirmations are required.
    OobPending,
    /// Both confirmations received; both inactive records must be durable.
    Preparing,
    /// Both inactive records are durable; coordinator may decide COMMIT.
    Prepared,
    /// Commit decision exists; cancellation can no longer claim rollback.
    CommitPending,
    /// Decision durably acknowledged; waiting for both verified records.
    Committed,
    /// Both peers explicitly reported verified committed records.
    Bonded,
    /// Aborted before any commit decision; inactive staging may be removed.
    Aborted(Operation),
    /// Outcome must be reconciled from durable state, never guessed.
    Uncertain,
}

/// Local role. Only the desktop coordinator may initiate COMMIT.
#[derive(Debug, Clone, Copy, PartialEq, Eq, Structural)]
pub enum Role {
    /// Desktop drives the commit decision.
    Coordinator,
    /// Phone acknowledges the durable decision.
    Participant,
}

/// Security prerequisites are asserted by the transport, not wire messages.
/// Keeping them out of `Operation` prevents a peer from asserting our LESC,
/// key-exchange or local persistence state for us.
#[derive(Debug, Clone, Copy, PartialEq, Eq, Structural)]
pub enum LocalEvent {
    /// Capability accepted after verified LESC and completed key exchange.
    VerifiedExchange,
    /// Local protocol capability offer.
    Capability,
    /// Explicit local OOB match decision.
    Confirm,
    /// Inactive bond was durably persisted and read back locally.
    Prepared,
    /// Local commit decision was durably persisted.
    Commit,
    /// Participant durably recorded the coordinator's decision.
    CommitAck,
    /// Committed local bond was durably persisted and read back.
    Committed,
    /// Link disappeared. After the commit decision the result is uncertain.
    Disconnected,
    /// Explicit local abort or local failure.
    Abort(Operation),
}

/// Two per-side facts: side 0 is the local peer, side 1 the remote peer.
pub type Sides = (bool, bool);

/// Both sides reported the fact.
pub open spec fn both(p: Sides) -> bool {
    p.0 && p.1
}

/// The fact reported by `side`.
pub open spec fn side_of(p: Sides, side: int) -> bool {
    if side == 0 {
        p.0
    } else {
        p.1
    }
}

/// The pair with `side`'s fact recorded.
pub open spec fn with_side(p: Sides, side: int) -> Sides {
    if side == 0 {
        (true, p.1)
    } else {
        (p.0, true)
    }
}

/// How far the protocol has gone: each phase passes the gates of the phases
/// before it. Aborted and uncertain transactions claim no gate.
pub open spec fn gate_level(phase: Phase) -> int {
    match phase {
        Phase::Negotiating => 0,
        Phase::OobPending => 1,
        Phase::Preparing => 2,
        Phase::Prepared => 3,
        Phase::CommitPending => 4,
        Phase::Committed => 5,
        Phase::Bonded => 6,
        Phase::Aborted(_) => 0,
        Phase::Uncertain => 0,
    }
}

/// The abstract state of a [`Transaction`].
pub struct TransactionView {
    pub id: Seq<u8>,
    pub role: Role,
    pub phase: Phase,
    pub capabilities: Sides,
    pub confirmed: Sides,
    pub prepared: Sides,
    pub committed: Sides,
}

impl TransactionView {
    pub open spec fn with_phase(self, phase: Phase) -> TransactionView {
        TransactionView { phase, ..self }
    }

    /// Every gate of the phase was passed by both sides: capabilities before
    /// the OOB step, both confirmations before preparing, both staged records
    /// before the commit decision, and both committed records for `Bonded`.
    pub open spec fn gates_hold(self) -> bool {
        &&& gate_level(self.phase) >= 1 ==> both(self.capabilities)
        &&& gate_level(self.phase) >= 2 ==> both(self.confirmed)
        &&& gate_level(self.phase) >= 3 ==> both(self.prepared)
        &&& gate_level(self.phase) >= 6 ==> both(self.committed)
    }

    /// The consistency a restored record must have.
    pub open spec fn valid(self) -> bool {
        let all_before_commit = both(self.capabilities) && both(self.confirmed) && both(
            self.prepared,
        );
        match self.phase {
            Phase::Negotiating => !self.capabilities.0 || self.capabilities.1,
            Phase::OobPending => both(self.capabilities) && !both(self.confirmed),
            Phase::Preparing => both(self.capabilities) && both(self.confirmed) && !both(
                self.prepared,
            ),
            Phase::Prepared => all_before_commit && self.committed == (false, false),
            Phase::CommitPending => all_before_commit && self.committed == (false, false),
            Phase::Committed => all_before_commit && !both(self.committed),
            Phase::Bonded => all_before_commit && both(self.committed),
            Phase::Aborted(_) => true,
            Phase::Uncertain => true,
        }
    }

    /// Coarse state safe to expose over the authenticated recovery channel.
    pub open spec fn status(self) -> StatusState {
        match self.phase {
            Phase::Negotiating | Phase::OobPending | Phase::Preparing | Phase::Prepared => StatusState::PreCommit,
            Phase::CommitPending => StatusState::CommitPending,
            Phase::Uncertain => StatusState::Unknown,
            Phase::Committed => StatusState::Committed,
            Phase::Bonded => StatusState::Bonded,
            Phase::Aborted(_) => StatusState::Aborted,
        }
    }

    /// A fresh attempt.
    pub open spec fn fresh(id: Seq<u8>, role: Role) -> TransactionView {
        TransactionView {
            id,
            role,
            phase: Phase::Negotiating,
            capabilities: (false, false),
            confirmed: (false, false),
            prepared: (false, false),
            committed: (false, false),
        }
    }
}

/// Record `side`'s OOB confirmation; both confirmations move to `Preparing`.
pub open spec fn spec_confirm(t: TransactionView, side: int) -> Option<TransactionView> {
    if t.phase == Phase::OobPending && !side_of(t.confirmed, side) {
        let c = with_side(t.confirmed, side);
        Some(
            TransactionView {
                confirmed: c,
                phase: if both(c) {
                    Phase::Preparing
                } else {
                    Phase::OobPending
                },
                ..t
            },
        )
    } else {
        None
    }
}

/// Record `side`'s durable staging; both move to `Prepared`.
pub open spec fn spec_prepare(t: TransactionView, side: int) -> Option<TransactionView> {
    if t.phase == Phase::Preparing && !side_of(t.prepared, side) {
        let p = with_side(t.prepared, side);
        Some(
            TransactionView {
                prepared: p,
                phase: if both(p) {
                    Phase::Prepared
                } else {
                    Phase::Preparing
                },
                ..t
            },
        )
    } else {
        None
    }
}

/// Record `side`'s verified committed record; both move to `Bonded`.
pub open spec fn spec_record_committed(t: TransactionView, side: int) -> Option<TransactionView> {
    if t.phase == Phase::Committed && !side_of(t.committed, side) {
        let c = with_side(t.committed, side);
        Some(
            TransactionView {
                committed: c,
                phase: if both(c) {
                    Phase::Bonded
                } else {
                    Phase::Committed
                },
                ..t
            },
        )
    } else {
        None
    }
}

/// A lost link: uncertain once a commit decision exists, final states kept,
/// a cancellation before that.
pub open spec fn spec_disconnect(t: TransactionView) -> TransactionView {
    t.with_phase(
        match t.phase {
            Phase::CommitPending | Phase::Committed | Phase::Uncertain => Phase::Uncertain,
            Phase::Bonded | Phase::Aborted(_) => t.phase,
            _ => Phase::Aborted(Operation::Cancel),
        },
    )
}

/// An abort-class operation; refused for non-abort operations and for final
/// states. After the commit decision it cannot claim rollback.
pub open spec fn spec_abort(t: TransactionView, op: Operation) -> Option<TransactionView> {
    if !op.spec_is_abort() || t.phase == Phase::Bonded || t.phase is Aborted {
        None
    } else {
        Some(
            t.with_phase(
                match t.phase {
                    Phase::CommitPending | Phase::Committed | Phase::Uncertain => Phase::Uncertain,
                    _ => Phase::Aborted(op),
                },
            ),
        )
    }
}

/// Effect of a local fact; `None` is an invalid transition.
pub open spec fn spec_local(t: TransactionView, event: LocalEvent) -> Option<TransactionView> {
    match event {
        LocalEvent::Capability => if t.phase == Phase::Negotiating && !t.capabilities.0 {
            Some(TransactionView { capabilities: (true, t.capabilities.1), ..t })
        } else {
            None
        },
        LocalEvent::VerifiedExchange => if t.phase == Phase::Negotiating && both(t.capabilities) {
            Some(t.with_phase(Phase::OobPending))
        } else {
            None
        },
        LocalEvent::Confirm => spec_confirm(t, 0),
        LocalEvent::Prepared => spec_prepare(t, 0),
        LocalEvent::Commit => if t.role == Role::Coordinator && t.phase == Phase::Prepared {
            Some(t.with_phase(Phase::CommitPending))
        } else {
            None
        },
        LocalEvent::CommitAck => if t.role == Role::Participant && t.phase == Phase::CommitPending {
            Some(t.with_phase(Phase::Committed))
        } else {
            None
        },
        LocalEvent::Committed => spec_record_committed(t, 0),
        LocalEvent::Disconnected => Some(spec_disconnect(t)),
        LocalEvent::Abort(op) => spec_abort(t, op),
    }
}

/// Effect of a remote operation on an attempt with the right identifier;
/// `None` is an invalid transition.
pub open spec fn spec_remote_op(t: TransactionView, op: Operation) -> Option<TransactionView> {
    match op {
        Operation::Capability => if t.phase == Phase::Negotiating && !t.capabilities.1 {
            Some(TransactionView { capabilities: (t.capabilities.0, true), ..t })
        } else {
            None
        },
        Operation::Confirm => spec_confirm(t, 1),
        Operation::Prepared => spec_prepare(t, 1),
        Operation::Commit => if t.role == Role::Participant && t.phase == Phase::Prepared {
            Some(t.with_phase(Phase::CommitPending))
        } else {
            None
        },
        Operation::CommitAck => if t.role == Role::Coordinator && t.phase == Phase::CommitPending {
            Some(t.with_phase(Phase::Committed))
        } else {
            None
        },
        Operation::Committed => spec_record_committed(t, 1),
        Operation::Status | Operation::StatusQuery | Operation::StatusResponse => Some(t),
        Operation::Reject | Operation::Cancel | Operation::Timeout | Operation::Error => spec_abort(
            t,
            op,
        ),
        Operation::Revoke => None,
    }
}

/// Effect of a remote message: a foreign identifier is refused first.
pub open spec fn spec_remote(t: TransactionView, message: Message) -> Result<
    TransactionView,
    TransactionError,
> {
    if message.transaction@ != t.id {
        Err(TransactionError::WrongTransaction)
    } else {
        match spec_remote_op(t, message.operation) {
            Some(v) => Ok(v),
            None => Err(TransactionError::InvalidTransition),
        }
    }
}

/// Reconcile a validated peer status without downgrading a commit.
pub open spec fn spec_reconcile(t: TransactionView, remote: StatusState) -> TransactionView {
    let bonded = TransactionView { committed: (true, true), phase: Phase::Bonded, ..t };
    match (t.status(), remote) {
        (StatusState::Unknown, _) => t.with_phase(Phase::Uncertain),
        (_, StatusState::Unknown) => t.with_phase(Phase::Uncertain),
        (StatusState::PreCommit, StatusState::Aborted) => t.with_phase(
            Phase::Aborted(Operation::Error),
        ),
        (StatusState::PreCommit, StatusState::PreCommit) => t,
        (StatusState::CommitPending, StatusState::Committed) => t.with_phase(Phase::Committed),
        (StatusState::CommitPending, StatusState::Bonded) => bonded,
        (StatusState::Committed, StatusState::CommitPending) => t,
        (StatusState::Committed, StatusState::Committed) => bonded,
        (StatusState::Committed, StatusState::Bonded) => bonded,
        (StatusState::Bonded, StatusState::Committed) => bonded,
        (StatusState::Bonded, StatusState::Bonded) => bonded,
        (StatusState::Aborted, StatusState::Aborted) => t,
        (StatusState::Aborted, StatusState::PreCommit) => t,
        _ => t.with_phase(Phase::Uncertain),
    }
}

/// The phase's recovery code; `Aborted` is written but never restored.
pub open spec fn spec_phase_code(phase: Phase) -> u8 {
    match phase {
        Phase::Negotiating => 0,
        Phase::OobPending => 1,
        Phase::Preparing => 2,
        Phase::Prepared => 3,
        Phase::CommitPending => 4,
        Phase::Committed => 5,
        Phase::Bonded => 6,
        Phase::Aborted(_) => 7,
        Phase::Uncertain => 8,
    }
}

/// The restorable phase a recovery code names.
pub open spec fn spec_phase_from_code(code: u8) -> Option<Phase> {
    match code {
        0 => Some(Phase::Negotiating),
        1 => Some(Phase::OobPending),
        2 => Some(Phase::Preparing),
        3 => Some(Phase::Prepared),
        4 => Some(Phase::CommitPending),
        5 => Some(Phase::Committed),
        6 => Some(Phase::Bonded),
        8 => Some(Phase::Uncertain),
        _ => None,
    }
}

pub open spec fn spec_role_code(role: Role) -> u8 {
    match role {
        Role::Coordinator => 0,
        Role::Participant => 1,
    }
}

pub open spec fn flag_byte(b: bool) -> u8 {
    if b {
        1
    } else {
        0
    }
}

/// The 27-byte recovery record: version, role, phase code, identifier and
/// the eight per-side flags.
pub open spec fn spec_serialize(t: TransactionView) -> Seq<u8> {
    seq![VERSION, spec_role_code(t.role), spec_phase_code(t.phase)] + t.id + seq![
        flag_byte(t.capabilities.0),
        flag_byte(t.capabilities.1),
        flag_byte(t.confirmed.0),
        flag_byte(t.confirmed.1),
        flag_byte(t.prepared.0),
        flag_byte(t.prepared.1),
        flag_byte(t.committed.0),
        flag_byte(t.committed.1),
    ]
}

/// A record whose every byte is well formed (validity aside).
pub open spec fn record_wire_ok(b: Seq<u8>) -> bool {
    &&& b.len() == RECORD_LEN
    &&& b[0] == VERSION
    &&& b[1] <= 1
    &&& spec_phase_from_code(b[2]) is Some
    &&& forall|i: int| 19 <= i < 27 ==> b[i] <= 1
}

/// The transaction a well-formed record describes.
pub open spec fn spec_parse_record(b: Seq<u8>) -> TransactionView {
    TransactionView {
        id: b.subrange(3, 19),
        role: if b[1] == 0 {
            Role::Coordinator
        } else {
            Role::Participant
        },
        phase: spec_phase_from_code(b[2]).unwrap(),
        capabilities: (b[19] != 0, b[20] != 0),
        confirmed: (b[21] != 0, b[22] != 0),
        prepared: (b[23] != 0, b[24] != 0),
        committed: (b[25] != 0, b[26] != 0),
    }
}

/// What restoring a record gives: malformed bytes are incompatible, an
/// inconsistent record is an invalid transition.
pub open spec fn spec_restore(b: Seq<u8>) -> Result<TransactionView, TransactionError> {
    if !record_wire_ok(b) {
        Err(TransactionError::Incompatible)
    } else if spec_parse_record(b).valid() {
        Ok(spec_parse_record(b))
    } else {
        Err(TransactionError::InvalidTransition)
    }
}

/// The phase a coarse durable status resumes in.
pub open spec fn spec_recovery_view(id: Seq<u8>, role: Role, status: StatusState) -> TransactionView {
    let phase = match status {
        StatusState::PreCommit => Phase::Prepared,
        StatusState::CommitPending => Phase::CommitPending,
        StatusState::Committed => Phase::Committed,
        StatusState::Bonded => Phase::Bonded,
        StatusState::Aborted => Phase::Aborted(Operation::Error),
        StatusState::Unknown => Phase::Uncertain,
    };
    TransactionView {
        id,
        role,
        phase,
        capabilities: (true, true),
        confirmed: (true, true),
        prepared: (true, true),
        committed: match phase {
            Phase::Bonded => (true, true),
            Phase::Committed => (true, false),
            _ => (false, false),
        },
    }
}

/// Deterministic transition validator shared by desktop/mobile integrations.
/// Persistence and transport are deliberately outside this type: neither a
/// successful write callback nor a UI click is proof of durable remote commit.
#[derive(Debug, Clone, Copy)]
pub struct Transaction {
    id: [u8; 16],
    role: Role,
    phase: Phase,
    capabilities: [bool; 2],
    confirmed: [bool; 2],
    prepared: [bool; 2],
    committed: [bool; 2],
}

impl View for Transaction {
    type V = TransactionView;

    closed spec fn view(&self) -> TransactionView {
        TransactionView {
            id: self.id@,
            role: self.role,
            phase: self.phase,
            capabilities: (self.capabilities[0], self.capabilities[1]),
            confirmed: (self.confirmed[0], self.confirmed[1]),
            prepared: (self.prepared[0], self.prepared[1]),
            committed: (self.committed[0], self.committed[1]),
        }
    }
}

fn phase_code(phase: Phase) -> (c: u8)
    ensures
        c == spec_phase_code(phase),
{
    match phase {
        Phase::Negotiating => 0,
        Phase::OobPending => 1,
        Phase::Preparing => 2,
        Phase::Prepared => 3,
        Phase::CommitPending => 4,
        Phase::Committed => 5,
        Phase::Bonded => 6,
        Phase::Aborted(_) => 7,
        Phase::Uncertain => 8,
    }
}

fn decode_phase(code: u8) -> (r: Result<Phase, TransactionError>)
    ensures
        match spec_phase_from_code(code) {
            Some(p) => r == Ok::<Phase, TransactionError>(p),
            None => r == Err::<Phase, TransactionError>(TransactionError::Incompatible),
        },
{
    match code {
        0 => Ok(Phase::Negotiating),
        1 => Ok(Phase::OobPending),
        2 => Ok(Phase::Preparing),
        3 => Ok(Phase::Prepared),
        4 => Ok(Phase::CommitPending),
        5 => Ok(Phase::Committed),
        6 => Ok(Phase::Bonded),
        8 => Ok(Phase::Uncertain),
        _ => Err(TransactionError::Incompatible),
    }
}

fn flag_u8(b: bool) -> (r: u8)
    ensures
        r == flag_byte(b),
{
    if b {
        1
    } else {
        0
    }
}

/// Whether two transaction identifiers are the same.
pub fn same_id(a: &[u8; 16], b: &[u8; 16]) -> (r: bool)
    ensures
        r == (a@ == b@),
{
    let mut i: usize = 0;
    while i < 16
        invariant
            i <= 16,
            forall|j: int| 0 <= j < i ==> a@[j] == b@[j],
        decreases 16 - i,
    {
        if a[i] != b[i] {
            return false;
        }
        i = i + 1;
    }
    assert(a@ =~= b@);
    true
}


impl Transaction {
    #[verifier::type_invariant]
    closed spec fn inv(self) -> bool {
        self@.gates_hold() && self@.id.len() == 16
    }

    /// Serialize only non-secret recovery metadata for restart.
    pub fn serialize(&self) -> (r: Vec<u8>)
        ensures
            r@ == spec_serialize(self@),
    {
        let t = self.id;
        let r = vec![
            VERSION,
            match self.role {
                Role::Coordinator => 0,
                Role::Participant => 1,
            },
            phase_code(self.phase),
            t[0],
            t[1],
            t[2],
            t[3],
            t[4],
            t[5],
            t[6],
            t[7],
            t[8],
            t[9],
            t[10],
            t[11],
            t[12],
            t[13],
            t[14],
            t[15],
            flag_u8(self.capabilities[0]),
            flag_u8(self.capabilities[1]),
            flag_u8(self.confirmed[0]),
            flag_u8(self.confirmed[1]),
            flag_u8(self.prepared[0]),
            flag_u8(self.prepared[1]),
            flag_u8(self.committed[0]),
            flag_u8(self.committed[1]),
        ];
        assert(r@ =~= spec_serialize(self@));
        r
    }

    fn flags(bytes: &[u8], offset: usize) -> (r: Result<[bool; 2], TransactionError>)
        requires
            offset + 2 <= bytes@.len(),
        ensures
            match r {
                Ok(f) => bytes@[offset as int] <= 1 && bytes@[offset + 1] <= 1 && f[0] == (
                bytes@[offset as int] != 0) && f[1] == (bytes@[offset + 1] != 0),
                Err(e) => e == TransactionError::Incompatible && !(bytes@[offset as int] <= 1
                    && bytes@[offset + 1] <= 1),
            },
    {
        if bytes[offset] <= 1 && bytes[offset + 1] <= 1 {
            Ok([bytes[offset] != 0, bytes[offset + 1] != 0])
        } else {
            Err(TransactionError::Incompatible)
        }
    }

    /// Restore non-secret transaction metadata after a process restart.
    pub fn restore(bytes: &[u8]) -> (r: Result<Self, TransactionError>)
        ensures
            match (r, spec_restore(bytes@)) {
                (Ok(t), Ok(v)) => t@ == v,
                (Err(e), Err(e2)) => e == e2,
                _ => false,
            },
            r matches Ok(t) ==> spec_serialize(t@) == bytes@,
    {
        if bytes.len() != RECORD_LEN || bytes[0] != VERSION {
            return Err(TransactionError::Incompatible);
        }
        let role = match bytes[1] {
            0 => Role::Coordinator,
            1 => Role::Participant,
            _ => return Err(TransactionError::Incompatible),
        };
        let phase = match decode_phase(bytes[2]) {
            Ok(p) => p,
            Err(e) => return Err(e),
        };
        let id = [
            bytes[3],
            bytes[4],
            bytes[5],
            bytes[6],
            bytes[7],
            bytes[8],
            bytes[9],
            bytes[10],
            bytes[11],
            bytes[12],
            bytes[13],
            bytes[14],
            bytes[15],
            bytes[16],
            bytes[17],
            bytes[18],
        ];
        let capabilities = match Self::flags(bytes, 19) {
            Ok(f) => f,
            Err(e) => return Err(e),
        };
        let confirmed = match Self::flags(bytes, 21) {
            Ok(f) => f,
            Err(e) => return Err(e),
        };
        let prepared = match Self::flags(bytes, 23) {
            Ok(f) => f,
            Err(e) => return Err(e),
        };
        let committed = match Self::flags(bytes, 25) {
            Ok(f) => f,
            Err(e) => return Err(e),
        };
        assert(record_wire_ok(bytes@));
        let ghost parsed = spec_parse_record(bytes@);
        assert(id@ =~= parsed.id);
        if !Self::valid_parts(phase, &capabilities, &confirmed, &prepared, &committed) {
            return Err(TransactionError::InvalidTransition);
        }
        let transaction = Transaction { id, role, phase, capabilities, confirmed, prepared, committed };
        assert(transaction@ == parsed);
        assert(spec_serialize(transaction@) =~= bytes@);
        Ok(transaction)
    }

    /// The consistency check of [`TransactionView::valid`] on raw parts.
    fn valid_parts(
        phase: Phase,
        capabilities: &[bool; 2],
        confirmed: &[bool; 2],
        prepared: &[bool; 2],
        committed: &[bool; 2],
    ) -> (b: bool)
        ensures
            b == (TransactionView {
                id: Seq::empty(),
                role: Role::Coordinator,
                phase,
                capabilities: (capabilities[0], capabilities[1]),
                confirmed: (confirmed[0], confirmed[1]),
                prepared: (prepared[0], prepared[1]),
                committed: (committed[0], committed[1]),
            }).valid(),
    {
        let caps = capabilities[0] && capabilities[1];
        let conf = confirmed[0] && confirmed[1];
        let prep = prepared[0] && prepared[1];
        let comm = committed[0] && committed[1];
        let none_committed = !committed[0] && !committed[1];
        match phase {
            Phase::Negotiating => !capabilities[0] || capabilities[1],
            Phase::OobPending => caps && !conf,
            Phase::Preparing => caps && conf && !prep,
            Phase::Prepared => caps && conf && prep && none_committed,
            Phase::CommitPending => caps && conf && prep && none_committed,
            Phase::Committed => caps && conf && prep && !comm,
            Phase::Bonded => caps && conf && prep && comm,
            Phase::Aborted(_) | Phase::Uncertain => true,
        }
    }

    /// Restore a coarse durable state when the journal survived a restart.
    pub fn from_recovery_status(id: [u8; 16], role: Role, status: StatusState) -> (r: Result<
        Self,
        TransactionError,
    >)
        ensures
            r matches Ok(t) && t@ == spec_recovery_view(id@, role, status),
    {
        let phase = match status {
            StatusState::PreCommit => Phase::Prepared,
            StatusState::CommitPending => Phase::CommitPending,
            StatusState::Committed => Phase::Committed,
            StatusState::Bonded => Phase::Bonded,
            StatusState::Aborted => Phase::Aborted(Operation::Error),
            StatusState::Unknown => Phase::Uncertain,
        };
        let committed = match phase {
            Phase::Bonded => [true, true],
            Phase::Committed => [true, false],
            _ => [false, false],
        };
        let tx = Transaction {
            id,
            role,
            phase,
            capabilities: [true, true],
            confirmed: [true, true],
            prepared: [true, true],
            committed,
        };
        match tx.validate() {
            Ok(()) => Ok(tx),
            Err(e) => Err(e),
        }
    }

    /// Begin one fresh, authenticated pairing attempt.
    pub fn new(id: [u8; 16], role: Role) -> (t: Self)
        ensures
            t@ == TransactionView::fresh(id@, role),
    {
        Transaction {
            id,
            role,
            phase: Phase::Negotiating,
            capabilities: [false, false],
            confirmed: [false, false],
            prepared: [false, false],
            committed: [false, false],
        }
    }

    fn validate(&self) -> (r: Result<(), TransactionError>)
        ensures
            r is Ok <==> self@.valid(),
            r matches Err(e) ==> e == TransactionError::InvalidTransition,
    {
        if Self::valid_parts(self.phase, &self.capabilities, &self.confirmed, &self.prepared, &self.committed) {
            Ok(())
        } else {
            Err(TransactionError::InvalidTransition)
        }
    }

    /// Current phase; callers must persist a commit decision before emitting it.
    pub fn phase(&self) -> (p: Phase)
        ensures
            p == self@.phase,
            self@.gates_hold(),
    {
        proof {
            use_type_invariant(self);
        }
        self.phase
    }

    /// Coarse state safe to expose over the authenticated recovery channel.
    pub fn status(&self) -> (s: StatusState)
        ensures
            s == self@.status(),
    {
        match self.phase {
            Phase::Negotiating | Phase::OobPending | Phase::Preparing | Phase::Prepared => StatusState::PreCommit,
            Phase::CommitPending => StatusState::CommitPending,
            Phase::Uncertain => StatusState::Unknown,
            Phase::Committed => StatusState::Committed,
            Phase::Bonded => StatusState::Bonded,
            Phase::Aborted(_) => StatusState::Aborted,
        }
    }

    /// Reconcile a validated peer status without downgrading a commit.
    pub fn reconcile_status(&mut self, remote: StatusState) -> (r: Result<Phase, TransactionError>)
        ensures
            final(self)@ == spec_reconcile(old(self)@, remote),
            r == Ok::<Phase, TransactionError>(final(self)@.phase),
            final(self)@.gates_hold(),
    {
        proof {
            use_type_invariant(&*self);
        }
        let local = self.status();
        match (local, remote) {
            (StatusState::Unknown, _) | (_, StatusState::Unknown) => self.phase = Phase::Uncertain,
            (StatusState::PreCommit, StatusState::Aborted) => self.phase = Phase::Aborted(Operation::Error),
            (StatusState::PreCommit, StatusState::PreCommit) => {},
            (StatusState::CommitPending, StatusState::Committed) => self.phase = Phase::Committed,
            (StatusState::CommitPending, StatusState::Bonded) => {
                self.committed = [true, true];
                self.phase = Phase::Bonded;
            },
            (StatusState::Committed, StatusState::CommitPending) => {},
            (StatusState::Committed, StatusState::Committed)
            | (StatusState::Committed, StatusState::Bonded)
            | (StatusState::Bonded, StatusState::Committed)
            | (StatusState::Bonded, StatusState::Bonded) => {
                self.committed = [true, true];
                self.phase = Phase::Bonded;
            },
            (StatusState::Aborted, StatusState::Aborted) => {},
            (StatusState::Aborted, StatusState::PreCommit) => {},
            _ => self.phase = Phase::Uncertain,
        }
        proof {
            use_type_invariant(&*self);
        }
        Ok(self.phase)
    }

    /// Validate and reconcile a nonce-bound response against this transaction.
    pub fn apply_status_response(&mut self, response: StatusMessage, nonce: u64) -> (r: Result<
        Phase,
        TransactionError,
    >)
        ensures
            if response.transaction@ != old(self)@.id || response.nonce != nonce
                || response.state is None {
                &&& r == Err::<Phase, TransactionError>(TransactionError::WrongTransaction)
                &&& final(self)@ == old(self)@
            } else {
                &&& final(self)@ == spec_reconcile(old(self)@, response.state.unwrap())
                &&& r == Ok::<Phase, TransactionError>(final(self)@.phase)
            },
            final(self)@.gates_hold(),
    {
        proof {
            use_type_invariant(&*self);
        }
        if !same_id(&response.transaction, &self.id) || response.nonce != nonce
            || response.state.is_none() {
            return Err(TransactionError::WrongTransaction);
        }
        let state = match response.state {
            Some(state) => state,
            None => return Err(TransactionError::Incompatible),
        };
        self.reconcile_status(state)
    }

    /// Apply a local fact. Failure leaves the previous state intact.
    pub fn local(&mut self, event: LocalEvent) -> (r: Result<(), TransactionError>)
        ensures
            match spec_local(old(self)@, event) {
                Some(v) => r is Ok && final(self)@ == v,
                None => r == Err::<(), TransactionError>(TransactionError::InvalidTransition)
                    && final(self)@ == old(self)@,
            },
            final(self)@.gates_hold(),
    {
        proof {
            use_type_invariant(&*self);
        }
        let r = match event {
            LocalEvent::Capability => {
                if self.phase == Phase::Negotiating && !self.capabilities[0] {
                    self.capabilities = [true, self.capabilities[1]];
                    Ok(())
                } else {
                    Err(TransactionError::InvalidTransition)
                }
            },
            LocalEvent::VerifiedExchange => {
                if self.phase == Phase::Negotiating && self.capabilities[0] && self.capabilities[1] {
                    self.phase = Phase::OobPending;
                    Ok(())
                } else {
                    Err(TransactionError::InvalidTransition)
                }
            },
            LocalEvent::Confirm => self.confirm(0),
            LocalEvent::Prepared => self.prepare(0),
            LocalEvent::Commit => {
                if self.role == Role::Coordinator && self.phase == Phase::Prepared {
                    self.phase = Phase::CommitPending;
                    Ok(())
                } else {
                    Err(TransactionError::InvalidTransition)
                }
            },
            LocalEvent::CommitAck => {
                if self.role == Role::Participant && self.phase == Phase::CommitPending {
                    self.phase = Phase::Committed;
                    Ok(())
                } else {
                    Err(TransactionError::InvalidTransition)
                }
            },
            LocalEvent::Committed => self.record_committed(0),
            LocalEvent::Disconnected => {
                self.disconnect();
                Ok(())
            },
            LocalEvent::Abort(operation) => self.abort(operation),
        };
        proof {
            use_type_invariant(&*self);
        }
        r
    }

    /// Apply a remote message bound to the current attempt.
    pub fn remote(&mut self, message: Message) -> (r: Result<(), TransactionError>)
        ensures
            match spec_remote(old(self)@, message) {
                Ok(v) => r is Ok && final(self)@ == v,
                Err(e) => r == Err::<(), TransactionError>(e) && final(self)@ == old(self)@,
            },
            final(self)@.gates_hold(),
    {
        proof {
            use_type_invariant(&*self);
        }
        if !same_id(&message.transaction, &self.id) {
            return Err(TransactionError::WrongTransaction);
        }
        let r = match message.operation {
            Operation::Capability => {
                if self.phase == Phase::Negotiating && !self.capabilities[1] {
                    self.capabilities = [self.capabilities[0], true];
                    Ok(())
                } else {
                    Err(TransactionError::InvalidTransition)
                }
            },
            Operation::Confirm => self.confirm(1),
            Operation::Prepared => self.prepare(1),
            Operation::Commit => {
                if self.role == Role::Participant && self.phase == Phase::Prepared {
                    self.phase = Phase::CommitPending;
                    Ok(())
                } else {
                    Err(TransactionError::InvalidTransition)
                }
            },
            Operation::CommitAck => {
                if self.role == Role::Coordinator && self.phase == Phase::CommitPending {
                    self.phase = Phase::Committed;
                    Ok(())
                } else {
                    Err(TransactionError::InvalidTransition)
                }
            },
            Operation::Committed => self.record_committed(1),
            // status never advances a commit
            Operation::Status | Operation::StatusQuery | Operation::StatusResponse => Ok(()),
            Operation::Reject | Operation::Cancel | Operation::Timeout | Operation::Error => {
                self.abort(message.operation)
            },
            Operation::Revoke => Err(TransactionError::InvalidTransition),
        };
        proof {
            use_type_invariant(&*self);
        }
        r
    }

    fn confirm(&mut self, side: usize) -> (r: Result<(), TransactionError>)
        requires
            side <= 1,
        ensures
            match spec_confirm(old(self)@, side as int) {
                Some(v) => r is Ok && final(self)@ == v,
                None => r == Err::<(), TransactionError>(TransactionError::InvalidTransition)
                    && final(self)@ == old(self)@,
            },
    {
        proof {
            use_type_invariant(&*self);
        }
        if self.phase != Phase::OobPending || self.confirmed[side] {
            return Err(TransactionError::InvalidTransition);
        }
        self.confirmed = if side == 0 {
            [true, self.confirmed[1]]
        } else {
            [self.confirmed[0], true]
        };
        if self.confirmed[0] && self.confirmed[1] {
            self.phase = Phase::Preparing;
        }
        Ok(())
    }

    fn prepare(&mut self, side: usize) -> (r: Result<(), TransactionError>)
        requires
            side <= 1,
        ensures
            match spec_prepare(old(self)@, side as int) {
                Some(v) => r is Ok && final(self)@ == v,
                None => r == Err::<(), TransactionError>(TransactionError::InvalidTransition)
                    && final(self)@ == old(self)@,
            },
    {
        proof {
            use_type_invariant(&*self);
        }
        if self.phase != Phase::Preparing || self.prepared[side] {
            return Err(TransactionError::InvalidTransition);
        }
        self.prepared = if side == 0 {
            [true, self.prepared[1]]
        } else {
            [self.prepared[0], true]
        };
        if self.prepared[0] && self.prepared[1] {
            self.phase = Phase::Prepared;
        }
        Ok(())
    }

    fn record_committed(&mut self, side: usize) -> (r: Result<(), TransactionError>)
        requires
            side <= 1,
        ensures
            match spec_record_committed(old(self)@, side as int) {
                Some(v) => r is Ok && final(self)@ == v,
                None => r == Err::<(), TransactionError>(TransactionError::InvalidTransition)
                    && final(self)@ == old(self)@,
            },
    {
        proof {
            use_type_invariant(&*self);
        }
        if self.phase != Phase::Committed || self.committed[side] {
            return Err(TransactionError::InvalidTransition);
        }
        self.committed = if side == 0 {
            [true, self.committed[1]]
        } else {
            [self.committed[0], true]
        };
        if self.committed[0] && self.committed[1] {
            self.phase = Phase::Bonded;
        }
        Ok(())
    }

    fn disconnect(&mut self)
        ensures
            final(self)@ == spec_disconnect(old(self)@),
    {
        proof {
            use_type_invariant(&*self);
        }
        self.phase = match self.phase {
            Phase::CommitPending | Phase::Committed | Phase::Uncertain => Phase::Uncertain,
            Phase::Bonded | Phase::Aborted(_) => self.phase,
            _ => Phase::Aborted(Operation::Cancel),
        };
    }

    fn abort(&mut self, operation: Operation) -> (r: Result<(), TransactionError>)
        ensures
            match spec_abort(old(self)@, operation) {
                Some(v) => r is Ok && final(self)@ == v,
                None => r == Err::<(), TransactionError>(TransactionError::InvalidTransition)
                    && final(self)@ == old(self)@,
            },
    {
        proof {
            use_type_invariant(&*self);
        }
        let final_phase = match self.phase {
            Phase::Bonded | Phase::Aborted(_) => true,
            _ => false,
        };
        if !operation.is_abort() || final_phase {
            return Err(TransactionError::InvalidTransition);
        }
        self.phase = match self.phase {
            Phase::CommitPending | Phase::Committed | Phase::Uncertain => Phase::Uncertain,
            _ => Phase::Aborted(operation),
        };
        Ok(())
    }

    /// The attempt's identifier.
    pub fn id(&self) -> (id: [u8; 16])
        ensures
            id@ == self@.id,
    {
        self.id
    }
}


/// Restoring the serialization of a transaction gives it back exactly when it
/// is consistent and not aborted; an aborted record is refused as
/// incompatible and an inconsistent one as an invalid transition.
pub proof fn lemma_record_roundtrip(t: TransactionView)
    requires
        t.id.len() == 16,
    ensures
        spec_restore(spec_serialize(t)) == if t.phase is Aborted {
            Err::<TransactionView, TransactionError>(TransactionError::Incompatible)
        } else if t.valid() {
            Ok::<TransactionView, TransactionError>(t)
        } else {
            Err::<TransactionView, TransactionError>(TransactionError::InvalidTransition)
        },
{
    let b = spec_serialize(t);
    if !(t.phase is Aborted) {
        assert(record_wire_ok(b));
        let p = spec_parse_record(b);
        assert(p.id =~= t.id);
        assert(p == t);
    }
}

/// Every local fact, remote message and reconciliation keeps the gates: no
/// phase is reached without both sides passing every earlier gate, and
/// `Bonded` always carries both verified committed records.
pub proof fn lemma_steps_keep_gates(t: TransactionView, event: LocalEvent, message: Message, remote: StatusState)
    requires
        t.gates_hold(),
    ensures
        spec_local(t, event) matches Some(v) ==> v.gates_hold(),
        spec_remote(t, message) matches Ok(v) ==> v.gates_hold(),
        spec_reconcile(t, remote).gates_hold(),
{
}

/// `Bonded` and `Aborted` are final: no local fact and no remote message
/// moves a transaction out of them.
pub proof fn lemma_final_phases_are_absorbing(t: TransactionView, event: LocalEvent, message: Message)
    requires
        t.phase == Phase::Bonded || t.phase is Aborted,
    ensures
        spec_local(t, event) matches Some(v) ==> v.phase == t.phase,
        spec_remote(t, message) matches Ok(v) ==> v.phase == t.phase,
{
}

/// Once the commit decision exists there is no rollback: a lost link or an
/// abort makes the outcome uncertain, never aborted; before the decision the
/// same events abort the attempt.
pub proof fn lemma_no_rollback_after_commit(t: TransactionView, op: Operation)
    requires
        op.spec_is_abort(),
    ensures
        (t.phase == Phase::CommitPending || t.phase == Phase::Committed) ==> {
            &&& spec_local(t, LocalEvent::Disconnected) == Some(t.with_phase(Phase::Uncertain))
            &&& spec_local(t, LocalEvent::Abort(op)) == Some(t.with_phase(Phase::Uncertain))
        },
        gate_level(t.phase) < 4 && !(t.phase is Aborted) && t.phase != Phase::Uncertain ==> {
            &&& spec_local(t, LocalEvent::Disconnected) == Some(
                t.with_phase(Phase::Aborted(Operation::Cancel)),
            )
            &&& spec_local(t, LocalEvent::Abort(op)) == Some(t.with_phase(Phase::Aborted(op)))
        },
{
}

/// Reconciliation never downgrades a commit: a transaction at or past the
/// commit decision ends committed, bonded or uncertain, never aborted or
/// before the decision, and a bonded one stays bonded unless the outcome
/// becomes unknown.
pub proof fn lemma_reconcile_never_downgrades_commit(t: TransactionView, remote: StatusState)
    ensures
        gate_level(t.phase) >= 4 ==> {
            let p = spec_reconcile(t, remote).phase;
            p == Phase::Committed || p == Phase::Bonded || p == Phase::Uncertain
        },
        t.phase == Phase::Bonded ==> {
            let p = spec_reconcile(t, remote).phase;
            p == Phase::Bonded || p == Phase::Uncertain
        },
        t.phase == Phase::Uncertain ==> spec_reconcile(t, remote).phase == Phase::Uncertain,
{
}

/// Remote traffic that is not a pairing step never moves the attempt: a
/// status message leaves it unchanged, and a revocation or a message for
/// another attempt is refused.
pub proof fn lemma_foreign_traffic_never_advances(t: TransactionView, message: Message)
    ensures
        message.transaction@ != t.id ==> spec_remote(t, message) == Err::<
            TransactionView,
            TransactionError,
        >(TransactionError::WrongTransaction),
        message.operation == Operation::Revoke ==> spec_remote(t, message) is Err,
        message.transaction@ == t.id && (message.operation == Operation::Status
            || message.operation == Operation::StatusQuery || message.operation
            == Operation::StatusResponse) ==> spec_remote(t, message) == Ok::<
            TransactionView,
            TransactionError,
        >(t),
{
}

/// Only the coordinator takes the commit decision and only the participant
/// acknowledges it; a peer can take neither role for us.
pub proof fn lemma_commit_roles(t: TransactionView, message: Message)
    ensures
        spec_local(t, LocalEvent::Commit) is Some ==> t.role == Role::Coordinator,
        spec_local(t, LocalEvent::CommitAck) is Some ==> t.role == Role::Participant,
        message.operation == Operation::Commit && spec_remote(t, message) is Ok ==> t.role
            == Role::Participant,
        message.operation == Operation::CommitAck && spec_remote(t, message) is Ok ==> t.role
            == Role::Coordinator,
{
}


/// A peer's proof of a bilateral commit completes a committed pairing: when
/// the local side is `Committed` or `Bonded` and the peer reports
/// `Committed` or `Bonded`, reconciliation ends `Bonded` with both committed
/// records, and nothing else of the transaction changes. A pairing pending
/// the commit ends `Bonded` the same way on the peer's `Bonded`.
pub proof fn lemma_bilateral_commit_reconciles_to_bonded(t: TransactionView, remote: StatusState)
    requires
        t.phase == Phase::Committed || t.phase == Phase::Bonded
            || (t.phase == Phase::CommitPending && remote == StatusState::Bonded),
        remote == StatusState::Committed || remote == StatusState::Bonded,
    ensures
        spec_reconcile(t, remote).phase == Phase::Bonded,
        spec_reconcile(t, remote).committed == (true, true),
        spec_reconcile(t, remote).id == t.id,
        spec_reconcile(t, remote).role == t.role,
        spec_reconcile(t, remote).capabilities == t.capabilities,
        spec_reconcile(t, remote).confirmed == t.confirmed,
        spec_reconcile(t, remote).prepared == t.prepared,
{
}

/// Past the commit decision nothing claims a rollback: from `CommitPending`,
/// `Committed`, `Bonded` or `Uncertain`, no local fact, remote message or
/// reconciliation yields an `Aborted` phase, and an abort-class operation
/// leaves an `Uncertain` transaction exactly as it was.
pub proof fn lemma_no_abort_after_commit_decision(
    t: TransactionView,
    event: LocalEvent,
    message: Message,
    remote: StatusState,
    op: Operation,
)
    requires
        t.phase == Phase::CommitPending || t.phase == Phase::Committed || t.phase == Phase::Bonded
            || t.phase == Phase::Uncertain,
    ensures
        spec_local(t, event) matches Some(v) ==> !(v.phase is Aborted),
        spec_remote(t, message) matches Ok(v) ==> !(v.phase is Aborted),
        !(spec_reconcile(t, remote).phase is Aborted),
        t.phase == Phase::Uncertain && op.spec_is_abort() ==> spec_local(t, LocalEvent::Abort(op)) == Some(t),
        t.phase == Phase::Uncertain && op.spec_is_abort() && message.transaction@ == t.id && message.operation
            == op ==> spec_remote(t, message) == Ok::<TransactionView, TransactionError>(t),
{
    assert(t.with_phase(Phase::Uncertain) == t || t.phase != Phase::Uncertain);
}

/// The consistency every transaction reachable from a fresh attempt keeps:
/// a consistent record (`valid`), or a negotiation in which only the
/// capabilities have been exchanged, and no flag of a later gate raised
/// before its phase.
pub open spec fn reachable_consistent(t: TransactionView) -> bool {
    &&& t.valid() || t.phase == Phase::Negotiating
    &&& t.phase == Phase::Negotiating ==> t.confirmed == (false, false) && t.prepared == (false, false)
        && t.committed == (false, false)
    &&& t.phase == Phase::OobPending ==> t.prepared == (false, false) && t.committed == (false, false)
    &&& t.phase == Phase::Preparing ==> t.committed == (false, false)
}

/// Every transaction reachable from `Transaction::new` through accepted local
/// facts, remote messages and reconciliations restores from its own
/// serialization: a fresh attempt is consistent, every step keeps it so, and
/// a consistent record that is neither aborted nor a negotiation in which
/// only the local capability was offered comes back unchanged from
/// `restore(serialize(t))`.
pub proof fn lemma_reachable_transactions_restore(
    t: TransactionView,
    id: Seq<u8>,
    role: Role,
    event: LocalEvent,
    message: Message,
    remote: StatusState,
)
    ensures
        reachable_consistent(TransactionView::fresh(id, role)),
        reachable_consistent(t) ==> (spec_local(t, event) matches Some(v) ==> reachable_consistent(v)),
        reachable_consistent(t) ==> (spec_remote(t, message) matches Ok(v) ==> reachable_consistent(v)),
        reachable_consistent(t) ==> reachable_consistent(spec_reconcile(t, remote)),
        reachable_consistent(t) && t.id.len() == 16 && !(t.phase is Aborted) && !(t.phase == Phase::Negotiating
            && t.capabilities == (true, false)) ==> spec_restore(spec_serialize(t)) == Ok::<
            TransactionView,
            TransactionError,
        >(t),
{
    if reachable_consistent(t) && t.id.len() == 16 && !(t.phase is Aborted) && !(t.phase == Phase::Negotiating
        && t.capabilities == (true, false)) {
        lemma_record_roundtrip(t);
    }
}


/// Reconciliation agrees with both sides: it ends `Bonded` only when each
/// side is past the commit decision and the peer holds a committed record;
/// it ends `Aborted` only when neither side took the commit decision, and
/// then it does when a pre-commit attempt meets the peer's abort; and an
/// unknown status on either side leaves the outcome unknown.
pub proof fn lemma_reconcile_agrees_with_both_sides(t: TransactionView, remote: StatusState)
    ensures
        spec_reconcile(t, remote).phase == Phase::Bonded ==> (t.status() == StatusState::CommitPending
            || t.status() == StatusState::Committed || t.status() == StatusState::Bonded) && (remote
            == StatusState::Committed || remote == StatusState::Bonded),
        spec_reconcile(t, remote).phase is Aborted ==> (t.status() == StatusState::PreCommit || t.status()
            == StatusState::Aborted) && (remote == StatusState::PreCommit || remote == StatusState::Aborted),
        t.status() == StatusState::PreCommit && remote == StatusState::Aborted ==> spec_reconcile(
            t,
            remote,
        ).phase is Aborted,
        t.status() == StatusState::Unknown || remote == StatusState::Unknown ==> spec_reconcile(
            t,
            remote,
        ).phase == Phase::Uncertain,
        spec_reconcile(t, remote).id == t.id && spec_reconcile(t, remote).role == t.role,
{
}

} // verus!
