//! Crash recovery for a staged V2 pairing transaction: reading the journal
//! back, querying the peer's authenticated status and deciding what happens
//! to the staged bond.
//!
//! - a bilateral `Committed`/`Bonded` promotes the staged bond and key;
//! - a remote `Aborted` on a transaction with **no** durable local commit
//!   decision discards the staging;
//! - anything inconclusive retains the journal and pending state so recovery
//!   can run again later.
use vstd::prelude::*;
use vstd::utf8::encode_utf8;
use vstd::string::{StrSliceExecFns, StringExecFns};
use rand::RngCore;
use crate::text::{spec_field, field, spec_hex_id, parse_hex_id, str_eq, hex_pairs_on_boundaries, hex_pairs_sliceable};
use crate::pair_recovery::{pending_bond_path, RecoveryError};
use crate::paths::path_join;
use crate::pair_transaction::{
    Transaction, TransactionView, StatusMessage, StatusState, Phase, Role, LocalEvent,
    TransactionError, spec_reconcile, spec_local, spec_recovery_view,
};

verus! {

/// Default durable bond directory.
pub const DEFAULT_BOND_DIR: &'static str = "/var/lib/syauth";

/// Options of the `reconcile` verb.
#[derive(Debug, Clone)]
pub struct ReconcileOpts {
    /// BlueZ adapter used for the reconnect.
    pub adapter: String,
    /// Durable bond directory.
    pub bond_dir: String,
}

/// Why a recovery run stopped.
#[derive(Debug, Clone, PartialEq, Eq)]
pub enum ReconcileError {
    /// There is no journal to recover from.
    NoJournal,
    /// The journal, or the staged bond it names, does not parse or agree.
    MalformedJournal,
    /// The peer's authenticated status could not be read.
    Transport(String),
    /// The transaction refused the peer's status.
    Transaction(String),
    /// A filesystem operation failed.
    Io(String),
    /// The bond store failed.
    Bond(String),
}

impl ReconcileError {
    /// The human-readable text of the error.
    pub open spec fn spec_message(self) -> Seq<char> {
        match self {
            ReconcileError::NoJournal => "recovery journal unavailable"@,
            ReconcileError::MalformedJournal => "malformed recovery journal"@,
            ReconcileError::Transport(s) => "recovery peer status unavailable: "@ + s@,
            ReconcileError::Transaction(s) => "recovery transaction rejected: "@ + s@,
            ReconcileError::Io(s) => "recovery storage error: "@ + s@,
            ReconcileError::Bond(s) => "recovery bond error: "@ + s@,
        }
    }

    /// The human-readable text of the error.
    pub fn message(&self) -> (r: String)
        ensures
            r@ == self.spec_message(),
    {
        match self {
            ReconcileError::NoJournal => "recovery journal unavailable".to_owned(),
            ReconcileError::MalformedJournal => "malformed recovery journal".to_owned(),
            ReconcileError::Transport(s) => "recovery peer status unavailable: ".to_owned().concat(
                s.as_str(),
            ),
            ReconcileError::Transaction(s) => "recovery transaction rejected: ".to_owned().concat(
                s.as_str(),
            ),
            ReconcileError::Io(s) => "recovery storage error: ".to_owned().concat(s.as_str()),
            ReconcileError::Bond(s) => "recovery bond error: ".to_owned().concat(s.as_str()),
        }
    }
}

/// Durable outcome of one recovery run.
#[derive(Debug, Clone, Copy, PartialEq, Eq, Structural)]
pub enum ReconcileResult {
    /// Both sides committed: the staged bond is promoted.
    Bonded,
    /// The attempt is conclusively aborted: the staging is dropped.
    Aborted,
    /// Inconclusive: journal and staging are kept for a later run.
    Uncertain,
}

/// Where the staged inactive bond store lives.
pub fn pending_path(bond_dir: &str) -> (r: String)
    ensures
        r@ == path_join(bond_dir@, crate::pair_recovery::PENDING_BOND_FILE_NAME@),
{
    pending_bond_path(bond_dir)
}

/// The 16 bytes of a 32-digit hexadecimal transaction id, or
/// `MalformedJournal`.
pub fn hex_id(text: &str) -> (r: Result<[u8; 16], ReconcileError>)
    requires
        crate::text::hex_pairs_on_boundaries(text@),
    ensures
        match (r, spec_hex_id(encode_utf8(text@))) {
            (Ok(id), Some(v)) => id@ == v,
            (Err(e), None) => e == ReconcileError::MalformedJournal,
            _ => false,
        },
{
    match parse_hex_id(text) {
        Some(id) => Ok(id),
        None => Err(ReconcileError::MalformedJournal),
    }
}

/// The chars of an optional string.
pub open spec fn string_view(o: Option<String>) -> Option<Seq<char>> {
    match o {
        Some(s) => Some(s@),
        None => None,
    }
}

/// The chars of an optional string slice.
pub open spec fn str_view(o: Option<&str>) -> Option<Seq<char>> {
    match o {
        Some(s) => Some(s@),
        None => None,
    }
}

/// The local status a journal's `state` line records; a missing line reads
/// as `commit_pending`.
pub open spec fn spec_local_status(value: Option<Seq<char>>) -> Option<StatusState> {
    let v = match value {
        Some(v) => v,
        None => "commit_pending"@,
    };
    if v == "pre_commit"@ {
        Some(StatusState::PreCommit)
    } else if v == "commit_pending"@ {
        Some(StatusState::CommitPending)
    } else if v == "aborted"@ {
        Some(StatusState::Aborted)
    } else {
        None
    }
}

fn local_status(value: Option<String>) -> (r: Option<StatusState>)
    ensures
        r == spec_local_status(string_view(value)),
{
    let text = match value {
        Some(v) => v,
        None => "commit_pending".to_owned(),
    };
    proof {
        reveal_strlit("commit_pending");
    }
    if str_eq(text.as_str(), "pre_commit") {
        Some(StatusState::PreCommit)
    } else if str_eq(text.as_str(), "commit_pending") {
        Some(StatusState::CommitPending)
    } else if str_eq(text.as_str(), "aborted") {
        Some(StatusState::Aborted)
    } else {
        None
    }
}

/// The staged transaction recovered from the journal.
#[derive(Debug, Clone)]
pub struct RecoveredJournal {
    /// Transaction identifier bound to the staged attempt.
    pub id: [u8; 16],
    /// Stable peer identifier.
    pub peer_id: String,
    /// BlueZ address captured at staging time.
    pub peer_address: String,
    /// The coordinator's transaction, restored from the recorded status.
    pub transaction: Transaction,
}

/// Why recovery cannot start from this journal and staged store, in the order
/// the checks run; `None` when it can.
///
/// `pending` is what loading the staged store gave: the first staged bond's
/// peer id (`None` for an empty store), or the store's error text.
pub open spec fn spec_recover_error(
    journal: Option<Seq<char>>,
    pending: Result<Option<String>, String>,
) -> Option<ReconcileError> {
    match journal {
        None => Some(ReconcileError::NoJournal),
        Some(j) => if !(spec_field(j, "transaction_id"@) matches Some(t) && hex_pairs_on_boundaries(t)
            && spec_hex_id(encode_utf8(t)) is Some) {
            Some(ReconcileError::MalformedJournal)
        } else if spec_field(j, "peer_id"@) is None || spec_field(j, "peer_address"@) is None {
            Some(ReconcileError::MalformedJournal)
        } else {
            match pending {
                Err(m) => Some(ReconcileError::Bond(m)),
                Ok(None) => Some(ReconcileError::MalformedJournal),
                Ok(Some(p)) => if Some(p@) != spec_field(j, "peer_id"@) {
                    Some(ReconcileError::MalformedJournal)
                } else if spec_local_status(spec_field(j, "state"@)) is None {
                    Some(ReconcileError::MalformedJournal)
                } else {
                    None
                },
            }
        },
    }
}

/// Read the staged transaction back from the journal text (`None` when there
/// is no journal) and the staged bond store, checking that they name the same
/// peer.
pub fn recover_journal(journal: Option<&str>, pending: Result<Option<String>, String>) -> (r: Result<
    RecoveredJournal,
    ReconcileError,
>)
    ensures
        match r {
            Ok(rec) => {
                let j = journal.unwrap()@;
                &&& journal is Some
                &&& spec_recover_error(Some(j), pending) is None
                &&& Some(rec.id@) == spec_hex_id(encode_utf8(spec_field(j, "transaction_id"@).unwrap()))
                &&& Some(rec.peer_id@) == spec_field(j, "peer_id"@)
                &&& Some(rec.peer_address@) == spec_field(j, "peer_address"@)
                &&& rec.transaction@ == spec_recovery_view(
                    rec.id@,
                    Role::Coordinator,
                    spec_local_status(spec_field(j, "state"@)).unwrap(),
                )
            },
            Err(e) => spec_recover_error(str_view(journal), pending) == Some(e),
        },
{
    let text = match journal {
        Some(t) => t,
        None => return Err(ReconcileError::NoJournal),
    };
    let id_text = match field(text, "transaction_id") {
        Some(v) => v,
        None => return Err(ReconcileError::MalformedJournal),
    };
    if !hex_pairs_sliceable(id_text.as_str()) {
        return Err(ReconcileError::MalformedJournal);
    }
    let id = hex_id(id_text.as_str())?;
    let peer_id = match field(text, "peer_id") {
        Some(v) => v,
        None => return Err(ReconcileError::MalformedJournal),
    };
    let peer_address = match field(text, "peer_address") {
        Some(v) => v,
        None => return Err(ReconcileError::MalformedJournal),
    };
    let staged = match pending {
        Err(m) => return Err(ReconcileError::Bond(m)),
        Ok(None) => return Err(ReconcileError::MalformedJournal),
        Ok(Some(p)) => p,
    };
    if !str_eq(staged.as_str(), peer_id.as_str()) {
        return Err(ReconcileError::MalformedJournal);
    }
    let status = match local_status(field(text, "state")) {
        Some(s) => s,
        None => return Err(ReconcileError::MalformedJournal),
    };
    let transaction = match Transaction::from_recovery_status(id, Role::Coordinator, status) {
        Ok(t) => t,
        Err(e) => return Err(ReconcileError::Transaction(e.message().to_owned())),
    };
    Ok(RecoveredJournal { id, peer_id, peer_address, transaction })
}

/// `rand::rngs::OsRng::try_fill_bytes`: fill `dest` from the operating
/// system's random source; `false` when the source failed. Nothing is
/// stated of the bytes, which are random; the length never changes.
#[verifier::external_body]
pub(crate) fn os_fill_bytes(dest: &mut Vec<u8>) -> (ok: bool)
    ensures
        final(dest)@.len() == old(dest)@.len(),
{
    rand::rngs::OsRng.try_fill_bytes(dest.as_mut_slice()).is_ok()
}

/// `n` zero bytes.
pub(crate) fn zeroed(n: usize) -> (r: Vec<u8>)
    ensures
        r@ == Seq::new(n as nat, |i: int| 0u8),
{
    let mut r: Vec<u8> = Vec::new();
    let mut i: usize = 0;
    while i < n
        invariant
            i <= n,
            r@ == Seq::new(i as nat, |k: int| 0u8),
        decreases n - i,
    {
        r.push(0u8);
        i = i + 1;
        assert(r@ =~= Seq::new(i as nat, |k: int| 0u8));
    }
    r
}

/// A fresh nonce-bound status query for transaction `id`, with the nonce
/// the response must echo (eight random bytes, big-endian); `None` when the
/// OS random source failed, so no query can be bound to a fresh nonce.
pub fn status_query(id: [u8; 16]) -> (r: Option<(StatusMessage, u64)>)
    ensures
        r matches Some((q, nonce)) ==> q.transaction == id && q.nonce == nonce && q.state is None,
{
    let mut bytes = zeroed(8);
    if !os_fill_bytes(&mut bytes) {
        return None;
    }
    let nonce = crate::be_bytes::u64_from_be_at(bytes.as_slice(), 0);
    Some((StatusMessage::query(id, nonce), nonce))
}

/// What the durable outcome is once the transaction has settled.
pub open spec fn decision_of(t: TransactionView) -> ReconcileResult {
    match t.phase {
        Phase::Bonded => ReconcileResult::Bonded,
        Phase::Aborted(_) => ReconcileResult::Aborted,
        _ => ReconcileResult::Uncertain,
    }
}

/// The transaction after applying the peer's authenticated status, and the
/// outcome: the durable result, or the text of the refusal.
pub open spec fn spec_status_decision(t: TransactionView, response: StatusMessage, nonce: u64) -> (
    TransactionView,
    Result<ReconcileResult, Seq<char>>,
) {
    match response.state {
        None => (t, Err("query received instead of response"@)),
        Some(remote) => if response.transaction@ != t.id || response.nonce != nonce {
            (t, Err("different pairing transaction"@))
        } else {
            let t1 = spec_reconcile(t, remote);
            if remote == StatusState::Unknown || t1.phase == Phase::Uncertain {
                (t1, Ok(ReconcileResult::Uncertain))
            } else if t1.phase == Phase::Committed {
                match spec_local(t1, LocalEvent::Committed) {
                    None => (t1, Err("invalid pairing transition"@)),
                    Some(t2) => {
                        let t3 = spec_reconcile(t2, remote);
                        (t3, Ok(decision_of(t3)))
                    },
                }
            } else {
                (t1, Ok(decision_of(t1)))
            }
        },
    }
}

fn transaction_error(e: TransactionError) -> (r: ReconcileError)
    ensures
        r matches ReconcileError::Transaction(m) && m@ == e.spec_message(),
{
    ReconcileError::Transaction(e.message().to_owned())
}

/// Apply the authenticated remote status to a recovered transaction and say
/// what happens to the staging: `Bonded` promotes it, `Aborted` discards it,
/// `Uncertain` keeps it for a later run.
pub fn apply_status_decision(tx: &mut Transaction, response: StatusMessage, nonce: u64) -> (r: Result<
    ReconcileResult,
    ReconcileError,
>)
    ensures
        final(tx)@ == spec_status_decision(old(tx)@, response, nonce).0,
        match (r, spec_status_decision(old(tx)@, response, nonce).1) {
            (Ok(a), Ok(b)) => a == b,
            (Err(ReconcileError::Transaction(m)), Err(text)) => m@ == text,
            _ => false,
        },
{
    let remote = match response.state {
        Some(s) => s,
        None => return Err(ReconcileError::Transaction("query received instead of response".to_owned())),
    };
    match tx.apply_status_response(response, nonce) {
        Ok(_) => {},
        Err(e) => return Err(transaction_error(e)),
    }
    if remote == StatusState::Unknown || tx.phase() == Phase::Uncertain {
        return Ok(ReconcileResult::Uncertain);
    }
    if tx.phase() == Phase::Committed {
        match tx.local(LocalEvent::Committed) {
            Ok(()) => {},
            Err(e) => return Err(transaction_error(e)),
        }
        match tx.reconcile_status(remote) {
            Ok(_) => {},
            Err(e) => return Err(transaction_error(e)),
        }
    }
    match tx.phase() {
        Phase::Bonded => Ok(ReconcileResult::Bonded),
        Phase::Aborted(_) => Ok(ReconcileResult::Aborted),
        _ => Ok(ReconcileResult::Uncertain),
    }
}

/// How the reconcile verb ends: a settled outcome succeeds, and so do a
/// missing journal (crash recovery only; nothing to reconcile) and an
/// unreachable peer (the staging is kept for a later run). Every other
/// error fails the verb.
pub fn cli_outcome(r: Result<ReconcileResult, ReconcileError>) -> (o: Result<(), ReconcileError>)
    ensures
        o == match r {
            Ok(_) => Ok::<(), ReconcileError>(()),
            Err(ReconcileError::NoJournal) => Ok::<(), ReconcileError>(()),
            Err(ReconcileError::Transport(_)) => Ok::<(), ReconcileError>(()),
            Err(e) => Err::<(), ReconcileError>(e),
        },
{
    match r {
        Ok(_) => Ok(()),
        Err(ReconcileError::NoJournal) => Ok(()),
        Err(ReconcileError::Transport(_)) => Ok(()),
        Err(e) => Err(e),
    }
}

/// How a failed promotion of the staged bond is reported: a filesystem error
/// stays one, anything else is a refused transaction.
pub fn finalize_error(err: RecoveryError) -> (r: ReconcileError)
    ensures
        match err {
            RecoveryError::Io(s) => r == ReconcileError::Io(s),
            other => r matches ReconcileError::Transaction(m) && m@ == other.spec_message(),
        },
{
    match err {
        RecoveryError::Io(s) => ReconcileError::Io(s),
        other => ReconcileError::Transaction(other.message()),
    }
}

/// Recovery promotes the staged bond only when the peer reports that it
/// committed: its authenticated status is `Committed` or `Bonded`.
pub proof fn lemma_promotion_needs_remote_commit(t: TransactionView, response: StatusMessage, nonce: u64)
    requires
        t.gates_hold(),
        spec_status_decision(t, response, nonce).1 == Ok::<ReconcileResult, Seq<char>>(
            ReconcileResult::Bonded,
        ),
    ensures
        response.state == Some(StatusState::Committed) || response.state == Some(StatusState::Bonded),
{
}

/// Recovery never discards a staging whose local commit decision is durable:
/// the staging is dropped only when the local status is `PreCommit` or
/// `Aborted`.
pub proof fn lemma_durable_commit_is_never_discarded(t: TransactionView, response: StatusMessage, nonce: u64)
    requires
        t.gates_hold(),
        spec_status_decision(t, response, nonce).1 == Ok::<ReconcileResult, Seq<char>>(
            ReconcileResult::Aborted,
        ),
    ensures
        t.status() == StatusState::PreCommit || t.status() == StatusState::Aborted,
{
}

/// Recovery of a transaction whose local commit decision is durable (no
/// committed record yet): a matching peer status of `Committed` or `Bonded`
/// promotes the staging, any other matching status keeps it (`Uncertain`),
/// and it is never discarded. A query, or a response for another
/// transaction or nonce, is refused and changes nothing.
pub proof fn lemma_commit_pending_recovery(t: TransactionView, response: StatusMessage, nonce: u64)
    requires
        t.phase == Phase::CommitPending,
        t.committed == (false, false),
    ensures
        ({
            let (after, r) = spec_status_decision(t, response, nonce);
            &&& r != Ok::<ReconcileResult, Seq<char>>(ReconcileResult::Aborted)
            &&& forall|s: StatusState|
                response.state == Some(s) && response.transaction@ == t.id && response.nonce == nonce
                    ==> r == Ok::<ReconcileResult, Seq<char>>(
                    if s == StatusState::Committed || s == StatusState::Bonded {
                        ReconcileResult::Bonded
                    } else {
                        ReconcileResult::Uncertain
                    },
                )
            &&& r is Err ==> after == t
        }),
{
}

/// The transaction recovery rebuilds from a `commit_pending` journal is one
/// `lemma_commit_pending_recovery` speaks of.
pub proof fn lemma_recovered_commit_pending(id: Seq<u8>, role: Role)
    ensures
        spec_recovery_view(id, role, StatusState::CommitPending).phase == Phase::CommitPending,
        spec_recovery_view(id, role, StatusState::CommitPending).committed == (false, false),
{
}

/// A peer status that is `Unknown` leaves the outcome inconclusive, so the
/// staging is always retained.
pub proof fn lemma_unknown_status_retains(t: TransactionView, response: StatusMessage, nonce: u64)
    requires
        response.state == Some(StatusState::Unknown),
        response.transaction@ == t.id,
        response.nonce == nonce,
    ensures
        spec_status_decision(t, response, nonce).1 == Ok::<ReconcileResult, Seq<char>>(
            ReconcileResult::Uncertain,
        ),
{
}

} // verus!
