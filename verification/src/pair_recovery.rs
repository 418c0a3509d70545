//! Durable staging, promotion and recovery for the V2 pairing transaction:
//! the on-disk names and the secret-free journal format.
//!
//! - `<bond_dir>/pairing-v2.journal` — secret-free transaction marker,
//! - `<bond_dir>/pairing-v2.pending` — staged inactive bond store,
//! - `<bond_dir>/keys/.pending-<peer_id>.bin` — staged bond key.
//!
//! The active trust (`bonds.toml` + `keys/<peer_id>.bin`) is written only by
//! promotion, after the bilateral V2 `COMMITTED`.
use vstd::prelude::*;
use vstd::utf8::encode_utf8;
use vstd::string::StringExecFns;
use crate::paths::{path_join, join_path};
use crate::bonds::BondSummary;
use crate::text::{
    spec_field, field, spec_hex_id, hex_pairs_on_boundaries, hex_pairs_sliceable, parse_hex_id,
    hex_lower, push_hex_lower, str_eq, has_char, lines, field_in_lines, lemma_lines_cons,
    lemma_hex_lower_ascii, lemma_hex_id_roundtrip,
};

verus! {

/// Active bond store filename.
pub const BONDS_FILE_NAME: &'static str = "bonds.toml";
/// Per-peer key directory name under the bond directory.
pub const KEYS_DIR_NAME: &'static str = "keys";
/// Per-peer key file extension.
pub const KEY_FILE_EXT: &'static str = ".bin";
/// Secret-free durable marker for an in-flight V2 commit.
pub const JOURNAL_FILE_NAME: &'static str = "pairing-v2.journal";
/// Staged inactive bond store filename.
pub const PENDING_BOND_FILE_NAME: &'static str = "pairing-v2.pending";
/// Prefix of the staged per-peer key file.
pub const PENDING_KEY_PREFIX: &'static str = ".pending-";

/// Recovery error surface.
#[derive(Debug, Clone, PartialEq, Eq)]
pub enum RecoveryError {
    /// Filesystem failure while staging, promoting or discarding.
    Io(String),
    /// Bond store failure while staging or promoting.
    Bond(String),
    /// The journal or staged bond is missing or malformed.
    Malformed,
}

impl RecoveryError {
    /// The human-readable text of the error.
    pub open spec fn spec_message(self) -> Seq<char> {
        match self {
            RecoveryError::Io(s) => "pair recovery i/o error: "@ + s@,
            RecoveryError::Bond(s) => "pair recovery bond error: "@ + s@,
            RecoveryError::Malformed => "pair recovery state is malformed"@,
        }
    }

    /// The human-readable text of the error.
    pub fn message(&self) -> (r: String)
        ensures
            r@ == self.spec_message(),
    {
        match self {
            RecoveryError::Io(s) => "pair recovery i/o error: ".to_owned().concat(s.as_str()),
            RecoveryError::Bond(s) => "pair recovery bond error: ".to_owned().concat(s.as_str()),
            RecoveryError::Malformed => "pair recovery state is malformed".to_owned(),
        }
    }
}

/// Coarse journal state. It distinguishes a staged attempt that has not yet
/// recorded a local commit decision from one that has, so recovery can tell a
/// definitely aborted transaction from a possibly committed one.
#[derive(Debug, Clone, Copy, PartialEq, Eq, Structural)]
pub enum JournalState {
    /// Staged; no local commit decision recorded yet.
    PreCommit,
    /// The local commit decision is durable.
    CommitPending,
}

impl JournalState {
    /// The journal spelling of the state.
    pub open spec fn spec_as_str(self) -> Seq<char> {
        match self {
            JournalState::PreCommit => "pre_commit"@,
            JournalState::CommitPending => "commit_pending"@,
        }
    }

    fn as_str(self) -> (s: &'static str)
        ensures
            s@ == self.spec_as_str(),
    {
        match self {
            JournalState::PreCommit => "pre_commit",
            JournalState::CommitPending => "commit_pending",
        }
    }
}

/// Parsed `pairing-v2.journal`. Contains no secret material.
#[derive(Debug, Clone, PartialEq, Eq)]
pub struct JournalRecord {
    /// Transaction identifier bound to the staged attempt.
    pub transaction: [u8; 16],
    /// Stable peer identifier.
    pub peer_id: String,
    /// BlueZ address captured at staging time.
    pub peer_address: String,
    /// Durable local decision state.
    pub state: JournalState,
}

/// Path of the active bond store.
pub fn bonds_path(bond_dir: &str) -> (r: String)
    ensures
        r@ == path_join(bond_dir@, BONDS_FILE_NAME@),
{
    join_path(bond_dir, BONDS_FILE_NAME)
}

/// Path of the recovery journal.
pub fn journal_path(bond_dir: &str) -> (r: String)
    ensures
        r@ == path_join(bond_dir@, JOURNAL_FILE_NAME@),
{
    join_path(bond_dir, JOURNAL_FILE_NAME)
}

/// Path of the staged inactive bond store.
pub fn pending_bond_path(bond_dir: &str) -> (r: String)
    ensures
        r@ == path_join(bond_dir@, PENDING_BOND_FILE_NAME@),
{
    join_path(bond_dir, PENDING_BOND_FILE_NAME)
}

/// Path of the per-peer key directory.
pub fn keys_dir(bond_dir: &str) -> (r: String)
    ensures
        r@ == path_join(bond_dir@, KEYS_DIR_NAME@),
{
    join_path(bond_dir, KEYS_DIR_NAME)
}

/// Path of the active per-peer key.
pub fn active_key_path(bond_dir: &str, peer_id: &str) -> (r: String)
    ensures
        r@ == path_join(path_join(bond_dir@, KEYS_DIR_NAME@), peer_id@ + KEY_FILE_EXT@),
{
    let dir = keys_dir(bond_dir);
    let name = peer_id.to_owned().concat(KEY_FILE_EXT);
    join_path(dir.as_str(), name.as_str())
}

/// Path of the staged per-peer key.
pub fn pending_key_path(bond_dir: &str, peer_id: &str) -> (r: String)
    ensures
        r@ == path_join(
            path_join(bond_dir@, KEYS_DIR_NAME@),
            PENDING_KEY_PREFIX@ + peer_id@ + KEY_FILE_EXT@,
        ),
{
    let dir = keys_dir(bond_dir);
    let name = PENDING_KEY_PREFIX.to_owned().concat(peer_id).concat(KEY_FILE_EXT);
    join_path(dir.as_str(), name.as_str())
}

/// The five journal lines: version, transaction id in lowercase hex, peer
/// id, peer address and state, each ended by `\n`.
pub open spec fn journal_text(
    transaction: Seq<u8>,
    peer_id: Seq<char>,
    peer_address: Seq<char>,
    state: JournalState,
) -> Seq<char> {
    "version=2"@ + seq!['\n'] + "transaction_id="@ + hex_lower(transaction) + seq!['\n']
        + "peer_id="@ + peer_id + seq!['\n'] + "peer_address="@ + peer_address + seq!['\n']
        + "state="@ + state.spec_as_str() + seq!['\n']
}

/// The text `write_journal` stores for one staged attempt.
pub fn journal_contents(
    transaction: [u8; 16],
    peer_id: &str,
    peer_address: &str,
    state: JournalState,
) -> (r: String)
    ensures
        r@ == journal_text(transaction@, peer_id@, peer_address@, state),
{
    proof {
        reveal_strlit("\n");
    }
    let mut r = "version=2".to_owned();
    r.append("\n");
    r.append("transaction_id=");
    push_hex_lower(&mut r, &transaction);
    r.append("\n");
    r.append("peer_id=");
    r.append(peer_id);
    r.append("\n");
    r.append("peer_address=");
    r.append(peer_address);
    r.append("\n");
    r.append("state=");
    r.append(state.as_str());
    r.append("\n");
    assert("\n"@ =~= seq!['\n']);
    assert(r@ =~= journal_text(transaction@, peer_id@, peer_address@, state));
    r
}

/// The state a journal's `state` line names; a missing line reads as
/// `pre_commit`.
pub open spec fn spec_journal_state(value: Option<Seq<char>>) -> Option<JournalState> {
    match value {
        None => Some(JournalState::PreCommit),
        Some(v) => if v == "pre_commit"@ {
            Some(JournalState::PreCommit)
        } else if v == "commit_pending"@ {
            Some(JournalState::CommitPending)
        } else {
            None
        },
    }
}

/// A journal text whose transaction id can be sliced into byte pairs.
pub open spec fn journal_sliceable(text: Seq<char>) -> bool {
    spec_field(text, "transaction_id"@) matches Some(v) ==> hex_pairs_on_boundaries(v)
}

/// The journal fields that parse: a transaction id of 32 hex digits whose
/// byte pairs are whole chars, a known or absent state, a peer id and a peer
/// address.
pub open spec fn spec_journal_ok(text: Seq<char>) -> bool {
    &&& spec_field(text, "transaction_id"@) matches Some(id) && hex_pairs_on_boundaries(id)
        && spec_hex_id(encode_utf8(id)) is Some
    &&& spec_journal_state(spec_field(text, "state"@)) is Some
    &&& spec_field(text, "peer_id"@) is Some
    &&& spec_field(text, "peer_address"@) is Some
}

/// Whether the journal's transaction id can be sliced into byte pairs; the
/// parser's own check would stop on a char that straddles a pair.
pub fn journal_is_sliceable(text: &str) -> (b: bool)
    ensures
        b == journal_sliceable(text@),
{
    match field(text, "transaction_id") {
        Some(v) => hex_pairs_sliceable(v.as_str()),
        None => true,
    }
}

/// Parse the text of the recovery journal.
pub fn parse_journal(text: &str) -> (r: Result<JournalRecord, RecoveryError>)
    ensures
        r is Ok <==> spec_journal_ok(text@),
        match r {
            Ok(rec) => {
                &&& Some(rec.transaction@) == spec_hex_id(
                    encode_utf8(spec_field(text@, "transaction_id"@).unwrap()),
                )
                &&& Some(rec.peer_id@) == spec_field(text@, "peer_id"@)
                &&& Some(rec.peer_address@) == spec_field(text@, "peer_address"@)
                &&& Some(rec.state) == spec_journal_state(spec_field(text@, "state"@))
            },
            Err(e) => e == RecoveryError::Malformed,
        },
{
    let id_text = match field(text, "transaction_id") {
        Some(v) => v,
        None => return Err(RecoveryError::Malformed),
    };
    if !hex_pairs_sliceable(id_text.as_str()) {
        return Err(RecoveryError::Malformed);
    }
    let transaction = match parse_hex_id(id_text.as_str()) {
        Some(id) => id,
        None => return Err(RecoveryError::Malformed),
    };
    let state = match field(text, "state") {
        None => JournalState::PreCommit,
        Some(v) => {
            if str_eq(v.as_str(), "pre_commit") {
                JournalState::PreCommit
            } else if str_eq(v.as_str(), "commit_pending") {
                JournalState::CommitPending
            } else {
                return Err(RecoveryError::Malformed);
            }
        },
    };
    let peer_id = match field(text, "peer_id") {
        Some(v) => v,
        None => return Err(RecoveryError::Malformed),
    };
    let peer_address = match field(text, "peer_address") {
        Some(v) => v,
        None => return Err(RecoveryError::Malformed),
    };
    Ok(JournalRecord { transaction, peer_id, peer_address, state })
}

/// Record the durable local commit decision in the journal: the new journal
/// text, or `Malformed` when there is no journal or it does not parse.
pub fn mark_commit_pending(journal: Option<&str>) -> (r: Result<String, RecoveryError>)
    ensures
        match journal {
            None => r == Err::<String, RecoveryError>(RecoveryError::Malformed),
            Some(t) => match r {
                Ok(new_text) => spec_journal_ok(t@) && new_text@ == journal_text(
                    spec_hex_id(encode_utf8(spec_field(t@, "transaction_id"@).unwrap())).unwrap(),
                    spec_field(t@, "peer_id"@).unwrap(),
                    spec_field(t@, "peer_address"@).unwrap(),
                    JournalState::CommitPending,
                ),
                Err(e) => !spec_journal_ok(t@) && e == RecoveryError::Malformed,
            },
        },
{
    let text = match journal {
        Some(t) => t,
        None => return Err(RecoveryError::Malformed),
    };
    let record = match parse_journal(text) {
        Ok(rec) => rec,
        Err(e) => return Err(e),
    };
    Ok(
        journal_contents(
            record.transaction,
            record.peer_id.as_str(),
            record.peer_address.as_str(),
            JournalState::CommitPending,
        ),
    )
}


/// A journal value that stays on its own line: no `\n`, no final `\r`.
pub open spec fn single_line(v: Seq<char>) -> bool {
    !has_char(v, '\n') && (v.len() > 0 ==> v.last() != '\r')
}

proof fn lemma_concat_single_line(a: Seq<char>, b: Seq<char>)
    requires
        !has_char(a, '\n'),
        single_line(b),
        b.len() > 0,
    ensures
        single_line(a + b),
{
    let c = a + b;
    assert(c.last() == b.last());
    if has_char(c, '\n') {
        let i = choose|i: int| 0 <= i < c.len() && c[i] == '\n';
        if i < a.len() {
            assert(a[i] == '\n');
        } else {
            assert(b[i - a.len()] == '\n');
        }
    }
}

/// The five journal lines, without their line breaks.
pub open spec fn journal_lines(
    transaction: Seq<u8>,
    peer_id: Seq<char>,
    peer_address: Seq<char>,
    state: JournalState,
) -> Seq<Seq<char>> {
    seq![
        "version=2"@,
        "transaction_id="@ + hex_lower(transaction),
        "peer_id="@ + peer_id,
        "peer_address="@ + peer_address,
        "state="@ + state.spec_as_str(),
    ]
}

proof fn lemma_literal_single_line(v: Seq<char>)
    requires
        v.len() > 0,
        forall|i: int| 0 <= i < v.len() ==> v[i] != '\n' && v[i] != '\r',
    ensures
        single_line(v),
{
}

#[verifier::rlimit(40)]
proof fn lemma_journal_text_lines(
    transaction: Seq<u8>,
    peer_id: Seq<char>,
    peer_address: Seq<char>,
    state: JournalState,
)
    requires
        transaction.len() == 16,
        single_line(peer_id),
        single_line(peer_address),
    ensures
        lines(journal_text(transaction, peer_id, peer_address, state)) == journal_lines(
            transaction,
            peer_id,
            peer_address,
            state,
        ),
{
    reveal_strlit("version=2");
    reveal_strlit("transaction_id=");
    reveal_strlit("peer_id=");
    reveal_strlit("peer_address=");
    reveal_strlit("state=");
    reveal_strlit("pre_commit");
    reveal_strlit("commit_pending");
    let nl = seq!['\n'];
    let hex = hex_lower(transaction);
    lemma_hex_lower_ascii(transaction);
    let ls = journal_lines(transaction, peer_id, peer_address, state);
    let (l1, l2, l3, l4, l5) = (ls[0], ls[1], ls[2], ls[3], ls[4]);
    let r5 = l5 + nl;
    let r4 = l4 + nl + r5;
    let r3 = l3 + nl + r4;
    let r2 = l2 + nl + r3;
    assert(journal_text(transaction, peer_id, peer_address, state) =~= l1 + nl + r2);
    lemma_literal_single_line("version=2"@);
    lemma_literal_single_line("transaction_id="@);
    lemma_literal_single_line("peer_id="@);
    lemma_literal_single_line("peer_address="@);
    lemma_literal_single_line("state="@);
    lemma_literal_single_line(state.spec_as_str());
    lemma_concat_single_line("transaction_id="@, hex);
    if peer_id.len() > 0 {
        lemma_concat_single_line("peer_id="@, peer_id);
    } else {
        assert(l3 =~= "peer_id="@);
    }
    if peer_address.len() > 0 {
        lemma_concat_single_line("peer_address="@, peer_address);
    } else {
        assert(l4 =~= "peer_address="@);
    }
    lemma_concat_single_line("state="@, state.spec_as_str());
    lemma_lines_cons(l1, r2);
    lemma_lines_cons(l2, r3);
    lemma_lines_cons(l3, r4);
    lemma_lines_cons(l4, r5);
    assert(r5 =~= l5 + nl + Seq::<char>::empty());
    lemma_lines_cons(l5, Seq::<char>::empty());
    assert(lines(Seq::<char>::empty()) =~= Seq::<Seq<char>>::empty());
    assert(lines(l1 + nl + r2) =~= ls);
}

#[verifier::rlimit(40)]
proof fn lemma_journal_line_fields(
    transaction: Seq<u8>,
    peer_id: Seq<char>,
    peer_address: Seq<char>,
    state: JournalState,
)
    ensures
        ({
            let ls = journal_lines(transaction, peer_id, peer_address, state);
            &&& field_in_lines(ls, "transaction_id"@) == Some(hex_lower(transaction))
            &&& field_in_lines(ls, "peer_id"@) == Some(peer_id)
            &&& field_in_lines(ls, "peer_address"@) == Some(peer_address)
            &&& field_in_lines(ls, "state"@) == Some(state.spec_as_str())
        }),
{
    reveal_strlit("version=2");
    reveal_strlit("transaction_id=");
    reveal_strlit("peer_id=");
    reveal_strlit("peer_address=");
    reveal_strlit("state=");
    reveal_strlit("transaction_id");
    reveal_strlit("peer_id");
    reveal_strlit("peer_address");
    reveal_strlit("state");
    let ls = journal_lines(transaction, peer_id, peer_address, state);
    let (l1, l2, l3, l4, l5) = (ls[0], ls[1], ls[2], ls[3], ls[4]);
    let d1 = ls.drop_first();
    let d2 = d1.drop_first();
    let d3 = d2.drop_first();
    let d4 = d3.drop_first();
    assert(d1[0] == l2 && d2[0] == l3 && d3[0] == l4 && d4[0] == l5);
    // transaction_id: the second line
    assert(l2.subrange(0, 14) =~= "transaction_id"@);
    assert(l2.subrange(15, l2.len() as int) =~= hex_lower(transaction));
    // peer_id: the third line
    assert(l1.subrange(0, 7)[0] != "peer_id"@[0]);
    assert(l2.subrange(0, 7)[0] != "peer_id"@[0]);
    assert(l3.subrange(0, 7) =~= "peer_id"@);
    assert(l3.subrange(8, l3.len() as int) =~= peer_id);
    // peer_address: the fourth line
    assert(l2.subrange(0, 12)[0] != "peer_address"@[0]);
    if l3.len() > 12 {
        assert(l3.subrange(0, 12)[5] != "peer_address"@[5]);
    }
    assert(l4.subrange(0, 12) =~= "peer_address"@);
    assert(l4.subrange(13, l4.len() as int) =~= peer_address);
    // state: the fifth line
    assert(l1.subrange(0, 5)[0] != "state"@[0]);
    assert(l2.subrange(0, 5)[0] != "state"@[0]);
    assert(l3.subrange(0, 5)[0] != "state"@[0]);
    assert(l4.subrange(0, 5)[0] != "state"@[0]);
    assert(l5.subrange(0, 5) =~= "state"@);
    assert(l5.subrange(6, l5.len() as int) =~= state.spec_as_str());
    assert(field_in_lines(d1, "transaction_id"@) == Some(hex_lower(transaction)));
    assert(field_in_lines(d2, "peer_id"@) == Some(peer_id));
    assert(field_in_lines(d1, "peer_id"@) == Some(peer_id));
    assert(field_in_lines(d3, "peer_address"@) == Some(peer_address));
    assert(field_in_lines(d2, "peer_address"@) == Some(peer_address));
    assert(field_in_lines(d1, "peer_address"@) == Some(peer_address));
    assert(field_in_lines(d4, "state"@) == Some(state.spec_as_str()));
    assert(field_in_lines(d3, "state"@) == Some(state.spec_as_str()));
    assert(field_in_lines(d2, "state"@) == Some(state.spec_as_str()));
    assert(field_in_lines(d1, "state"@) == Some(state.spec_as_str()));
}

/// What the journal writer stores, the journal reader gives back: the
/// transaction id, peer id, peer address and state, whenever the peer id and
/// address each stay on one line.
pub proof fn lemma_journal_roundtrip(
    transaction: Seq<u8>,
    peer_id: Seq<char>,
    peer_address: Seq<char>,
    state: JournalState,
)
    requires
        transaction.len() == 16,
        single_line(peer_id),
        single_line(peer_address),
    ensures
        ({
            let text = journal_text(transaction, peer_id, peer_address, state);
            &&& journal_sliceable(text)
            &&& spec_journal_ok(text)
            &&& spec_hex_id(encode_utf8(spec_field(text, "transaction_id"@).unwrap())) == Some(
                transaction,
            )
            &&& spec_field(text, "peer_id"@) == Some(peer_id)
            &&& spec_field(text, "peer_address"@) == Some(peer_address)
            &&& spec_journal_state(spec_field(text, "state"@)) == Some(state)
        }),
{
    lemma_journal_text_lines(transaction, peer_id, peer_address, state);
    lemma_journal_line_fields(transaction, peer_id, peer_address, state);
    lemma_hex_id_roundtrip(transaction);
    reveal_strlit("pre_commit");
    reveal_strlit("commit_pending");
    assert("pre_commit"@ != "commit_pending"@) by {
        assert("pre_commit"@[0] != "commit_pending"@[0]);
    }
}


/// Width of the bond key a staged or active key file holds.
pub const BOND_KEY_DERIVED_BYTES: usize = 32;

/// Some record of `store` belongs to `peer_id`.
pub open spec fn holds_peer(store: Seq<BondSummary>, peer_id: Seq<char>) -> bool {
    exists|j: int| 0 <= j < store.len() && #[trigger] store[j].peer_id@ == peer_id
}

/// Record `j` is the first record of `store` that belongs to `peer_id`.
pub open spec fn is_first_of_peer(store: Seq<BondSummary>, peer_id: Seq<char>, j: int) -> bool {
    &&& 0 <= j < store.len()
    &&& store[j].peer_id@ == peer_id
    &&& forall|k: int| 0 <= k < j ==> #[trigger] store[k].peer_id@ != peer_id
}

/// A record of some other peer than `peer_id`.
pub open spec fn other_peer(peer_id: Seq<char>) -> spec_fn(BondSummary) -> bool {
    |b: BondSummary| b.peer_id@ != peer_id
}

/// A record of the peer `peer_id`.
pub open spec fn same_peer(peer_id: Seq<char>) -> spec_fn(BondSummary) -> bool {
    |b: BondSummary| b.peer_id@ == peer_id
}

/// The active store after promoting `bond`: every record of its peer is
/// replaced by it, at the end; the other records keep their order.
pub open spec fn promoted_store(active: Seq<BondSummary>, bond: BondSummary) -> Seq<BondSummary> {
    active.filter(other_peer(bond.peer_id@)).push(bond)
}

/// The key promotion can go ahead: a staged key of exactly the bond-key
/// width, or, with no staged key, an active key already in place.
pub open spec fn promote_key_ok(staged_key: Option<Seq<u8>>, active_key_exists: bool) -> bool {
    match staged_key {
        Some(k) => k.len() == BOND_KEY_DERIVED_BYTES,
        None => active_key_exists,
    }
}

/// The bytes of an optional slice.
pub open spec fn bytes_view(b: Option<&[u8]>) -> Option<Seq<u8>> {
    match b {
        Some(s) => Some(s@),
        None => None,
    }
}

fn copy_bond(b: &BondSummary) -> (r: BondSummary)
    ensures
        r == *b,
{
    BondSummary { peer_id: b.peer_id.clone(), bonded: b.bonded, created_at_nanos: b.created_at_nanos }
}

/// The index of the first record of `store` that belongs to `peer_id`.
pub fn first_of_peer(store: &[BondSummary], peer_id: &str) -> (r: Option<usize>)
    ensures
        match r {
            Some(j) => is_first_of_peer(store@, peer_id@, j as int),
            None => !holds_peer(store@, peer_id@),
        },
{
    let mut j: usize = 0;
    while j < store.len()
        invariant
            j <= store@.len(),
            forall|k: int| 0 <= k < j ==> #[trigger] store@[k].peer_id@ != peer_id@,
        decreases store@.len() - j,
    {
        if str_eq(store[j].peer_id.as_str(), peer_id) {
            return Some(j);
        }
        j = j + 1;
    }
    None
}

/// What promoting `peer_id` writes, from the staged store, the active store,
/// the staged key file's bytes (`None` when there is none) and whether an
/// active key file exists: the new active store, and the key to write as
/// the active key (`None` keeps the active key in place).
///
/// The peer must be staged, and its key must be either staged at the
/// bond-key width or already active; otherwise the staging is `Malformed`.
/// Promotion is the only writer of active trust, and it replaces the peer's
/// record rather than adding a second one, so promoting twice changes
/// nothing more.
pub fn promote_plan(
    staged: &[BondSummary],
    active: &[BondSummary],
    peer_id: &str,
    staged_key: Option<&[u8]>,
    active_key_exists: bool,
) -> (r: Result<(Vec<BondSummary>, Option<Vec<u8>>), RecoveryError>)
    ensures
        r is Ok <==> holds_peer(staged@, peer_id@) && promote_key_ok(bytes_view(staged_key), active_key_exists),
        match r {
            Ok((a, k)) => {
                &&& forall|j: int| is_first_of_peer(staged@, peer_id@, j) ==> a@ == promoted_store(active@, staged@[j])
                &&& match k {
                    Some(v) => bytes_view(staged_key) == Some(v@),
                    None => staged_key is None,
                }
            },
            Err(e) => e == RecoveryError::Malformed,
        },
{
    let j = match first_of_peer(staged, peer_id) {
        Some(j) => j,
        None => return Err(RecoveryError::Malformed),
    };
    let key = match staged_key {
        Some(k) => {
            if k.len() != BOND_KEY_DERIVED_BYTES {
                return Err(RecoveryError::Malformed);
            }
            Some(vstd::slice::slice_to_vec(k))
        },
        None => {
            if !active_key_exists {
                return Err(RecoveryError::Malformed);
            }
            None
        },
    };
    let ghost id = peer_id@;
    let mut a: Vec<BondSummary> = Vec::new();
    let mut i: usize = 0;
    while i < active.len()
        invariant
            i <= active@.len(),
            id == peer_id@,
            a@ == active@.take(i as int).filter(other_peer(id)),
        decreases active@.len() - i,
    {
        let ghost t = active@.take(i + 1);
        assert(t.drop_last() =~= active@.take(i as int));
        assert(t.last() == active@[i as int]);
        assert(t.filter(other_peer(id)) == if other_peer(id)(t.last()) {
            t.drop_last().filter(other_peer(id)).push(t.last())
        } else {
            t.drop_last().filter(other_peer(id))
        }) by {
            reveal(Seq::filter);
        }
        if !str_eq(active[i].peer_id.as_str(), peer_id) {
            a.push(copy_bond(&active[i]));
        }
        i = i + 1;
    }
    assert(active@.take(active@.len() as int) =~= active@);
    let bond = copy_bond(&staged[j]);
    a.push(bond);
    proof {
        assert forall|k: int| is_first_of_peer(staged@, peer_id@, k) implies k == j by {
            if k < j {
                assert(staged@[k].peer_id@ != peer_id@);
            } else if k > j {
                assert(staged@[j as int].peer_id@ != peer_id@);
            }
        }
    }
    Ok((a, key))
}

proof fn lemma_filter_idempotent(s: Seq<BondSummary>, p: spec_fn(BondSummary) -> bool)
    ensures
        s.filter(p).filter(p) == s.filter(p),
    decreases s.len(),
{
    reveal(Seq::filter);
    if s.len() > 0 {
        lemma_filter_idempotent(s.drop_last(), p);
        let f = s.drop_last().filter(p);
        if p(s.last()) {
            f.lemma_filter_push(s.last(), p);
        }
    }
}

/// Promotion is idempotent: promoting the same staged bond into the store a
/// promotion wrote changes nothing, and the peer holds exactly one record.
pub proof fn lemma_promote_is_idempotent(active: Seq<BondSummary>, bond: BondSummary)
    ensures
        promoted_store(promoted_store(active, bond), bond) == promoted_store(active, bond),
        promoted_store(active, bond).filter(same_peer(bond.peer_id@)).len() == 1,
{
    let p = other_peer(bond.peer_id@);
    let f = active.filter(p);
    f.lemma_filter_push(bond, p);
    lemma_filter_idempotent(active, p);
    f.lemma_filter_push(bond, same_peer(bond.peer_id@));
    lemma_filter_none(active, bond.peer_id@);
}

proof fn lemma_filter_none(s: Seq<BondSummary>, id: Seq<char>)
    ensures
        s.filter(other_peer(id)).filter(same_peer(id)).len() == 0,
    decreases s.len(),
{
    reveal(Seq::filter);
    if s.len() > 0 {
        lemma_filter_none(s.drop_last(), id);
        let f = s.drop_last().filter(other_peer(id));
        if other_peer(id)(s.last()) {
            f.lemma_filter_push(s.last(), same_peer(id));
        }
    }
}

/// What staging one attempt writes: the staged store holding only the
/// attempt's bond, the staged key and the `pre_commit` journal. Nothing of
/// the active trust is named.
pub struct StagePlan {
    /// Where the staged store goes.
    pub pending_store_path: String,
    /// The staged store's records.
    pub pending: Vec<BondSummary>,
    /// Where the staged key goes.
    pub key_path: String,
    /// The staged key's bytes.
    pub key: Vec<u8>,
    /// Where the journal goes.
    pub journal_path: String,
    /// The journal's text.
    pub journal: String,
}

/// The path of `peer_id`'s staged key under `bond_dir`.
pub open spec fn spec_pending_key_path(bond_dir: Seq<char>, peer_id: Seq<char>) -> Seq<char> {
    path_join(path_join(bond_dir, KEYS_DIR_NAME@), PENDING_KEY_PREFIX@ + peer_id + KEY_FILE_EXT@)
}

/// Stage `bond` and its key for transaction `transaction` with `peer_id` at
/// `peer_address`.
pub fn stage_plan(
    bond_dir: &str,
    transaction: [u8; 16],
    peer_id: &str,
    peer_address: &str,
    bond: &BondSummary,
    bond_key: &[u8; BOND_KEY_DERIVED_BYTES],
) -> (r: StagePlan)
    ensures
        r.pending_store_path@ == path_join(bond_dir@, PENDING_BOND_FILE_NAME@),
        r.pending@ == seq![*bond],
        r.key_path@ == spec_pending_key_path(bond_dir@, peer_id@),
        r.key@ == bond_key@,
        r.journal_path@ == path_join(bond_dir@, JOURNAL_FILE_NAME@),
        r.journal@ == journal_text(transaction@, peer_id@, peer_address@, JournalState::PreCommit),
{
    let mut pending: Vec<BondSummary> = Vec::new();
    pending.push(copy_bond(bond));
    assert(pending@ =~= seq![*bond]);
    StagePlan {
        pending_store_path: pending_bond_path(bond_dir),
        pending,
        key_path: pending_key_path(bond_dir, peer_id),
        key: vstd::slice::slice_to_vec(bond_key.as_slice()),
        journal_path: journal_path(bond_dir),
        journal: journal_contents(transaction, peer_id, peer_address, JournalState::PreCommit),
    }
}

/// The files that dropping every staged artifact removes, in order: the
/// staged key of each record of the staged store (`None` when it could not
/// be read), then the journal and the staged store.
pub fn discard_all_paths(bond_dir: &str, staged: Option<&[BondSummary]>) -> (r: Vec<String>)
    ensures
        ({
            let n = match staged {
                Some(s) => s@.len(),
                None => 0,
            };
            &&& r@.len() == n + 2
            &&& forall|i: int| 0 <= i < n ==> #[trigger] r@[i]@ == spec_pending_key_path(bond_dir@, staged.unwrap()@[i].peer_id@)
            &&& r@[n as int]@ == path_join(bond_dir@, JOURNAL_FILE_NAME@)
            &&& r@[n as int + 1]@ == path_join(bond_dir@, PENDING_BOND_FILE_NAME@)
        }),
{
    let mut r: Vec<String> = Vec::new();
    match staged {
        Some(s) => {
            let mut i: usize = 0;
            while i < s.len()
                invariant
                    i <= s@.len(),
                    r@.len() == i,
                    forall|k: int| 0 <= k < i ==> #[trigger] r@[k]@ == spec_pending_key_path(bond_dir@, s@[k].peer_id@),
                decreases s@.len() - i,
            {
                r.push(pending_key_path(bond_dir, s[i].peer_id.as_str()));
                i = i + 1;
            }
        },
        None => {},
    }
    r.push(journal_path(bond_dir));
    r.push(pending_bond_path(bond_dir));
    r
}

} // verus!
