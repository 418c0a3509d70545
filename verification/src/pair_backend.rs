//! The desktop side of `syauth pair`: presentation of the connected peer,
//! the operator's decision files, and the V2 coordinator that drives the
//! bilateral transaction over the authenticated GATT control channel.
use vstd::prelude::*;
use vstd::utf8::{valid_utf8, decode_utf8, encode_utf8};
use vstd::string::StrSliceExecFns;
use crate::text::{
    chars_of, is_control, char_is_control, trim, trim_chars, string_from_chars, string_bytes,
    str_from_utf8, str_eq,
};
use crate::pair_transaction::{
    Message, StatusMessage, StatusState, Operation, Transaction, TransactionView, TransactionError,
    LocalEvent, Role, spec_local, spec_remote, MESSAGE_LEN, STATUS_MESSAGE_LEN, same_id,
};
use crate::pair_engine::{message_for, frames_view, take_first_message};
use crate::be_bytes::copy_range;
use crate::pairing::{PairingRequest, OobRequest, BondedNotice, GuiEvent};
use crate::text::{decimal, zero_pad, format_zero_padded, is_whitespace, hex_char};
use crate::peripheral::{all_digits, digits_value, lemma_digits_value_grows};
use crate::paths::{path_join, join_path};
use vstd::string::StringExecFns;

verus! {

broadcast use vstd::utf8::group_utf8_lib;

/// Number of seconds per minute, used to floor the wall clock when deriving
/// the pair-mode session UUID.
pub const SECONDS_PER_MINUTE: i64 = 60;

/// Fallback display label when the connected peer has no usable Bluetooth
/// name.
pub const PAIR_CONNECTED_PEER_NAME: &'static str = "Telefono Android";

/// Longest display name kept, in chars.
pub const MAX_PEER_NAME_CHARS: usize = 128;

/// The first `n` chars of `s`.
pub open spec fn take_chars(s: Seq<char>, n: nat) -> Seq<char> {
    if s.len() <= n {
        s
    } else {
        s.subrange(0, n as int)
    }
}

/// Every control char replaced by a space.
pub open spec fn controls_to_spaces(s: Seq<char>) -> Seq<char> {
    s.map_values(|c: char| if is_control(c) { ' ' } else { c })
}

/// An ASCII uppercase letter made lowercase; every other byte kept.
pub open spec fn ascii_lower_byte(b: u8) -> u8 {
    if 0x41 <= b && b <= 0x5a {
        (b + 32) as u8
    } else {
        b
    }
}

/// `str::eq_ignore_ascii_case` on the UTF-8 bytes of two strings.
pub open spec fn eq_ignore_ascii_case(a: Seq<u8>, b: Seq<u8>) -> bool {
    a.len() == b.len() && forall|i: int| 0 <= i < a.len() ==> #[trigger] ascii_lower_byte(a[i])
        == ascii_lower_byte(b[i])
}

/// The display name of a connected peer: its Bluetooth label cut to 128
/// chars, control chars made spaces, trimmed; the fallback label when that
/// is empty or is merely the peer's address.
pub open spec fn spec_friendly_peer_name(name: Seq<char>, address: Seq<char>) -> Seq<char> {
    let d = trim(controls_to_spaces(take_chars(name, MAX_PEER_NAME_CHARS as nat)));
    if d.len() == 0 || eq_ignore_ascii_case(encode_utf8(d), encode_utf8(address)) {
        PAIR_CONNECTED_PEER_NAME@
    } else {
        d
    }
}

fn lower_byte(b: u8) -> (r: u8)
    ensures
        r == ascii_lower_byte(b),
{
    if 0x41 <= b && b <= 0x5a {
        b + 32
    } else {
        b
    }
}

/// `a.eq_ignore_ascii_case(b)` on byte strings.
pub fn bytes_eq_ignore_ascii_case(a: &[u8], b: &[u8]) -> (r: bool)
    ensures
        r == eq_ignore_ascii_case(a@, b@),
{
    if a.len() != b.len() {
        return false;
    }
    let mut i: usize = 0;
    while i < a.len()
        invariant
            a@.len() == b@.len(),
            i <= a@.len(),
            forall|j: int| 0 <= j < i ==> #[trigger] ascii_lower_byte(a@[j]) == ascii_lower_byte(b@[j]),
        decreases a@.len() - i,
    {
        if lower_byte(a[i]) != lower_byte(b[i]) {
            return false;
        }
        i = i + 1;
    }
    true
}

/// Convert an untrusted Bluetooth label to a single display name. Names are
/// presentation only; the peer's identity comes from its public key.
pub fn friendly_peer_name(name: &str, address: &str) -> (r: String)
    ensures
        r@ == spec_friendly_peer_name(name@, address@),
{
    let cs = chars_of(name);
    let n = if cs.len() < MAX_PEER_NAME_CHARS {
        cs.len()
    } else {
        MAX_PEER_NAME_CHARS
    };
    let ghost taken = take_chars(name@, MAX_PEER_NAME_CHARS as nat);
    assert(taken.len() == n);
    let mut mapped: Vec<char> = Vec::new();
    let mut i: usize = 0;
    while i < n
        invariant
            n <= cs@.len(),
            cs@ == name@,
            taken.len() == n,
            forall|j: int| 0 <= j < n ==> taken[j] == cs@[j],
            i <= n,
            mapped@ == controls_to_spaces(taken.subrange(0, i as int)),
        decreases n - i,
    {
        let c = cs[i];
        let m = if char_is_control(c) {
            ' '
        } else {
            c
        };
        mapped.push(m);
        i = i + 1;
        assert(mapped@ =~= controls_to_spaces(taken.subrange(0, i as int)));
    }
    assert(taken.subrange(0, n as int) =~= taken);
    let trimmed = trim_chars(&mapped);
    let display = string_from_chars(trimmed.as_slice());
    if trimmed.len() == 0 || bytes_eq_ignore_ascii_case(string_bytes(&display), address.as_bytes()) {
        PAIR_CONNECTED_PEER_NAME.to_owned()
    } else {
        display
    }
}

/// Whether `pat` occurs in `s` at index `i`.
pub open spec fn occurs_at(s: Seq<char>, pat: Seq<char>, i: int) -> bool {
    0 <= i && i + pat.len() <= s.len() && s.subrange(i, i + pat.len()) == pat
}

/// The first index at or after `i` where `pat` occurs in `s`.
pub open spec fn find_from(s: Seq<char>, pat: Seq<char>, i: int) -> Option<int>
    decreases s.len() + 1 - i,
{
    if i < 0 || i + pat.len() > s.len() {
        None
    } else if occurs_at(s, pat, i) {
        Some(i)
    } else {
        find_from(s, pat, i + 1)
    }
}

/// A found index is an occurrence at or after the start.
pub proof fn lemma_find_from_occurs(s: Seq<char>, pat: Seq<char>, i: int)
    ensures
        find_from(s, pat, i) matches Some(j) ==> i <= j && occurs_at(s, pat, j),
    decreases s.len() + 1 - i,
{
    if !(i < 0 || i + pat.len() > s.len()) && !occurs_at(s, pat, i) {
        lemma_find_from_occurs(s, pat, i + 1);
    }
}

/// `str::find`: the first index where `pat` occurs in `s`, in chars.
pub open spec fn find(s: Seq<char>, pat: Seq<char>) -> Option<int> {
    find_from(s, pat, 0)
}

/// The chars of `s` from index `i` on.
pub open spec fn rest_from(s: Seq<char>, i: int) -> Seq<char> {
    s.subrange(i, s.len() as int)
}

/// The value of the JSON string field `key` as the fixed decision-file
/// schema writes it: after the first `"key"`, the first `:`, then the text
/// between the next two `"`.
pub open spec fn spec_json_string_field(text: Seq<char>, key: Seq<char>) -> Option<Seq<char>> {
    let needle = seq!['"'] + key + seq!['"'];
    match find(text, needle) {
        None => None,
        Some(kp) => {
            let a = rest_from(text, kp + needle.len());
            match find(a, seq![':']) {
                None => None,
                Some(c) => {
                    let b = rest_from(a, c + 1);
                    match find(b, seq!['"']) {
                        None => None,
                        Some(o) => {
                            let r = rest_from(b, o + 1);
                            match find(r, seq!['"']) {
                                None => None,
                                Some(cl) => Some(r.subrange(0, cl)),
                            }
                        },
                    }
                },
            }
        },
    }
}

fn sub_chars(cs: &Vec<char>, a: usize, b: usize) -> (r: Vec<char>)
    requires
        a <= b <= cs@.len(),
    ensures
        r@ == cs@.subrange(a as int, b as int),
{
    let mut r: Vec<char> = Vec::new();
    let mut i: usize = a;
    while i < b
        invariant
            a <= i <= b <= cs@.len(),
            r@ == cs@.subrange(a as int, i as int),
        decreases b - i,
    {
        r.push(cs[i]);
        i = i + 1;
        assert(r@ =~= cs@.subrange(a as int, i as int));
    }
    r
}

fn occurs_at_exec(s: &Vec<char>, pat: &Vec<char>, i: usize) -> (r: bool)
    requires
        i + pat@.len() <= s@.len(),
    ensures
        r == occurs_at(s@, pat@, i as int),
{
    let n = s.len();
    let mut k: usize = 0;
    while k < pat.len()
        invariant
            n == s@.len(),
            i + pat@.len() <= s@.len(),
            k <= pat@.len(),
            forall|j: int| 0 <= j < k ==> s@[i + j] == pat@[j],
        decreases pat@.len() - k,
    {
        if s[i + k] != pat[k] {
            assert(s@.subrange(i as int, i + pat@.len())[k as int] != pat@[k as int]);
            return false;
        }
        k = k + 1;
    }
    assert(s@.subrange(i as int, i + pat@.len()) =~= pat@);
    true
}

/// `s.find(pat)` in chars.
pub fn find_chars(s: &Vec<char>, pat: &Vec<char>) -> (r: Option<usize>)
    ensures
        match (r, find(s@, pat@)) {
            (Some(i), Some(j)) => i == j,
            (None, None) => true,
            _ => false,
        },
{
    if pat.len() > s.len() {
        return None;
    }
    let last = s.len() - pat.len();
    let mut i: usize = 0;
    loop
        invariant
            pat@.len() <= s@.len(),
            last == s@.len() - pat@.len(),
            i <= last,
            find(s@, pat@) == find_from(s@, pat@, i as int),
        decreases last - i,
    {
        if occurs_at_exec(s, pat, i) {
            return Some(i);
        }
        if i == last {
            return None;
        }
        i = i + 1;
    }
}

/// Pull a JSON string field's value by key from the fixed decision-file
/// schema, without a general JSON parser.
pub fn json_string_field(text: &str, key: &str) -> (r: Option<String>)
    ensures
        match (r, spec_json_string_field(text@, key@)) {
            (Some(v), Some(w)) => v@ == w,
            (None, None) => true,
            _ => false,
        },
{
    let t = chars_of(text);
    let k = chars_of(key);
    let mut needle: Vec<char> = Vec::new();
    needle.push('"');
    let mut i: usize = 0;
    while i < k.len()
        invariant
            k@ == key@,
            i <= k@.len(),
            needle@ == seq!['"'] + k@.subrange(0, i as int),
        decreases k@.len() - i,
    {
        needle.push(k[i]);
        i = i + 1;
        assert(needle@ =~= seq!['"'] + k@.subrange(0, i as int));
    }
    needle.push('"');
    assert(k@.subrange(0, k@.len() as int) =~= k@);
    assert(needle@ =~= seq!['"'] + key@ + seq!['"']);
    let kp = match find_chars(&t, &needle) {
        Some(p) => p,
        None => return None,
    };
    proof {
        lemma_find_from_occurs(t@, needle@, 0);
    }
    let tl = t.len();
    let a = sub_chars(&t, kp + needle.len(), tl);
    let colon = vec![':'];
    assert(colon@ =~= seq![':']);
    let c = match find_chars(&a, &colon) {
        Some(p) => p,
        None => return None,
    };
    proof {
        lemma_find_from_occurs(a@, colon@, 0);
    }
    let b = sub_chars(&a, c + 1, a.len());
    let quote = vec!['"'];
    assert(quote@ =~= seq!['"']);
    let o = match find_chars(&b, &quote) {
        Some(p) => p,
        None => return None,
    };
    proof {
        lemma_find_from_occurs(b@, quote@, 0);
    }
    let rest = sub_chars(&b, o + 1, b.len());
    let cl = match find_chars(&rest, &quote) {
        Some(p) => p,
        None => return None,
    };
    proof {
        lemma_find_from_occurs(rest@, quote@, 0);
    }
    let value = sub_chars(&rest, 0, cl);
    Some(string_from_chars(value.as_slice()))
}

/// The operator's decision in a response file: `Some(true)` for `accept`
/// and `Some(false)` for `reject` of request `expected_id`; `None` when the
/// bytes are not UTF-8, a field is missing, the request id differs or the
/// decision is another word (keep polling).
pub open spec fn spec_parse_decision(bytes: Seq<u8>, expected_id: Seq<char>) -> Option<bool> {
    if !valid_utf8(bytes) {
        None
    } else {
        let text = decode_utf8(bytes);
        match spec_json_string_field(text, "request_id"@) {
            None => None,
            Some(id) => if id != expected_id {
                None
            } else {
                match spec_json_string_field(text, "decision"@) {
                    Some(d) => if d == "accept"@ {
                        Some(true)
                    } else if d == "reject"@ {
                        Some(false)
                    } else {
                        None
                    },
                    None => None,
                }
            },
        }
    }
}

/// Parse the response file's `{"request_id":"…","decision":"accept|reject"}`.
pub fn parse_decision(bytes: &[u8], expected_id: &str) -> (r: Option<bool>)
    ensures
        r == spec_parse_decision(bytes@, expected_id@),
{
    let text = match str_from_utf8(bytes) {
        Some(t) => t,
        None => return None,
    };
    let id = match json_string_field(text, "request_id") {
        Some(v) => v,
        None => return None,
    };
    if !str_eq(id.as_str(), expected_id) {
        return None;
    }
    let decision = match json_string_field(text, "decision") {
        Some(v) => v,
        None => return None,
    };
    if str_eq(decision.as_str(), "accept") {
        Some(true)
    } else if str_eq(decision.as_str(), "reject") {
        Some(false)
    } else {
        None
    }
}

/// Rust's `/` on integers: the quotient rounded toward zero.
pub open spec fn div_toward_zero(a: int, b: int) -> int {
    if a >= 0 {
        a / b
    } else {
        -((-a) / b)
    }
}

/// The wall-clock minute since the Unix epoch, from the seconds elapsed
/// since the epoch (`None` when the clock reads before the epoch, which
/// counts as zero).
pub fn unix_minute_floor(elapsed_secs: Option<u64>) -> (r: i64)
    ensures
        r as int == div_toward_zero(
            match elapsed_secs {
                Some(s) => (s as i64) as int,
                None => 0,
            },
            SECONDS_PER_MINUTE as int,
        ),
{
    let now: i64 = match elapsed_secs {
        Some(s) => s as i64,
        None => 0,
    };
    now / SECONDS_PER_MINUTE
}

/// Largest control write the coordinator accepts.
pub const MAX_CONTROL_WRITE: usize = 64;

/// Why the V2 coordinator stopped.
#[derive(Debug, Clone, Copy, PartialEq, Eq, Structural)]
pub enum ProtocolError {
    /// No transaction was set up before the exchange.
    NotInitialized,
    /// The transaction refused a step.
    Transaction(TransactionError),
    /// A duplicate, replayed or out-of-order message arrived.
    InvalidMessage,
    /// The peer rejected, cancelled, timed out or failed before the commit.
    RemoteAbort,
    /// The peer did not answer within the accept window.
    ProtocolTimeout,
    /// The link was lost after the commit decision: the outcome is unknown.
    ProtocolUncertain,
}

impl ProtocolError {
    /// The human-readable reason.
    pub open spec fn spec_reason(self) -> Seq<char> {
        match self {
            ProtocolError::NotInitialized => "pair transaction not initialized"@,
            ProtocolError::Transaction(e) => e.spec_message(),
            ProtocolError::InvalidMessage => "invalid pairing transaction message"@,
            ProtocolError::RemoteAbort => "the peer aborted the pairing"@,
            ProtocolError::ProtocolTimeout => "the peer did not answer in time"@,
            ProtocolError::ProtocolUncertain => "pairing outcome uncertain after the commit decision"@,
        }
    }

    /// The human-readable reason.
    pub fn reason(&self) -> (r: &'static str)
        ensures
            r@ == self.spec_reason(),
    {
        match self {
            ProtocolError::NotInitialized => "pair transaction not initialized",
            ProtocolError::Transaction(e) => e.message(),
            ProtocolError::InvalidMessage => "invalid pairing transaction message",
            ProtocolError::RemoteAbort => "the peer aborted the pairing",
            ProtocolError::ProtocolTimeout => "the peer did not answer in time",
            ProtocolError::ProtocolUncertain => "pairing outcome uncertain after the commit decision",
        }
    }
}

/// The abstract state of the coordinator's protocol mailboxes.
pub struct ProtocolView {
    /// Control writes waiting for the coordinator, oldest first.
    pub inbox: Seq<Seq<u8>>,
    /// The status register the peer reads.
    pub status: Seq<u8>,
    /// Address of the peer that wrote the phone public key.
    pub peer_address: Option<Seq<char>>,
    /// The current attempt's identifier.
    pub transaction_id: Option<Seq<u8>>,
    /// The current attempt's transaction.
    pub transaction: Option<TransactionView>,
}

/// The coordinator's side of the authenticated GATT control channel: the
/// control inbox, the status register, the bound peer and the transaction.
pub struct PairProtocol {
    inbox: Vec<Vec<u8>>,
    status: Vec<u8>,
    peer_address: Option<String>,
    transaction_id: Option<[u8; 16]>,
    transaction: Option<Transaction>,
}

impl View for PairProtocol {
    type V = ProtocolView;

    closed spec fn view(&self) -> ProtocolView {
        ProtocolView {
            inbox: frames_view(self.inbox@),
            status: self.status@,
            peer_address: match self.peer_address {
                Some(a) => Some(a@),
                None => None,
            },
            transaction_id: match self.transaction_id {
                Some(id) => Some(id@),
                None => None,
            },
            transaction: match self.transaction {
                Some(t) => Some(t@),
                None => None,
            },
        }
    }
}

/// The coarse state the status register reports: the transaction's, or
/// `Unknown` before one exists.
pub open spec fn current_state(v: ProtocolView) -> StatusState {
    match v.transaction {
        Some(t) => t.status(),
        None => StatusState::Unknown,
    }
}

/// The status register after publishing the state of attempt `id`.
pub open spec fn spec_publish_status(v: ProtocolView, id: [u8; 16]) -> ProtocolView {
    ProtocolView {
        status: (StatusMessage { transaction: id, nonce: 0, state: Some(current_state(v)) }).spec_encode(),
        ..v
    }
}

/// The status register after publishing one protocol message.
pub open spec fn spec_publish(v: ProtocolView, message: Message) -> ProtocolView {
    ProtocolView { status: message.spec_encode(), ..v }
}

/// The index of the oldest inbox frame at or after `i` that is a message of
/// attempt `id`.
pub open spec fn first_message_from(inbox: Seq<Seq<u8>>, id: Seq<u8>, i: int) -> Option<int>
    decreases inbox.len() - i,
{
    if i < 0 || i >= inbox.len() {
        None
    } else if message_for(inbox[i], id) {
        Some(i)
    } else {
        first_message_from(inbox, id, i + 1)
    }
}

/// The index of the oldest inbox frame that is a message of attempt `id`.
pub open spec fn first_message(inbox: Seq<Seq<u8>>, id: Seq<u8>) -> Option<int> {
    first_message_from(inbox, id, 0)
}

proof fn lemma_first_message_none(inbox: Seq<Seq<u8>>, id: Seq<u8>, i: int)
    requires
        0 <= i,
        forall|j: int| 0 <= j < inbox.len() ==> !message_for(#[trigger] inbox[j], id),
    ensures
        first_message_from(inbox, id, i) is None,
    decreases inbox.len() - i,
{
    if i < inbox.len() {
        lemma_first_message_none(inbox, id, i + 1);
    }
}

proof fn lemma_first_message_some(inbox: Seq<Seq<u8>>, id: Seq<u8>, k: int, i: int)
    requires
        0 <= i <= k < inbox.len(),
        message_for(inbox[k], id),
        forall|j: int| 0 <= j < k ==> !message_for(#[trigger] inbox[j], id),
    ensures
        first_message_from(inbox, id, i) == Some(k),
    decreases k - i,
{
    if i < k {
        lemma_first_message_some(inbox, id, k, i + 1);
    }
}

proof fn lemma_first_message_range(inbox: Seq<Seq<u8>>, id: Seq<u8>, i: int)
    ensures
        first_message_from(inbox, id, i) matches Some(k) ==> i <= k < inbox.len() && message_for(inbox[k], id),
    decreases inbox.len() - i,
{
    if !(i < 0 || i >= inbox.len()) && !message_for(inbox[i], id) {
        lemma_first_message_range(inbox, id, i + 1);
    }
}

/// Taking the oldest message of attempt `id` out of the inbox.
pub open spec fn spec_take(v: ProtocolView, id: [u8; 16]) -> (ProtocolView, Option<Operation>) {
    match first_message(v.inbox, id@) {
        None => (v, None),
        Some(i) => (
            ProtocolView { inbox: v.inbox.remove(i), ..v },
            Operation::spec_from_code(v.inbox[i][17]),
        ),
    }
}

/// Applying a local fact to the current transaction.
pub open spec fn spec_apply_local(v: ProtocolView, event: LocalEvent) -> (ProtocolView, Result<(), ProtocolError>) {
    match v.transaction {
        None => (v, Err(ProtocolError::NotInitialized)),
        Some(t) => match spec_local(t, event) {
            Some(t2) => (ProtocolView { transaction: Some(t2), ..v }, Ok(())),
            None => (v, Err(ProtocolError::Transaction(TransactionError::InvalidTransition))),
        },
    }
}

/// Applying a peer message of attempt `id` to the current transaction.
pub open spec fn spec_apply_remote(v: ProtocolView, id: [u8; 16], op: Operation) -> (
    ProtocolView,
    Result<(), ProtocolError>,
) {
    match v.transaction {
        None => (v, Err(ProtocolError::NotInitialized)),
        Some(t) => match spec_remote(t, Message { transaction: id, operation: op }) {
            Ok(t2) => (ProtocolView { transaction: Some(t2), ..v }, Ok(())),
            Err(e) => (v, Err(ProtocolError::Transaction(e))),
        },
    }
}

/// One poll of the control inbox while waiting for `wanted` in attempt `id`:
/// status queries are answered and skipped; `None` when nothing for this
/// attempt is queued yet.
pub open spec fn spec_poll(v: ProtocolView, id: [u8; 16], wanted: Operation) -> (
    ProtocolView,
    Option<Result<(), ProtocolError>>,
)
    decreases v.inbox.len(),
{
    match first_message(v.inbox, id@) {
        None => (v, None),
        Some(i) => {
            let op = Operation::spec_from_code(v.inbox[i][17]).unwrap();
            let v1 = ProtocolView { inbox: v.inbox.remove(i), ..v };
            if 0 <= i < v.inbox.len() && op == Operation::StatusQuery {
                spec_poll(spec_publish_status(v1, id), id, wanted)
            } else if op == wanted {
                (v1, Some(Ok(())))
            } else if op.spec_is_abort() {
                (spec_apply_remote(v1, id, op).0, Some(Err(ProtocolError::RemoteAbort)))
            } else {
                (v1, Some(Err(ProtocolError::InvalidMessage)))
            }
        },
    }
}

impl PairProtocol {
    /// Empty mailboxes, no bound peer and no transaction.
    pub fn new() -> (r: Self)
        ensures
            r@ == (ProtocolView {
                inbox: Seq::empty(),
                status: Seq::empty(),
                peer_address: None,
                transaction_id: None,
                transaction: None,
            }),
    {
        let r = PairProtocol {
            inbox: Vec::new(),
            status: Vec::new(),
            peer_address: None,
            transaction_id: None,
            transaction: None,
        };
        assert(r@.inbox =~= Seq::<Seq<u8>>::empty());
        r
    }

    /// The peer's read of the status register from `offset`; an offset past
    /// the end reads nothing.
    pub fn read_status(&self, offset: usize) -> (r: Vec<u8>)
        ensures
            r@ == if offset <= self@.status.len() {
                self@.status.subrange(offset as int, self@.status.len() as int)
            } else {
                Seq::empty()
            },
    {
        if offset <= self.status.len() {
            copy_range(self.status.as_slice(), offset, self.status.len())
        } else {
            Vec::new()
        }
    }

    /// The current transaction, if one was set up.
    pub fn transaction(&self) -> (r: Option<Transaction>)
        ensures
            match (r, self@.transaction) {
                (Some(t), Some(v)) => t@ == v,
                (None, None) => true,
                _ => false,
            },
    {
        self.transaction
    }

    /// Bind the control channel to the peer that wrote its public key.
    pub fn bind_peer(&mut self, address: String)
        ensures
            final(self)@ == (ProtocolView { peer_address: Some(address@), ..old(self)@ }),
    {
        self.peer_address = Some(address);
    }

    fn state(&self) -> (s: StatusState)
        ensures
            s == current_state(self@),
    {
        match &self.transaction {
            Some(t) => t.status(),
            None => StatusState::Unknown,
        }
    }

    /// Publish one protocol message into the status register.
    pub fn publish_protocol(&mut self, message: Message)
        ensures
            final(self)@ == spec_publish(old(self)@, message),
    {
        let bytes = message.encode();
        self.status = copy_range(&bytes, 0, MESSAGE_LEN);
        assert(self.status@ =~= message.spec_encode());
    }

    /// Publish the coarse state of attempt `id` into the status register.
    pub fn publish_status(&mut self, id: [u8; 16])
        ensures
            final(self)@ == spec_publish_status(old(self)@, id),
    {
        let response = StatusMessage::response(id, 0, self.state());
        let bytes = response.encode();
        self.status = copy_range(&bytes, 0, STATUS_MESSAGE_LEN);
        assert(self.status@ =~= response.spec_encode());
    }

    /// Start attempt `id`: a fresh coordinator transaction whose state is
    /// published at once.
    pub fn set_transaction_id(&mut self, id: [u8; 16])
        ensures
            final(self)@ == spec_publish_status(
                ProtocolView {
                    transaction_id: Some(id@),
                    transaction: Some(TransactionView::fresh(id@, Role::Coordinator)),
                    ..old(self)@
                },
                id,
            ),
    {
        self.transaction_id = Some(id);
        self.transaction = Some(Transaction::new(id, Role::Coordinator));
        self.publish_status(id);
    }

    /// Accept one control write from `address`. Writes longer than 64 bytes
    /// and writes from any peer but the bound one are dropped. A status query
    /// for the current attempt is answered in the status register, any other
    /// status frame dropped; neither enters the inbox, which only ever
    /// advances the transaction through the strict decoder.
    pub fn accept_control_write(&mut self, address: &str, bytes: Vec<u8>)
        ensures
            final(self)@ == (if bytes@.len() > MAX_CONTROL_WRITE || old(self)@.peer_address != Some(address@) {
                old(self)@
            } else if StatusMessage::spec_wire_ok(bytes@) {
                if bytes@[25] == 12 && old(self)@.transaction_id == Some(bytes@.subrange(1, 17)) {
                    ProtocolView {
                        status: StatusMessage::response_bytes(bytes@, current_state(old(self)@)),
                        ..old(self)@
                    }
                } else {
                    old(self)@
                }
            } else {
                ProtocolView { inbox: old(self)@.inbox.push(bytes@), ..old(self)@ }
            }),
    {
        if bytes.len() > MAX_CONTROL_WRITE {
            return;
        }
        let allowed = match &self.peer_address {
            Some(a) => str_eq(a.as_str(), address),
            None => false,
        };
        if !allowed {
            return;
        }
        match StatusMessage::decode(bytes.as_slice()) {
            Ok(query) => {
                proof {
                    assert(query.transaction@ =~= bytes@.subrange(1, 17));
                }
                if query.state.is_none() {
                    let current = match self.transaction_id {
                        Some(id) => same_id(&id, &query.transaction),
                        None => false,
                    };
                    if current {
                        let response = StatusMessage::response(query.transaction, query.nonce, self.state());
                        let encoded = response.encode();
                        self.status = copy_range(&encoded, 0, STATUS_MESSAGE_LEN);
                        proof {
                            assert(bytes@[25] == 12);
                            assert(self.status@ =~= StatusMessage::response_bytes(bytes@, current_state(old(self)@)));
                        }
                    }
                } else {
                    assert(bytes@[25] == 13);
                }
                return;
            },
            Err(_) => {},
        }
        let ghost before = self.inbox@;
        self.inbox.push(bytes);
        assert(frames_view(self.inbox@) =~= frames_view(before).push(bytes@));
    }

    /// Take the oldest queued message of attempt `id`, if any.
    pub fn take_protocol(&mut self, id: [u8; 16]) -> (r: Option<Operation>)
        ensures
            (final(self)@, r) == spec_take(old(self)@, id),
    {
        let ghost before = self@;
        let r = take_first_message(&mut self.inbox, id);
        proof {
            assert(self@ == ProtocolView { inbox: frames_view(self.inbox@), ..before });
            match r {
                None => {
                    lemma_first_message_none(before.inbox, id@, 0);
                    assert(self@ == before);
                },
                Some(op) => {
                    let k = choose|k: int| {
                        &&& 0 <= k < before.inbox.len()
                        &&& message_for(before.inbox[k], id@)
                        &&& forall|j: int| 0 <= j < k ==> !message_for(#[trigger] before.inbox[j], id@)
                        &&& frames_view(self.inbox@) == before.inbox.remove(k)
                        &&& Operation::spec_from_code(before.inbox[k][17]) == Some(op)
                    };
                    lemma_first_message_some(before.inbox, id@, k, 0);
                },
            }
        }
        r
    }

    /// Apply a local fact to the current transaction.
    pub fn apply_local(&mut self, event: LocalEvent) -> (r: Result<(), ProtocolError>)
        ensures
            (final(self)@, r) == spec_apply_local(old(self)@, event),
    {
        match &mut self.transaction {
            None => Err(ProtocolError::NotInitialized),
            Some(t) => match t.local(event) {
                Ok(()) => Ok(()),
                Err(e) => Err(ProtocolError::Transaction(e)),
            },
        }
    }

    /// Apply a peer message of attempt `id` to the current transaction.
    pub fn apply_remote(&mut self, id: [u8; 16], operation: Operation) -> (r: Result<(), ProtocolError>)
        ensures
            (final(self)@, r) == spec_apply_remote(old(self)@, id, operation),
    {
        match &mut self.transaction {
            None => Err(ProtocolError::NotInitialized),
            Some(t) => match t.remote(Message { transaction: id, operation }) {
                Ok(()) => Ok(()),
                Err(e) => Err(ProtocolError::Transaction(e)),
            },
        }
    }
}

/// Where the coordinator stands: the operation it waits for next.
#[derive(Debug, Clone, Copy, PartialEq, Eq, Structural)]
pub enum CoordinatorStage {
    /// Waiting for the peer's CAPABILITY.
    Capability,
    /// Waiting for the peer's CONFIRM.
    Confirm,
    /// Waiting for the peer's PREPARED.
    Prepared,
    /// Waiting for the peer's COMMIT_ACK, after the commit decision.
    CommitAck,
    /// Waiting for the peer's COMMITTED.
    Committed,
}

impl CoordinatorStage {
    /// The peer operation this stage waits for.
    pub open spec fn spec_wanted(self) -> Operation {
        match self {
            CoordinatorStage::Capability => Operation::Capability,
            CoordinatorStage::Confirm => Operation::Confirm,
            CoordinatorStage::Prepared => Operation::Prepared,
            CoordinatorStage::CommitAck => Operation::CommitAck,
            CoordinatorStage::Committed => Operation::Committed,
        }
    }

    /// The peer operation this stage waits for.
    pub fn wanted(self) -> (op: Operation)
        ensures
            op == self.spec_wanted(),
    {
        match self {
            CoordinatorStage::Capability => Operation::Capability,
            CoordinatorStage::Confirm => Operation::Confirm,
            CoordinatorStage::Prepared => Operation::Prepared,
            CoordinatorStage::CommitAck => Operation::CommitAck,
            CoordinatorStage::Committed => Operation::Committed,
        }
    }

    /// Whether the commit decision has been published at this stage.
    pub open spec fn after_commit(self) -> bool {
        self == CoordinatorStage::CommitAck || self == CoordinatorStage::Committed
    }
}

/// What the coordinator does next.
#[derive(Debug, Clone, Copy, PartialEq, Eq, Structural)]
pub enum CoordinatorStep {
    /// Wait for the peer operation of this stage.
    Await(CoordinatorStage),
    /// Both sides committed.
    Finished,
}

/// Applying local facts in order, stopping at the first refusal.
pub open spec fn spec_apply_locals(v: ProtocolView, events: Seq<LocalEvent>) -> (
    ProtocolView,
    Result<(), ProtocolError>,
)
    decreases events.len(),
{
    if events.len() == 0 {
        (v, Ok(()))
    } else {
        let (v1, r) = spec_apply_local(v, events[0]);
        if r is Err {
            (v1, r)
        } else {
            spec_apply_locals(v1, events.drop_first())
        }
    }
}

/// For each stage, once its awaited operation arrived: the peer operation
/// applied, the local facts applied after it, the message published, and the
/// next step.
pub open spec fn stage_plan(stage: CoordinatorStage) -> (
    Operation,
    Seq<LocalEvent>,
    Option<Operation>,
    CoordinatorStep,
) {
    match stage {
        CoordinatorStage::Capability => (
            Operation::Capability,
            seq![LocalEvent::Capability, LocalEvent::VerifiedExchange, LocalEvent::Confirm],
            Some(Operation::Confirm),
            CoordinatorStep::Await(CoordinatorStage::Confirm),
        ),
        CoordinatorStage::Confirm => (
            Operation::Confirm,
            seq![LocalEvent::Prepared],
            Some(Operation::Prepared),
            CoordinatorStep::Await(CoordinatorStage::Prepared),
        ),
        CoordinatorStage::Prepared => (
            Operation::Prepared,
            seq![LocalEvent::Commit],
            Some(Operation::Commit),
            CoordinatorStep::Await(CoordinatorStage::CommitAck),
        ),
        CoordinatorStage::CommitAck => (
            Operation::CommitAck,
            Seq::empty(),
            Some(Operation::Committed),
            CoordinatorStep::Await(CoordinatorStage::Committed),
        ),
        CoordinatorStage::Committed => (
            Operation::Committed,
            seq![LocalEvent::Committed],
            None,
            CoordinatorStep::Finished,
        ),
    }
}

/// The coordinator's move once the wait of `stage` in attempt `id` ended
/// with `waited`. A failed wait after the commit decision marks the link
/// lost and leaves the outcome uncertain; before it, the failure stands.
pub open spec fn spec_coordinate_after(
    v: ProtocolView,
    id: [u8; 16],
    stage: CoordinatorStage,
    waited: Result<(), ProtocolError>,
) -> (ProtocolView, Result<CoordinatorStep, ProtocolError>) {
    match waited {
        Err(e) => if stage.after_commit() {
            (spec_apply_local(v, LocalEvent::Disconnected).0, Err(ProtocolError::ProtocolUncertain))
        } else {
            (v, Err(e))
        },
        Ok(()) => {
            let (remote, locals, publish, next) = stage_plan(stage);
            let (v1, r1) = spec_apply_remote(v, id, remote);
            match r1 {
                Err(e) => (v1, Err(e)),
                Ok(()) => {
                    let (v2, r2) = spec_apply_locals(v1, locals);
                    match r2 {
                        Err(e) => (v2, Err(e)),
                        Ok(()) => match publish {
                            Some(op) => (
                                spec_publish(v2, Message { transaction: id, operation: op }),
                                Ok(next),
                            ),
                            None => (v2, Ok(next)),
                        },
                    }
                },
            }
        },
    }
}

impl PairProtocol {
    /// One poll of the inbox while waiting for `wanted` in attempt `id`.
    /// Status queries are answered from the transaction and skipped; the
    /// awaited operation ends the wait; an abort-class operation is applied
    /// and ends it as a remote abort; anything else is a protocol error.
    /// `None`: nothing for this attempt yet, poll again later.
    pub fn poll_protocol(&mut self, id: [u8; 16], wanted: Operation) -> (r: Option<
        Result<(), ProtocolError>,
    >)
        ensures
            (final(self)@, r) == spec_poll(old(self)@, id, wanted),
    {
        loop
            invariant
                spec_poll(self@, id, wanted) == spec_poll(old(self)@, id, wanted),
            decreases self@.inbox.len(),
        {
            let ghost before = self@;
            proof {
                lemma_first_message_range(before.inbox, id@, 0);
            }
            let taken = self.take_protocol(id);
            match taken {
                None => {
                    assert(spec_poll(before, id, wanted) == (before, None::<Result<(), ProtocolError>>));
                    return None;
                },
                Some(op) => {
                    if op == Operation::StatusQuery {
                        self.publish_status(id);
                        assert(spec_poll(before, id, wanted) == spec_poll(self@, id, wanted));
                    } else if op == wanted {
                        return Some(Ok(()));
                    } else if op.is_abort() {
                        let _ = self.apply_remote(id, op);
                        return Some(Err(ProtocolError::RemoteAbort));
                    } else {
                        return Some(Err(ProtocolError::InvalidMessage));
                    }
                },
            }
        }
    }

    /// The wait for the peer ran out: the link is marked lost.
    pub fn wait_timed_out(&mut self) -> (r: ProtocolError)
        ensures
            final(self)@ == spec_apply_local(old(self)@, LocalEvent::Disconnected).0,
            r == ProtocolError::ProtocolTimeout,
    {
        let _ = self.apply_local(LocalEvent::Disconnected);
        ProtocolError::ProtocolTimeout
    }

    /// After the LESC bond and the phone's key: publish CAPABILITY for the
    /// current attempt (the zero identifier when none was set) and record
    /// the local capability.
    pub fn begin_exchange(&mut self) -> (r: Result<(), ProtocolError>)
        ensures
            ({
                let id = match old(self)@.transaction_id {
                    Some(id) => id,
                    None => Seq::new(16, |i: int| 0u8),
                };
                let v1 = ProtocolView {
                    status: seq![crate::pair_transaction::VERSION] + id + seq![Operation::Capability.spec_code()],
                    ..old(self)@
                };
                (final(self)@, r) == spec_apply_local(v1, LocalEvent::Capability)
            }),
    {
        let id = match self.transaction_id {
            Some(id) => id,
            None => [0u8; 16],
        };
        assert(id@ =~= match old(self)@.transaction_id {
            Some(id) => id,
            None => Seq::new(16, |i: int| 0u8),
        });
        self.publish_protocol(Message { transaction: id, operation: Operation::Capability });
        self.apply_local(LocalEvent::Capability)
    }

    fn apply_locals(&mut self, events: &Vec<LocalEvent>) -> (r: Result<(), ProtocolError>)
        ensures
            (final(self)@, r) == spec_apply_locals(old(self)@, events@),
    {
        let mut i: usize = 0;
        assert(events@.subrange(0, events@.len() as int) =~= events@);
        while i < events.len()
            invariant
                i <= events@.len(),
                spec_apply_locals(old(self)@, events@) == spec_apply_locals(self@, events@.subrange(i as int, events@.len() as int)),
            decreases events@.len() - i,
        {
            let ghost rest = events@.subrange(i as int, events@.len() as int);
            assert(rest[0] == events@[i as int]);
            assert(rest.drop_first() =~= events@.subrange(i + 1, events@.len() as int));
            match self.apply_local(events[i]) {
                Ok(()) => {},
                Err(e) => return Err(e),
            }
            i = i + 1;
        }
        Ok(())
    }

    /// Begin coordinating attempt `id`: publish CAPABILITY and wait for the
    /// peer's.
    pub fn coordinate_begin(&mut self, id: [u8; 16]) -> (r: CoordinatorStage)
        ensures
            final(self)@ == spec_publish(old(self)@, Message { transaction: id, operation: Operation::Capability }),
            r == CoordinatorStage::Capability,
    {
        self.publish_protocol(Message { transaction: id, operation: Operation::Capability });
        CoordinatorStage::Capability
    }

    /// Move on once the wait of `stage` in attempt `id` ended with `waited`.
    pub fn coordinate_after(
        &mut self,
        id: [u8; 16],
        stage: CoordinatorStage,
        waited: Result<(), ProtocolError>,
    ) -> (r: Result<CoordinatorStep, ProtocolError>)
        ensures
            (final(self)@, r) == spec_coordinate_after(old(self)@, id, stage, waited),
    {
        match waited {
            Err(e) => {
                if stage == CoordinatorStage::CommitAck || stage == CoordinatorStage::Committed {
                    let _ = self.apply_local(LocalEvent::Disconnected);
                    return Err(ProtocolError::ProtocolUncertain);
                }
                return Err(e);
            },
            Ok(()) => {},
        }
        let (remote, locals, publish, next) = match stage {
            CoordinatorStage::Capability => (
                Operation::Capability,
                vec![LocalEvent::Capability, LocalEvent::VerifiedExchange, LocalEvent::Confirm],
                Some(Operation::Confirm),
                CoordinatorStep::Await(CoordinatorStage::Confirm),
            ),
            CoordinatorStage::Confirm => (
                Operation::Confirm,
                vec![LocalEvent::Prepared],
                Some(Operation::Prepared),
                CoordinatorStep::Await(CoordinatorStage::Prepared),
            ),
            CoordinatorStage::Prepared => (
                Operation::Prepared,
                vec![LocalEvent::Commit],
                Some(Operation::Commit),
                CoordinatorStep::Await(CoordinatorStage::CommitAck),
            ),
            CoordinatorStage::CommitAck => (
                Operation::CommitAck,
                Vec::new(),
                Some(Operation::Committed),
                CoordinatorStep::Await(CoordinatorStage::Committed),
            ),
            CoordinatorStage::Committed => (
                Operation::Committed,
                vec![LocalEvent::Committed],
                None,
                CoordinatorStep::Finished,
            ),
        };
        assert(locals@ =~= stage_plan(stage).1);
        match self.apply_remote(id, remote) {
            Ok(()) => {},
            Err(e) => return Err(e),
        }
        match self.apply_locals(&locals) {
            Ok(()) => {},
            Err(e) => return Err(e),
        }
        match publish {
            Some(op) => self.publish_protocol(Message { transaction: id, operation: op }),
            None => {},
        }
        Ok(next)
    }
}

/// The operation the peer answers with the one `stage` waits for: our
/// CAPABILITY before its CAPABILITY, our CONFIRM before its CONFIRM, our
/// PREPARED before its PREPARED, our COMMIT before its COMMIT_ACK and our
/// COMMITTED before its COMMITTED.
pub open spec fn coordinator_request(stage: CoordinatorStage) -> Operation {
    match stage {
        CoordinatorStage::Capability => Operation::Capability,
        CoordinatorStage::Confirm => Operation::Confirm,
        CoordinatorStage::Prepared => Operation::Prepared,
        CoordinatorStage::CommitAck => Operation::Commit,
        CoordinatorStage::Committed => Operation::Committed,
    }
}

/// The message of attempt `id` that the peer answers in `stage`.
pub open spec fn request_message(id: [u8; 16], stage: CoordinatorStage) -> Message {
    Message { transaction: id, operation: coordinator_request(stage) }
}

/// The coordinator never waits without having asked: beginning an attempt,
/// and every move that goes on to wait in a stage, leave in the status
/// register the attempt's message that the peer answers in that stage.
pub proof fn lemma_coordinator_asks_before_waiting(
    v: ProtocolView,
    id: [u8; 16],
    stage: CoordinatorStage,
    waited: Result<(), ProtocolError>,
)
    ensures
        spec_publish(v, (Message { transaction: id, operation: Operation::Capability })).status
            == request_message(id, CoordinatorStage::Capability).spec_encode(),
        (spec_coordinate_after(v, id, stage, waited).1 matches Ok(CoordinatorStep::Await(next))
            ==> spec_coordinate_after(v, id, stage, waited).0.status == request_message(id, next).spec_encode()),
{
}

/// The coordinator reports success only with both sides committed: the
/// transaction it leaves is `Bonded`.
pub proof fn lemma_finished_means_bonded(
    v: ProtocolView,
    id: [u8; 16],
    stage: CoordinatorStage,
    waited: Result<(), ProtocolError>,
)
    requires
        spec_coordinate_after(v, id, stage, waited).1 == Ok::<CoordinatorStep, ProtocolError>(
            CoordinatorStep::Finished,
        ),
    ensures
        spec_coordinate_after(v, id, stage, waited).0.transaction matches Some(t) && t.phase
            == crate::pair_transaction::Phase::Bonded,
{
    assert(stage == CoordinatorStage::Committed);
    let locals = stage_plan(stage).1;
    let (v1, r1) = spec_apply_remote(v, id, Operation::Committed);
    let (v3, r3) = spec_apply_local(v1, LocalEvent::Committed);
    assert(locals.drop_first() =~= Seq::<LocalEvent>::empty());
    assert(spec_apply_locals(v1, locals) == spec_apply_locals(v3, locals.drop_first()));
}

/// The coordinator publishes COMMIT only once both sides have prepared: when
/// it starts waiting for COMMIT_ACK, its transaction is `CommitPending` with
/// both sides prepared.
pub proof fn lemma_commit_needs_both_prepared(
    v: ProtocolView,
    id: [u8; 16],
    stage: CoordinatorStage,
    waited: Result<(), ProtocolError>,
)
    requires
        v.transaction matches Some(t) && t.gates_hold(),
        spec_coordinate_after(v, id, stage, waited).1 == Ok::<CoordinatorStep, ProtocolError>(
            CoordinatorStep::Await(CoordinatorStage::CommitAck),
        ),
    ensures
        spec_coordinate_after(v, id, stage, waited).0.transaction matches Some(t) && t.phase
            == crate::pair_transaction::Phase::CommitPending && crate::pair_transaction::both(t.prepared),
{
    assert(stage == CoordinatorStage::Prepared);
    let locals = stage_plan(stage).1;
    let (v1, r1) = spec_apply_remote(v, id, Operation::Prepared);
    let (v3, r3) = spec_apply_local(v1, LocalEvent::Commit);
    assert(locals.drop_first() =~= Seq::<LocalEvent>::empty());
    assert(spec_apply_locals(v1, locals) == spec_apply_locals(v3, locals.drop_first()));
}

/// After the commit decision a failed wait is never reported as a plain
/// failure: the outcome is uncertain and the link is marked lost.
pub proof fn lemma_lost_link_after_commit_is_uncertain(
    v: ProtocolView,
    id: [u8; 16],
    stage: CoordinatorStage,
    e: ProtocolError,
)
    requires
        stage.after_commit(),
    ensures
        spec_coordinate_after(v, id, stage, Err(e)) == (
            spec_apply_local(v, LocalEvent::Disconnected).0,
            Err::<CoordinatorStep, ProtocolError>(ProtocolError::ProtocolUncertain),
        ),
{
}

/// The string value serde_json finds under the top-level key `command` of a
/// JSON text.
pub uninterp spec fn json_command(line: Seq<char>) -> Option<Seq<char>>;

/// `serde_json::from_str::<serde_json::Value>(line)`, then `get("command")`
/// and `as_str()`: the string value of the top-level `command` member, `None`
/// when the line is not JSON, has no such member, or it is not a string. The
/// value is named, not stated.
#[verifier::external_body]
fn command_of_line(line: &str) -> (r: Option<String>)
    ensures
        match r {
            Some(c) => json_command(line@) == Some(c@),
            None => json_command(line@) is None,
        },
{
    serde_json::from_str::<serde_json::Value>(line).ok().and_then(
        |value| value.get("command").and_then(serde_json::Value::as_str).map(str::to_owned),
    )
}

/// Whether the command read from an operator's line is `confirm`.
pub fn command_is_confirm(command: Option<String>) -> (b: bool)
    ensures
        b == (command matches Some(c) && c@ == "confirm"@),
{
    match command {
        Some(c) => str_eq(c.as_str(), "confirm"),
        None => false,
    }
}

/// Whether an operator's decision line is the explicit structured
/// `{"command":"confirm"}`; malformed input and every other command reject.
pub fn is_confirm_command(line: &str) -> (b: bool)
    ensures
        b == (json_command(line@) == Some("confirm"@)),
{
    command_is_confirm(command_of_line(line))
}

/// How serde_json writes one char inside a string: `"` and `\\` behind a
/// backslash, the short escapes `\b \t \n \f \r`, `\u00xx` (lowercase
/// hex) for every other control char below `0x20`, and every other char as
/// it is.
pub open spec fn json_char_escape(c: char) -> Seq<char> {
    if c == '"' {
        seq!['\\', '"']
    } else if c == '\\' {
        seq!['\\', '\\']
    } else if c == '\u{8}' {
        seq!['\\', 'b']
    } else if c == '\t' {
        seq!['\\', 't']
    } else if c == '\n' {
        seq!['\\', 'n']
    } else if c == '\u{c}' {
        seq!['\\', 'f']
    } else if c == '\r' {
        seq!['\\', 'r']
    } else if (c as u32) < 0x20 {
        seq!['\\', 'u', '0', '0', hex_char(((c as u32) / 16) as int), hex_char(((c as u32) % 16) as int)]
    } else {
        seq![c]
    }
}

/// The escaped contents of a JSON string: each char escaped in turn.
pub open spec fn json_escaped(s: Seq<char>) -> Seq<char>
    decreases s.len(),
{
    if s.len() == 0 {
        Seq::empty()
    } else {
        json_escaped(s.drop_last()) + json_char_escape(s.last())
    }
}

/// The JSON text serde_json writes for a string: the escaped string between
/// double quotes.
pub open spec fn json_string_literal(s: Seq<char>) -> Seq<char> {
    seq!['"'] + json_escaped(s) + seq!['"']
}

/// `serde_json::to_string(s)` for a string slice: the string between double
/// quotes with serde_json's escapes (`format_escaped_str`). Serialising a
/// string into memory cannot fail, so the text always comes back.
#[verifier::external_body]
fn json_quote(s: &str) -> (r: Option<String>)
    ensures
        r is Some,
        r.unwrap()@ == json_string_literal(s@),
{
    serde_json::to_string(s).ok()
}

fn quoted(s: &str) -> (r: String)
    ensures
        r@ == json_string_literal(s@),
{
    match json_quote(s) {
        Some(q) => q,
        None => "\"unknown\"".to_owned(),
    }
}

/// `{"event":"device_found","name":<peer>}`.
pub open spec fn device_found_event(peer: Seq<char>) -> Seq<char> {
    "{\"event\":\"device_found\",\"name\":"@ + json_string_literal(peer) + "}"@
}

/// The events the GUI prints for a BlueZ LESC numeric-comparison request:
/// the peer, the six-digit code, and the wait for the operator.
pub open spec fn lesc_events_text(request: PairingRequest) -> Seq<Seq<char>> {
    seq![
        device_found_event(request.peer@),
        "{\"event\":\"lesc_code\",\"code\":\""@ + zero_pad(decimal(request.passkey as nat), 6) + "\"}"@,
        "{\"event\":\"waiting_lesc_confirmation\"}"@,
    ]
}

/// The events the GUI prints for a DeskUnlock OOB request whose code is
/// `code`: the peer and the code to compare.
pub open spec fn oob_events_text(request: OobRequest, code: Seq<char>) -> Seq<Seq<char>> {
    seq![
        device_found_event(request.peer@),
        "{\"event\":\"oob_ready\",\"code\":"@ + json_string_literal(code) + "}"@,
    ]
}

/// The event the GUI prints for the terminal trust notice.
pub open spec fn bonded_event_text(notice: BondedNotice) -> Seq<char> {
    "{\"event\":\"bonded\",\"device\":"@ + json_string_literal(notice.peer@) + "}"@
}

/// The chars of each string, in order.
pub open spec fn strings_view(v: Seq<String>) -> Seq<Seq<char>> {
    Seq::new(v.len(), |i: int| v[i]@)
}

fn device_found(peer: &str) -> (r: String)
    ensures
        r@ == device_found_event(peer@),
{
    let q = quoted(peer);
    "{\"event\":\"device_found\",\"name\":".to_owned().concat(q.as_str()).concat("}")
}

/// The event lines for a BlueZ LESC numeric-comparison request.
pub fn lesc_events(request: &PairingRequest) -> (r: Vec<String>)
    ensures
        strings_view(r@) == lesc_events_text(*request),
{
    let code = format_zero_padded(request.passkey as u64, 6);
    let mut r: Vec<String> = Vec::new();
    r.push(device_found(request.peer.as_str()));
    r.push("{\"event\":\"lesc_code\",\"code\":\"".to_owned().concat(code.as_str()).concat("\"}"));
    r.push("{\"event\":\"waiting_lesc_confirmation\"}".to_owned());
    assert(strings_view(r@) =~= lesc_events_text(*request));
    r
}

/// The event lines for a DeskUnlock OOB request whose code is `code`.
pub fn oob_events(request: &OobRequest, code: &str) -> (r: Vec<String>)
    ensures
        strings_view(r@) == oob_events_text(*request, code@),
{
    let words = quoted(code);
    let mut r: Vec<String> = Vec::new();
    r.push(device_found(request.peer.as_str()));
    r.push("{\"event\":\"oob_ready\",\"code\":".to_owned().concat(words.as_str()).concat("}"));
    assert(strings_view(r@) =~= oob_events_text(*request, code@));
    r
}

/// The event line for the terminal trust notice.
pub fn bonded_event(notice: &BondedNotice) -> (r: String)
    ensures
        r@ == bonded_event_text(*notice),
{
    let q = quoted(notice.peer.as_str());
    "{\"event\":\"bonded\",\"device\":".to_owned().concat(q.as_str()).concat("}")
}

/// Sort one frame from the daemon: a LESC request, an OOB request or the
/// trust notice, tried in that order; `None` for anything else, which the
/// GUI skips.
pub fn classify_gui_frame(bytes: &[u8]) -> (r: Option<GuiEvent>)
    ensures
        match r {
            Some(GuiEvent::Lesc(req)) => PairingRequest::spec_wire_ok(bytes@) && req.spec_encode() == Some(bytes@),
            Some(GuiEvent::Oob(req)) => !PairingRequest::spec_wire_ok(bytes@) && OobRequest::spec_wire_ok(bytes@)
                && req.spec_encode() == Some(bytes@),
            Some(GuiEvent::Bonded(n)) => !PairingRequest::spec_wire_ok(bytes@) && !OobRequest::spec_wire_ok(bytes@)
                && BondedNotice::spec_wire_ok(bytes@) && n.spec_encode() == Some(bytes@),
            None => !PairingRequest::spec_wire_ok(bytes@) && !OobRequest::spec_wire_ok(bytes@)
                && !BondedNotice::spec_wire_ok(bytes@),
        },
{
    match PairingRequest::decode(bytes) {
        Some(req) => return Some(GuiEvent::Lesc(req)),
        None => {},
    }
    match OobRequest::decode(bytes) {
        Some(req) => return Some(GuiEvent::Oob(req)),
        None => {},
    }
    match BondedNotice::decode(bytes) {
        Some(n) => Some(GuiEvent::Bonded(n)),
        None => None,
    }
}

/// Sub-directory of the runtime dir shared with the waybar applet.
pub const PAIR_IPC_DIR_SUBPATH: &'static str = "syauth";

/// File of the pending pair-confirm request.
pub const PAIR_IPC_REQUEST_FILE: &'static str = "pair-request.json";

/// File of the operator's decision.
pub const PAIR_IPC_RESPONSE_FILE: &'static str = "pair-response.json";

/// How long the waybar handler waits for the operator, in milliseconds.
pub const PAIR_IPC_DECISION_TIMEOUT_MS: u64 = 25_000;

/// How often the waybar handler polls for the decision, in milliseconds.
pub const PAIR_IPC_POLL_INTERVAL_MS: u64 = 100;

/// The request file the waybar applet reads.
pub open spec fn pair_request_json_text(request_id: Seq<char>, passkey: u32, created_at_secs: u64) -> Seq<char> {
    "{\"schema_version\":1,\"kind\":\"pair_confirm\",\"request_id\":\""@ + request_id
        + "\",\"passkey\":\""@ + zero_pad(decimal(passkey as nat), 6) + "\",\"created_at_secs\":"@
        + decimal(created_at_secs as nat) + "}"@
}

/// The pair-confirm request for the waybar applet.
pub fn pair_request_json(request_id: &str, passkey: u32, created_at_secs: u64) -> (r: String)
    ensures
        r@ == pair_request_json_text(request_id@, passkey, created_at_secs),
{
    let code = format_zero_padded(passkey as u64, 6);
    let ts = format_zero_padded(created_at_secs, 0);
    "{\"schema_version\":1,\"kind\":\"pair_confirm\",\"request_id\":\"".to_owned().concat(request_id).concat(
        "\",\"passkey\":\"",
    ).concat(code.as_str()).concat("\",\"created_at_secs\":").concat(ts.as_str()).concat("}")
}

/// `str::parse::<u32>`: an optional `+`, then one or more ASCII digits,
/// whose value fits in a `u32`.
pub open spec fn spec_parse_u32(s: Seq<char>) -> Option<int> {
    let body = if s.len() > 0 && s[0] == '+' {
        s.drop_first()
    } else {
        s
    };
    if body.len() == 0 || !all_digits(body) || digits_value(body) > 4294967295 {
        None
    } else {
        Some(digits_value(body))
    }
}

/// `s.parse::<u32>()` on a string slice.
pub fn parse_u32(text: &str) -> (r: Option<u32>)
    ensures
        match (r, spec_parse_u32(text@)) {
            (Some(v), Some(w)) => v as int == w,
            (None, None) => true,
            _ => false,
        },
{
    let cs = chars_of(text);
    let n = cs.len();
    let start: usize = if n > 0 && cs[0] == '+' {
        1
    } else {
        0
    };
    let ghost body = cs@.subrange(start as int, n as int);
    assert(body =~= (if cs@.len() > 0 && cs@[0] == '+' {
        cs@.drop_first()
    } else {
        cs@
    }));
    if start == n {
        return None;
    }
    let mut acc: u64 = 0;
    let mut i: usize = start;
    while i < n
        invariant
            start <= i <= n,
            start < n,
            n == cs@.len(),
            cs@ == text@,
            body == cs@.subrange(start as int, n as int),
            body == (if text@.len() > 0 && text@[0] == '+' {
                text@.drop_first()
            } else {
                text@
            }),
            all_digits(cs@.subrange(start as int, i as int)),
            acc as int == digits_value(cs@.subrange(start as int, i as int)),
            acc <= 4294967295,
        decreases n - i,
    {
        let c = cs[i];
        if !('0' <= c && c <= '9') {
            proof {
                assert(body[i - start] == c);
            }
            return None;
        }
        let d = ((c as u32) - 48) as u64;
        let next = acc * 10 + d;
        proof {
            let pre = cs@.subrange(start as int, i + 1);
            assert(pre.drop_last() =~= cs@.subrange(start as int, i as int));
            assert(pre.last() == c);
            assert(all_digits(pre));
            assert(next as int == digits_value(pre));
        }
        if next > 4294967295 {
            proof {
                let pre = cs@.subrange(start as int, i + 1);
                if all_digits(body) {
                    assert(body.subrange(0, i + 1 - start) =~= pre);
                    lemma_digits_value_grows(body, i + 1 - start);
                }
            }
            return None;
        }
        acc = next;
        i = i + 1;
    }
    assert(cs@.subrange(start as int, n as int) =~= body);
    Some(acc as u32)
}

/// The directory shared with the waybar applet: `/run/user/<SUDO_UID>/syauth`
/// when `SUDO_UID` holds a UID (the pair process runs under `sudo`, which
/// resets the caller's runtime dir), else `<XDG_RUNTIME_DIR>/syauth` when
/// that is set and not empty, else none (the handler then rejects).
pub open spec fn spec_pair_ipc_dir(sudo_uid: Option<Seq<char>>, xdg_runtime_dir: Option<Seq<char>>) -> Option<
    Seq<char>,
> {
    if sudo_uid matches Some(u) && spec_parse_u32(u) is Some {
        Some(path_join("/run/user/"@ + decimal(spec_parse_u32(sudo_uid.unwrap()).unwrap() as nat), PAIR_IPC_DIR_SUBPATH@))
    } else {
        match xdg_runtime_dir {
            Some(x) => if x.len() == 0 {
                None
            } else {
                Some(path_join(x, PAIR_IPC_DIR_SUBPATH@))
            },
            None => None,
        }
    }
}

/// Resolve the directory shared with the waybar applet.
pub fn pair_ipc_dir(sudo_uid: Option<&str>, xdg_runtime_dir: Option<&str>) -> (r: Option<String>)
    ensures
        match (r, spec_pair_ipc_dir(crate::reconcile::str_view(sudo_uid), crate::reconcile::str_view(xdg_runtime_dir))) {
            (Some(a), Some(b)) => a@ == b,
            (None, None) => true,
            _ => false,
        },
{
    match sudo_uid {
        Some(u) => match parse_u32(u) {
            Some(uid) => {
                let base = "/run/user/".to_owned().concat(format_zero_padded(uid as u64, 0).as_str());
                return Some(join_path(base.as_str(), PAIR_IPC_DIR_SUBPATH));
            },
            None => {},
        },
        None => {},
    }
    match xdg_runtime_dir {
        Some(x) => if x.unicode_len() == 0 {
            None
        } else {
            Some(join_path(x, PAIR_IPC_DIR_SUBPATH))
        },
        None => None,
    }
}

/// An ASCII uppercase letter made lowercase; every other char kept.
pub open spec fn ascii_lower(c: char) -> char {
    if 'A' <= c && c <= 'Z' {
        ((c as u32) + 32) as char
    } else {
        c
    }
}

/// Whether an operator's answer to the `[y/N]` prompt accepts: `y` or `yes`
/// in any ASCII case, surrounding whitespace ignored. Everything else
/// rejects.
pub open spec fn spec_is_yes(line: Seq<char>) -> bool {
    let a = trim(line).map_values(|c: char| ascii_lower(c));
    a == "y"@ || a == "yes"@
}

/// Whether an operator's answer to the `[y/N]` prompt accepts.
pub fn is_yes_answer(line: &str) -> (b: bool)
    ensures
        b == spec_is_yes(line@),
{
    let cs = chars_of(line);
    let t = trim_chars(&cs);
    let mut lower: Vec<char> = Vec::new();
    let mut i: usize = 0;
    while i < t.len()
        invariant
            i <= t@.len(),
            lower@ == t@.subrange(0, i as int).map_values(|c: char| ascii_lower(c)),
        decreases t@.len() - i,
    {
        let c = t[i];
        let l = if 'A' <= c && c <= 'Z' {
            ((c as u32) + 32) as u8 as char
        } else {
            c
        };
        proof {
            if 'A' <= c && c <= 'Z' {
                assert(((c as u32) + 32) as u8 as char == ((c as u32) + 32) as char);
            }
        }
        lower.push(l);
        i = i + 1;
        assert(lower@ =~= t@.subrange(0, i as int).map_values(|c: char| ascii_lower(c)));
    }
    assert(t@.subrange(0, t@.len() as int) =~= t@);
    proof {
        reveal_strlit("y");
        reveal_strlit("yes");
    }
    let s = string_from_chars(lower.as_slice());
    str_eq(s.as_str(), "y") || str_eq(s.as_str(), "yes")
}

/// The phone's public key from the bytes its `phone-pubkey` write carried:
/// exactly 32 bytes, else the error text.
pub fn phone_pubkey_from_write(bytes: &[u8]) -> (r: Result<[u8; 32], String>)
    ensures
        bytes@.len() == 32 ==> (r matches Ok(k) && k@ == bytes@),
        bytes@.len() != 32 ==> (r matches Err(m) && m@ == "phone-pubkey: expected 32 bytes, got "@ + decimal(
            bytes@.len(),
        )),
{
    if bytes.len() != 32 {
        let got = format_zero_padded(bytes.len() as u64, 0);
        return Err("phone-pubkey: expected 32 bytes, got ".to_owned().concat(got.as_str()));
    }
    let mut k = [0u8; 32];
    let mut i: usize = 0;
    while i < 32
        invariant
            bytes@.len() == 32,
            i <= 32,
            k@.len() == 32,
            forall|j: int| 0 <= j < i ==> k@[j] == bytes@[j],
        decreases 32 - i,
    {
        k[i] = bytes[i];
        i = i + 1;
    }
    assert(k@ =~= bytes@);
    Ok(k)
}

} // verus!
