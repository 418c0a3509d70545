//! The daemon's long-lived BLE peripheral: its error surface, the routing of
//! what a bonded phone writes on the response characteristic, and the
//! bookkeeping of the pair-session BlueZ agent.
use vstd::prelude::*;
use vstd::utf8::{valid_utf8, decode_utf8};
use vstd::string::{StrSliceExecFns, StringExecFns};
use crate::pair_transaction::{Message, Operation};
use crate::text::{
    chars_of, trim, trim_chars, str_from_utf8, is_ascii_digit, hex_lower, push_hex_lower,
};
use crate::be_bytes::copy_range;
use crate::text::str_eq;

verus! {

broadcast use vstd::utf8::group_utf8_lib;

/// Presence heartbeat a bonded phone writes: `SYAUTH-PRESENCE-v1`.
pub const PRESENCE_HEARTBEAT: [u8; 18] = [
    0x53, 0x59, 0x41, 0x55, 0x54, 0x48, 0x2d, 0x50, 0x52, 0x45, 0x53, 0x45, 0x4e, 0x43, 0x45, 0x2d,
    0x76, 0x31,
];

/// Prefix of an RSSI telemetry sample: `SYAUTH-RSSI-v1:`.
pub const RSSI_TELEMETRY_PREFIX: [u8; 15] = [
    0x53, 0x59, 0x41, 0x55, 0x54, 0x48, 0x2d, 0x52, 0x53, 0x53, 0x49, 0x2d, 0x76, 0x31, 0x3a,
];

/// Largest response write read at once.
pub const RESPONSE_READ_BUF_BYTES: usize = 512;

/// Failures of the transport layer that the peripheral maps onto its own.
#[derive(Debug, Clone, PartialEq, Eq)]
pub enum TransportError {
    /// The named BlueZ adapter does not exist on this host.
    AdapterMissing {
        /// The adapter id the caller asked for.
        name: String,
    },
    /// The GATT connection closed.
    Closed,
}

impl TransportError {
    /// The human-readable text of the error.
    pub open spec fn spec_message(self) -> Seq<char> {
        match self {
            TransportError::AdapterMissing { name } => "bluetooth adapter '"@ + name@ + "' not found"@,
            TransportError::Closed => "connection closed"@,
        }
    }

    /// The human-readable text of the error.
    pub fn message(&self) -> (r: String)
        ensures
            r@ == self.spec_message(),
    {
        match self {
            TransportError::AdapterMissing { name } => "bluetooth adapter '".to_owned().concat(name.as_str()).concat(
                "' not found",
            ),
            TransportError::Closed => "connection closed".to_owned(),
        }
    }
}

/// Errors of the persistent peripheral.
#[derive(Debug, Clone, PartialEq, Eq)]
pub enum PeripheralError {
    /// The named BlueZ adapter does not exist on this host.
    AdapterMissing {
        /// The adapter id the caller asked for (e.g. `"hci0"`).
        name: String,
    },
    /// A peer that was never added was named.
    UnknownPeer {
        /// The peer id that was not found.
        peer_id: String,
    },
    /// A peer was added twice.
    PeerAlreadyAdded {
        /// The peer id that collided.
        peer_id: String,
    },
    /// An upstream BlueZ failure, by its rendered text.
    Backend {
        /// Human-readable description of the upstream failure.
        reason: String,
    },
    /// The PAM client cancelled the in-flight challenge.
    Cancelled,
    /// No response arrived before the deadline.
    ResponseTimeout {
        /// The peer id the orchestrator was waiting on.
        peer_id: String,
        /// The deadline that elapsed, in milliseconds.
        deadline_ms: u64,
    },
}

impl PeripheralError {
    /// A transport failure as a peripheral failure: a missing adapter stays
    /// one; anything else becomes a backend failure carrying its text.
    pub fn from(err: TransportError) -> (r: PeripheralError)
        ensures
            match err {
                TransportError::AdapterMissing { name } => r == PeripheralError::AdapterMissing { name },
                other => r matches PeripheralError::Backend { reason } && reason@ == other.spec_message(),
            },
    {
        match err {
            TransportError::AdapterMissing { name } => PeripheralError::AdapterMissing { name },
            other => PeripheralError::Backend { reason: other.message() },
        }
    }
}

/// The peer id a day-2 `Revoke` frame names: a strict V2 message whose
/// operation is `Revoke` carries the revoking peer's id in its transaction
/// field. Every other write yields `None`.
pub fn revoke_peer_id(bytes: &[u8]) -> (r: Option<[u8; 16]>)
    ensures
        match r {
            Some(id) => Message::spec_wire_ok(bytes@) && bytes@[17] == Operation::Revoke.spec_code()
                && id@ == bytes@.subrange(1, 17),
            None => !(Message::spec_wire_ok(bytes@) && bytes@[17] == Operation::Revoke.spec_code()),
        },
{
    match Message::decode(bytes) {
        Ok(message) => {
            proof {
                crate::pair_transaction::lemma_operation_code_injective(message.operation);
                crate::pair_transaction::lemma_operation_code_injective(Operation::Revoke);
                assert(message.transaction@ =~= message.spec_encode().subrange(1, 17));
            }
            if message.operation == Operation::Revoke {
                Some(message.transaction)
            } else {
                None
            }
        },
        Err(_) => None,
    }
}

/// The value of an ASCII digit.
pub open spec fn digit_value(c: char) -> int {
    (c as u32) as int - 48
}

/// Every char is an ASCII digit.
pub open spec fn all_digits(s: Seq<char>) -> bool {
    forall|i: int| 0 <= i < s.len() ==> is_ascii_digit(#[trigger] s[i])
}

/// The number a run of decimal digits spells.
pub open spec fn digits_value(s: Seq<char>) -> int
    decreases s.len(),
{
    if s.len() == 0 {
        0
    } else {
        10 * digits_value(s.drop_last()) + digit_value(s.last())
    }
}

/// `str::parse::<i32>`: an optional `+` or `-`, then one or more ASCII
/// digits, whose value fits in an `i32`.
pub open spec fn spec_parse_i32(s: Seq<char>) -> Option<int> {
    if s.len() == 0 {
        None
    } else {
        let body = if s[0] == '-' || s[0] == '+' {
            s.drop_first()
        } else {
            s
        };
        if body.len() == 0 || !all_digits(body) {
            None
        } else {
            let v = if s[0] == '-' {
                -digits_value(body)
            } else {
                digits_value(body)
            };
            if -2147483648 <= v && v <= 2147483647 {
                Some(v)
            } else {
                None
            }
        }
    }
}

pub proof fn lemma_digits_value_nonneg(s: Seq<char>)
    requires
        all_digits(s),
    ensures
        digits_value(s) >= 0,
    decreases s.len(),
{
    if s.len() > 0 {
        assert(is_ascii_digit(s[s.len() - 1]));
        lemma_digits_value_nonneg(s.drop_last());
    }
}

pub proof fn lemma_digits_value_grows(s: Seq<char>, k: int)
    requires
        all_digits(s),
        0 <= k <= s.len(),
    ensures
        digits_value(s) >= digits_value(s.subrange(0, k)),
    decreases s.len(),
{
    if k < s.len() {
        assert(is_ascii_digit(s[s.len() - 1]));
        lemma_digits_value_nonneg(s.drop_last());
        lemma_digits_value_grows(s.drop_last(), k);
        assert(s.drop_last().subrange(0, k) =~= s.subrange(0, k));
    } else {
        assert(s.subrange(0, k) =~= s);
    }
}

/// `s.parse::<i32>()` on the chars of `s`.
pub fn parse_i32(cs: &Vec<char>) -> (r: Option<i32>)
    ensures
        match (r, spec_parse_i32(cs@)) {
            (Some(v), Some(w)) => v as int == w,
            (None, None) => true,
            _ => false,
        },
{
    let n = cs.len();
    if n == 0 {
        return None;
    }
    let neg = cs[0] == '-';
    let start: usize = if cs[0] == '-' || cs[0] == '+' {
        1
    } else {
        0
    };
    let ghost body = cs@.subrange(start as int, n as int);
    assert(body =~= (if cs@[0] == '-' || cs@[0] == '+' {
        cs@.drop_first()
    } else {
        cs@
    }));
    if start == n {
        return None;
    }
    let mut acc: u64 = 0;
    let mut i: usize = start;
    while i < n
        invariant
            start <= i <= n,
            n == cs@.len(),
            n > 0,
            start < n,
            body == cs@.subrange(start as int, n as int),
            body == (if cs@[0] == '-' || cs@[0] == '+' {
                cs@.drop_first()
            } else {
                cs@
            }),
            all_digits(cs@.subrange(start as int, i as int)),
            acc as int == digits_value(cs@.subrange(start as int, i as int)),
            acc <= 2147483648,
        decreases n - i,
    {
        let c = cs[i];
        if !('0' <= c && c <= '9') {
            proof {
                assert(body[i - start] == c);
            }
            return None;
        }
        let d = ((c as u32) - 48) as u64;
        let next = acc * 10 + d;
        proof {
            let pre = cs@.subrange(start as int, i + 1);
            assert(pre.drop_last() =~= cs@.subrange(start as int, i as int));
            assert(pre.last() == c);
            assert(all_digits(pre));
            assert(next as int == digits_value(pre));
        }
        if next > 2147483648 {
            proof {
                let pre = cs@.subrange(start as int, i + 1);
                if all_digits(body) {
                    assert(body.subrange(0, i + 1 - start) =~= pre);
                    lemma_digits_value_grows(body, i + 1 - start);
                }
            }
            return None;
        }
        acc = next;
        i = i + 1;
    }
    assert(cs@.subrange(start as int, n as int) =~= body);
    if neg {
        Some((0 - (acc as i64)) as i32)
    } else if acc > 2147483647 {
        None
    } else {
        Some(acc as i32)
    }
}

/// `SYAUTH-RSSI-v1:` as a sequence of bytes.
pub open spec fn rssi_prefix() -> Seq<u8> {
    seq![0x53u8, 0x59, 0x41, 0x55, 0x54, 0x48, 0x2d, 0x52, 0x53, 0x53, 0x49, 0x2d, 0x76, 0x31, 0x3a]
}

/// The RSSI a telemetry sample reports: the text after the prefix, trimmed,
/// read as an `i32` between -127 and 0.
pub open spec fn spec_parse_rssi(bytes: Seq<u8>) -> Option<int> {
    if bytes.len() >= 15 && bytes.subrange(0, 15) == rssi_prefix() && valid_utf8(
        bytes.subrange(15, bytes.len() as int),
    ) {
        match spec_parse_i32(trim(decode_utf8(bytes.subrange(15, bytes.len() as int)))) {
            Some(v) => if -127 <= v && v <= 0 {
                Some(v)
            } else {
                None
            },
            None => None,
        }
    } else {
        None
    }
}

fn has_rssi_prefix(bytes: &[u8]) -> (b: bool)
    ensures
        b == (bytes@.len() >= 15 && bytes@.subrange(0, 15) == rssi_prefix()),
{
    let prefix = RSSI_TELEMETRY_PREFIX;
    assert(prefix@ =~= rssi_prefix());
    if bytes.len() < 15 {
        return false;
    }
    let mut i: usize = 0;
    while i < 15
        invariant
            bytes@.len() >= 15,
            prefix@ == rssi_prefix(),
            i <= 15,
            forall|j: int| 0 <= j < i ==> bytes@[j] == prefix@[j],
        decreases 15 - i,
    {
        if bytes[i] != prefix[i] {
            assert(bytes@.subrange(0, 15)[i as int] != rssi_prefix()[i as int]);
            return false;
        }
        i = i + 1;
    }
    assert(bytes@.subrange(0, 15) =~= rssi_prefix());
    true
}

/// Parse an RSSI telemetry sample (`SYAUTH-RSSI-v1:<dBm>`).
pub fn parse_rssi(bytes: &[u8]) -> (r: Option<i32>)
    ensures
        match (r, spec_parse_rssi(bytes@)) {
            (Some(v), Some(w)) => v as int == w,
            (None, None) => true,
            _ => false,
        },
{
    if !has_rssi_prefix(bytes) {
        return None;
    }
    let rest = copy_range(bytes, 15, bytes.len());
    let text = match str_from_utf8(rest.as_slice()) {
        Some(t) => t,
        None => return None,
    };
    let cs = chars_of(text);
    let trimmed = trim_chars(&cs);
    match parse_i32(&trimmed) {
        Some(v) => if -127 <= v && v <= 0 {
            Some(v)
        } else {
            None
        },
        None => None,
    }
}

/// What a bonded phone's write on the response characteristic is.
#[derive(Debug, Clone, Copy, PartialEq, Eq)]
pub enum PeerWrite {
    /// An empty read: the reader closed.
    Closed,
    /// The presence heartbeat.
    Presence,
    /// A day-2 revocation naming this peer id.
    Revoke([u8; 16]),
    /// An RSSI telemetry sample, in dBm.
    Rssi(i32),
    /// Anything else: a challenge response for the orchestrator.
    Response,
}

/// `SYAUTH-PRESENCE-v1` as a sequence of bytes.
pub open spec fn presence_heartbeat() -> Seq<u8> {
    seq![
        0x53u8, 0x59, 0x41, 0x55, 0x54, 0x48, 0x2d, 0x50, 0x52, 0x45, 0x53, 0x45, 0x4e, 0x43, 0x45,
        0x2d, 0x76, 0x31,
    ]
}

/// Route one write: the heartbeat first, then a revocation, then an RSSI
/// sample; everything else is a challenge response.
pub open spec fn spec_classify_peer_write(bytes: Seq<u8>) -> PeerWrite {
    if bytes.len() == 0 {
        PeerWrite::Closed
    } else if bytes == presence_heartbeat() {
        PeerWrite::Presence
    } else if Message::spec_wire_ok(bytes) && bytes[17] == Operation::Revoke.spec_code() {
        PeerWrite::Revoke(choose|id: [u8; 16]| id@ == bytes.subrange(1, 17))
    } else if spec_parse_rssi(bytes) is Some {
        PeerWrite::Rssi(spec_parse_rssi(bytes).unwrap() as i32)
    } else {
        PeerWrite::Response
    }
}

fn is_presence_heartbeat(bytes: &[u8]) -> (b: bool)
    ensures
        b == (bytes@ == presence_heartbeat()),
{
    let beat = PRESENCE_HEARTBEAT;
    assert(beat@ =~= presence_heartbeat());
    if bytes.len() != 18 {
        return false;
    }
    let mut i: usize = 0;
    while i < 18
        invariant
            bytes@.len() == 18,
            beat@ == presence_heartbeat(),
            i <= 18,
            forall|j: int| 0 <= j < i ==> bytes@[j] == beat@[j],
        decreases 18 - i,
    {
        if bytes[i] != beat[i] {
            return false;
        }
        i = i + 1;
    }
    assert(bytes@ =~= presence_heartbeat());
    true
}

/// Classify one write of a bonded phone on the response characteristic.
pub fn classify_peer_write(bytes: &[u8]) -> (r: PeerWrite)
    ensures
        match r {
            PeerWrite::Revoke(id) => spec_classify_peer_write(bytes@) is Revoke && id@ == bytes@.subrange(1, 17),
            other => other == spec_classify_peer_write(bytes@),
        },
{
    if bytes.len() == 0 {
        return PeerWrite::Closed;
    }
    if is_presence_heartbeat(bytes) {
        return PeerWrite::Presence;
    }
    match revoke_peer_id(bytes) {
        Some(id) => {
            return PeerWrite::Revoke(id);
        },
        None => {},
    }
    match parse_rssi(bytes) {
        Some(v) => PeerWrite::Rssi(v),
        None => PeerWrite::Response,
    }
}

/// The challenge-ready marker's text for the token `bytes`: the bytes as
/// lowercase hex, then a newline.
pub fn challenge_ready_text(bytes: &[u8; 16]) -> (r: String)
    ensures
        r@ == hex_lower(bytes@).push('\n'),
{
    let mut t = String::new();
    push_hex_lower(&mut t, bytes);
    proof {
        reveal_strlit("\n");
    }
    t.append("\n");
    assert(t@ =~= hex_lower(bytes@).push('\n'));
    t
}

/// A fresh challenge-ready token: 16 random bytes as lowercase hex and a
/// newline, or `None` when the OS random source failed.
pub fn challenge_ready_token() -> (r: Option<String>)
    ensures
        r matches Some(t) ==> exists|b: Seq<u8>| b.len() == 16 && t@ == hex_lower(b).push('\n'),
{
    match crate::pair_engine::random_16_bytes() {
        Some(bytes) => Some(challenge_ready_text(&bytes)),
        None => None,
    }
}

/// Adapter state a pair session changed, so that release restores only
/// that. DeskUnlock never touches the adapter's `Discoverable` flag; only
/// `Pairable` is its own, and only for the session.
#[derive(Debug, Clone, Copy, PartialEq, Eq, Structural)]
pub struct PairAgentRestore {
    /// Previous `Pairable` value, present only when this session changed it.
    pub previous_pairable: Option<bool>,
}

impl PairAgentRestore {
    /// Restore plan for a session that drove `Pairable` to the desired
    /// state. An unchanged flag is never touched on release.
    pub fn from_pairable(changed: bool, previous: bool) -> (r: Self)
        ensures
            r.previous_pairable == (if changed {
                Some(previous)
            } else {
                None
            }),
    {
        PairAgentRestore { previous_pairable: if changed {
            Some(previous)
        } else {
            None
        } }
    }
}

/// A held pair-session BlueZ agent and the adapter state to restore.
/// Generic over the handle so the bookkeeping needs no radio.
pub struct PairAgentSession<H> {
    handle: Option<H>,
    restore: Option<PairAgentRestore>,
}

impl<H> PairAgentSession<H> {
    /// Whether an agent is held.
    pub closed spec fn held(&self) -> bool {
        self.handle is Some
    }

    /// The plan release would restore.
    pub closed spec fn pending_restore(&self) -> Option<PairAgentRestore> {
        if self.handle is Some {
            self.restore
        } else {
            None
        }
    }

    /// Whether an agent is held.
    pub fn is_held(&self) -> (b: bool)
        ensures
            b == self.held(),
    {
        self.handle.is_some()
    }

    /// Hold `handle` with the plan that release restores.
    pub fn begin(&mut self, handle: H, restore: PairAgentRestore)
        ensures
            final(self).held(),
            final(self).pending_restore() == Some(restore),
    {
        self.handle = Some(handle);
        self.restore = Some(restore);
    }

    /// Release the held session, returning its restore plan exactly once;
    /// further calls are no-ops, so release neither leaks nor restores twice.
    pub fn end(&mut self) -> (r: Option<PairAgentRestore>)
        ensures
            r == old(self).pending_restore(),
            !final(self).held(),
            final(self).pending_restore() is None,
    {
        match self.handle.take() {
            Some(_) => self.restore.take(),
            None => None,
        }
    }
}

impl<H> Default for PairAgentSession<H> {
    fn default() -> (r: Self)
        ensures
            !r.held(),
            r.pending_restore() is None,
    {
        PairAgentSession { handle: None, restore: None }
    }
}

/// What the `Pairable` acquisition does after reading the flag.
#[derive(Debug, Clone, Copy, PartialEq, Eq, Structural)]
pub enum PairableStep {
    /// The flag is verified set: `true` when this session changed it.
    Verified(bool),
    /// Set the flag, wait, and read it again.
    SetAndRecheck,
    /// The retry budget is spent without the flag verified.
    GiveUp,
}

/// The `Pairable` acquisition after its `attempt`-th reading (the first
/// reading is attempt 0, before any write): a set flag is verified, changed
/// by this session unless it was set from the start; otherwise the flag is
/// written and read again until `retries` writes were made.
pub fn pairable_step(attempt: usize, retries: usize, pairable: bool) -> (r: PairableStep)
    ensures
        r == (if pairable {
            PairableStep::Verified(attempt > 0)
        } else if attempt < retries {
            PairableStep::SetAndRecheck
        } else {
            PairableStep::GiveUp
        }),
{
    if pairable {
        PairableStep::Verified(attempt > 0)
    } else if attempt < retries {
        PairableStep::SetAndRecheck
    } else {
        PairableStep::GiveUp
    }
}

/// The error when `Pairable` could not be verified within the budget.
pub fn pairable_unverified() -> (r: PeripheralError)
    ensures
        r matches PeripheralError::Backend { reason } && reason@ == "adapter Pairable could not be verified as true"@,
{
    PeripheralError::Backend { reason: "adapter Pairable could not be verified as true".to_owned() }
}

/// The error when the BlueZ agent registration failed.
pub fn register_agent_failed(err: &str) -> (r: PeripheralError)
    ensures
        r matches PeripheralError::Backend { reason } && reason@ == "register_agent: "@ + err@,
{
    PeripheralError::Backend { reason: "register_agent: ".to_owned().concat(err) }
}

/// What agent acquisition does once the BlueZ registration has answered.
#[derive(Debug, Clone)]
pub enum AgentAcquired {
    /// Hold the agent, with the adapter state to restore on release.
    Hold(PairAgentRestore),
    /// Registration failed: write the flag back to this value (`None` when
    /// this session did not change it), then fail with the error.
    Undo(Option<bool>, PeripheralError),
}

/// The acquisition after registration (`Err` carries the failure's text),
/// for a session that found `Pairable` at `previous_pairable` and changed it
/// when `pairable_changed`: a failure rolls back only a change this session
/// made, so no partially acquired adapter state is left behind.
pub fn agent_acquired(registration: Result<(), String>, pairable_changed: bool, previous_pairable: bool) -> (r:
    AgentAcquired)
    ensures
        match registration {
            Ok(()) => r matches AgentAcquired::Hold(plan) && plan.previous_pairable == (if pairable_changed {
                Some(previous_pairable)
            } else {
                None
            }),
            Err(e) => r matches AgentAcquired::Undo(back, PeripheralError::Backend { reason }) && back == (
            if pairable_changed {
                Some(previous_pairable)
            } else {
                None
            }) && reason@ == "register_agent: "@ + e@,
        },
{
    let plan = PairAgentRestore::from_pairable(pairable_changed, previous_pairable);
    match registration {
        Ok(()) => AgentAcquired::Hold(plan),
        Err(e) => AgentAcquired::Undo(plan.previous_pairable, register_agent_failed(e.as_str())),
    }
}

/// A session released after `begin` gives its plan back once: the first
/// release returns it, the second returns nothing.
pub proof fn lemma_release_is_exactly_once<H>(
    s0: PairAgentSession<H>,
    s1: PairAgentSession<H>,
    s2: PairAgentSession<H>,
    restore: PairAgentRestore,
    first: Option<PairAgentRestore>,
    second: Option<PairAgentRestore>,
)
    requires
        s0.held() && s0.pending_restore() == Some(restore),
        first == s0.pending_restore() && !s1.held() && s1.pending_restore() is None,
        second == s1.pending_restore() && !s2.held(),
    ensures
        first == Some(restore),
        second is None,
{
}

/// What a challenge notification does after one write attempt.
#[derive(Debug, Clone, PartialEq, Eq)]
pub enum NotifyStep {
    /// The frame reached the phone.
    Delivered,
    /// The cached notifier is dead or missing: rebuild the GATT application,
    /// wait for a fresh subscription and retry the same challenge.
    Rebuild,
    /// The retry failed too.
    Fail(PeripheralError),
}

/// The notification's next move after attempt `attempt` (0 or 1) on
/// `peer_id`: `write` is `None` when no notifier was subscribed, else the
/// write's outcome with the error's text. The first failure rebuilds once;
/// a failure of the retry is final.
pub fn notify_step(attempt: usize, peer_id: &str, write: Option<Result<(), String>>) -> (r: NotifyStep)
    ensures
        match write {
            Some(Ok(())) => r == NotifyStep::Delivered,
            Some(Err(e)) => if attempt == 0 {
                r == NotifyStep::Rebuild
            } else {
                r matches NotifyStep::Fail(PeripheralError::Backend { reason }) && reason@ == "notify_challenge retry write: "@
                    + e@
            },
            None => if attempt == 0 {
                r == NotifyStep::Rebuild
            } else {
                r matches NotifyStep::Fail(PeripheralError::Backend { reason }) && reason@
                    == "no active GATT subscription after rebuild for peer_id="@ + peer_id@
            },
        },
{
    match write {
        Some(Ok(())) => NotifyStep::Delivered,
        Some(Err(e)) => if attempt == 0 {
            NotifyStep::Rebuild
        } else {
            NotifyStep::Fail(
                PeripheralError::Backend { reason: "notify_challenge retry write: ".to_owned().concat(e.as_str()) },
            )
        },
        None => if attempt == 0 {
            NotifyStep::Rebuild
        } else {
            NotifyStep::Fail(
                PeripheralError::Backend {
                    reason: "no active GATT subscription after rebuild for peer_id=".to_owned().concat(peer_id),
                },
            )
        },
    }
}

/// Width of the bond key a peer is registered with.
pub const BOND_KEY_BYTES: usize = 32;

/// What the radio-free peripheral has recorded.
pub struct FakeView {
    /// Registered peers, in insertion order, each with its bond key.
    pub peers: Seq<(String, [u8; BOND_KEY_BYTES])>,
    /// Every advertised UUID set, in call order.
    pub session_uuid_calls: Seq<Seq<u128>>,
    /// Every delivered challenge, in call order.
    pub notify_calls: Seq<(String, Seq<u8>)>,
    /// Injected responses not yet taken, in injection order.
    pub queued: Seq<(String, Seq<u8>)>,
}

/// The ids of registered peers, as chars.
pub open spec fn peer_ids(peers: Seq<(String, [u8; BOND_KEY_BYTES])>) -> Seq<Seq<char>> {
    Seq::new(peers.len(), |i: int| peers[i].0@)
}

/// The index of the oldest response queued for `peer`.
pub open spec fn first_queued(queued: Seq<(String, Seq<u8>)>, peer: Seq<char>) -> Option<int> {
    if exists|i: int| 0 <= i < queued.len() && queued[i].0@ == peer {
        Some(choose|i: int| 0 <= i < queued.len() && queued[i].0@ == peer && forall|j: int| 0 <= j < i ==> queued[j].0@ != peer)
    } else {
        None
    }
}

/// Radio-free peripheral for tests: records every call in order, keeps
/// the peer registry and hands out injected responses per peer, oldest
/// first.
pub struct FakePeripheral {
    peers: Vec<(String, [u8; BOND_KEY_BYTES])>,
    session_uuid_calls: Vec<Vec<u128>>,
    notify_calls: Vec<(String, Vec<u8>)>,
    queued: Vec<(String, Vec<u8>)>,
}

impl View for FakePeripheral {
    type V = FakeView;

    closed spec fn view(&self) -> FakeView {
        FakeView {
            peers: self.peers@,
            session_uuid_calls: Seq::new(self.session_uuid_calls@.len(), |i: int| self.session_uuid_calls@[i]@),
            notify_calls: Seq::new(self.notify_calls@.len(), |i: int| (self.notify_calls@[i].0, self.notify_calls@[i].1@)),
            queued: Seq::new(self.queued@.len(), |i: int| (self.queued@[i].0, self.queued@[i].1@)),
        }
    }
}

impl FakePeripheral {
    /// No peer is registered twice.
    pub open spec fn wf(&self) -> bool {
        peer_ids(self@.peers).no_duplicates()
    }

    /// No peers, no advertised UUIDs, no recorded calls.
    pub fn new() -> (r: Self)
        ensures
            r.wf(),
            r@.peers.len() == 0,
            r@.session_uuid_calls.len() == 0,
            r@.notify_calls.len() == 0,
            r@.queued.len() == 0,
    {
        let r = FakePeripheral {
            peers: Vec::new(),
            session_uuid_calls: Vec::new(),
            notify_calls: Vec::new(),
            queued: Vec::new(),
        };
        assert(peer_ids(r@.peers) =~= Seq::<Seq<char>>::empty());
        r
    }

    fn index_of(&self, peer_id: &str) -> (r: Option<usize>)
        ensures
            match r {
                Some(i) => i < self@.peers.len() && self@.peers[i as int].0@ == peer_id@,
                None => !peer_ids(self@.peers).contains(peer_id@),
            },
    {
        let mut i: usize = 0;
        while i < self.peers.len()
            invariant
                i <= self.peers@.len(),
                forall|j: int| 0 <= j < i ==> self@.peers[j].0@ != peer_id@,
            decreases self.peers@.len() - i,
        {
            if str_eq(self.peers[i].0.as_str(), peer_id) {
                return Some(i);
            }
            i = i + 1;
        }
        proof {
            if peer_ids(self@.peers).contains(peer_id@) {
                let k = choose|k: int| 0 <= k < peer_ids(self@.peers).len() && peer_ids(self@.peers)[k] == peer_id@;
                assert(self@.peers[k].0@ == peer_id@);
            }
        }
        None
    }

    /// The registered peer ids, in insertion order.
    pub fn peers(&self) -> (r: Vec<String>)
        ensures
            r@ == Seq::new(self@.peers.len(), |i: int| self@.peers[i].0),
    {
        let mut r: Vec<String> = Vec::new();
        let mut i: usize = 0;
        while i < self.peers.len()
            invariant
                i <= self.peers@.len(),
                r@ == Seq::new(i as nat, |k: int| self@.peers[k].0),
            decreases self.peers@.len() - i,
        {
            r.push(self.peers[i].0.clone());
            i = i + 1;
            assert(r@ =~= Seq::new(i as nat, |k: int| self@.peers[k].0));
        }
        r
    }

    /// Every advertised UUID set, in call order.
    pub fn session_uuid_calls(&self) -> (r: Vec<Vec<u128>>)
        ensures
            Seq::new(r@.len(), |i: int| r@[i]@) == self@.session_uuid_calls,
    {
        let mut r: Vec<Vec<u128>> = Vec::new();
        let mut i: usize = 0;
        while i < self.session_uuid_calls.len()
            invariant
                i <= self.session_uuid_calls@.len(),
                r@.len() == i,
                forall|k: int| 0 <= k < i ==> #[trigger] r@[k]@ == self@.session_uuid_calls[k],
            decreases self.session_uuid_calls@.len() - i,
        {
            let v = copy_u128s(&self.session_uuid_calls[i]);
            r.push(v);
            i = i + 1;
        }
        assert(Seq::new(r@.len(), |k: int| r@[k]@) =~= self@.session_uuid_calls);
        r
    }

    /// Every delivered challenge, in call order.
    pub fn notify_calls(&self) -> (r: Vec<(String, Vec<u8>)>)
        ensures
            Seq::new(r@.len(), |i: int| (r@[i].0, r@[i].1@)) == self@.notify_calls,
    {
        let mut r: Vec<(String, Vec<u8>)> = Vec::new();
        let mut i: usize = 0;
        while i < self.notify_calls.len()
            invariant
                i <= self.notify_calls@.len(),
                r@.len() == i,
                forall|k: int| 0 <= k < i ==> #[trigger] r@[k].0 == self@.notify_calls[k].0 && r@[k].1@ == self@.notify_calls[k].1,
            decreases self.notify_calls@.len() - i,
        {
            let frame = copy_range(self.notify_calls[i].1.as_slice(), 0, self.notify_calls[i].1.len());
            assert(frame@ =~= self@.notify_calls[i as int].1);
            r.push((self.notify_calls[i].0.clone(), frame));
            i = i + 1;
        }
        assert(Seq::new(r@.len(), |k: int| (r@[k].0, r@[k].1@)) =~= self@.notify_calls);
        r
    }

    /// Register a peer; a peer id that is already registered is refused and
    /// nothing changes.
    pub fn add_peer(&mut self, peer_id: &str, bond_key: &[u8; BOND_KEY_BYTES]) -> (r: Result<(), PeripheralError>)
        requires
            old(self).wf(),
        ensures
            final(self).wf(),
            peer_ids(old(self)@.peers).contains(peer_id@) ==> (r matches Err(PeripheralError::PeerAlreadyAdded { peer_id: p })
                && p@ == peer_id@) && final(self)@ == old(self)@,
            !peer_ids(old(self)@.peers).contains(peer_id@) ==> r is Ok && peer_ids(final(self)@.peers) == peer_ids(
                old(self)@.peers,
            ).push(peer_id@) && final(self)@.peers.last().1 == *bond_key && final(self)@ == (FakeView {
                peers: final(self)@.peers,
                ..old(self)@
            }),
    {
        match self.index_of(peer_id) {
            Some(i) => {
                proof {
                    assert(peer_ids(self@.peers)[i as int] == peer_id@);
                }
                Err(PeripheralError::PeerAlreadyAdded { peer_id: peer_id.to_owned() })
            },
            None => {
                let ghost before = self@;
                let id = peer_id.to_owned();
                self.peers.push((id, *bond_key));
                proof {
                    assert(peer_ids(self@.peers) =~= peer_ids(before.peers).push(peer_id@));
                    assert(self@.session_uuid_calls =~= before.session_uuid_calls);
                    assert(self@.notify_calls =~= before.notify_calls);
                    assert(self@.queued =~= before.queued);
                }
                Ok(())
            },
        }
    }

    /// Drop a registered peer; an unknown peer id is refused and nothing
    /// changes.
    pub fn remove_peer(&mut self, peer_id: &str) -> (r: Result<(), PeripheralError>)
        requires
            old(self).wf(),
        ensures
            final(self).wf(),
            !peer_ids(old(self)@.peers).contains(peer_id@) ==> (r matches Err(PeripheralError::UnknownPeer { peer_id: p })
                && p@ == peer_id@) && final(self)@ == old(self)@,
            peer_ids(old(self)@.peers).contains(peer_id@) ==> r is Ok && exists|i: int| {
                &&& 0 <= i < old(self)@.peers.len()
                &&& old(self)@.peers[i].0@ == peer_id@
                &&& final(self)@ == (FakeView { peers: old(self)@.peers.remove(i), ..old(self)@ })
            },
            !peer_ids(final(self)@.peers).contains(peer_id@),
    {
        match self.index_of(peer_id) {
            None => Err(PeripheralError::UnknownPeer { peer_id: peer_id.to_owned() }),
            Some(i) => {
                let ghost before = self@;
                self.peers.remove(i);
                proof {
                    assert(self@.peers =~= before.peers.remove(i as int));
                    assert(self@.session_uuid_calls =~= before.session_uuid_calls);
                    assert(self@.notify_calls =~= before.notify_calls);
                    assert(self@.queued =~= before.queued);
                    let ids = peer_ids(self@.peers);
                    let old_ids = peer_ids(before.peers);
                    assert(old_ids[i as int] == peer_id@);
                    assert forall|k: int| 0 <= k < ids.len() implies #[trigger] ids[k] != peer_id@ by {
                        if k < i {
                            assert(ids[k] == old_ids[k]);
                        } else {
                            assert(ids[k] == old_ids[k + 1]);
                        }
                    }
                    assert forall|a: int, b: int| 0 <= a < ids.len() && 0 <= b < ids.len() && a != b implies ids[a]
                        != ids[b] by {
                        let a0 = if a < i { a } else { a + 1 };
                        let b0 = if b < i { b } else { b + 1 };
                        assert(ids[a] == old_ids[a0]);
                        assert(ids[b] == old_ids[b0]);
                    }
                }
                Ok(())
            },
        }
    }

    /// Record an advertised UUID set.
    pub fn set_session_uuids(&mut self, uuids: Vec<u128>)
        requires
            old(self).wf(),
        ensures
            final(self).wf(),
            final(self)@ == (FakeView {
                session_uuid_calls: old(self)@.session_uuid_calls.push(uuids@),
                ..old(self)@
            }),
    {
        let ghost before = self@;
        self.session_uuid_calls.push(uuids);
        assert(self@.session_uuid_calls =~= before.session_uuid_calls.push(uuids@));
        assert(self@.notify_calls =~= before.notify_calls);
        assert(self@.queued =~= before.queued);
    }

    /// Deliver a challenge to a registered peer; an unknown peer id is
    /// refused and nothing changes.
    pub fn notify_challenge(&mut self, peer_id: &str, frame: &[u8]) -> (r: Result<(), PeripheralError>)
        requires
            old(self).wf(),
        ensures
            final(self).wf(),
            !peer_ids(old(self)@.peers).contains(peer_id@) ==> (r matches Err(PeripheralError::UnknownPeer { peer_id: p })
                && p@ == peer_id@) && final(self)@ == old(self)@,
            peer_ids(old(self)@.peers).contains(peer_id@) ==> r is Ok && final(self)@.notify_calls.len()
                == old(self)@.notify_calls.len() + 1 && final(self)@.notify_calls.last().0@ == peer_id@
                && final(self)@.notify_calls.last().1 == frame@ && final(self)@ == (FakeView {
                notify_calls: final(self)@.notify_calls,
                ..old(self)@
            }) && final(self)@.notify_calls.drop_last() == old(self)@.notify_calls,
    {
        match self.index_of(peer_id) {
            None => Err(PeripheralError::UnknownPeer { peer_id: peer_id.to_owned() }),
            Some(i) => {
                proof {
                    assert(peer_ids(self@.peers)[i as int] == peer_id@);
                }
                let ghost before = self@;
                let id = peer_id.to_owned();
                self.notify_calls.push((id, copy_range(frame, 0, frame.len())));
                assert(self@.notify_calls.drop_last() =~= before.notify_calls);
                assert(self@.session_uuid_calls =~= before.session_uuid_calls);
                assert(self@.queued =~= before.queued);
                Ok(())
            },
        }
    }

    /// Queue a response for the next wait on `peer_id`. A peer that was never
    /// registered still accepts queued responses; the wait refuses it.
    pub fn inject_response(&mut self, peer_id: &str, bytes: Vec<u8>)
        requires
            old(self).wf(),
        ensures
            final(self).wf(),
            final(self)@.queued.len() == old(self)@.queued.len() + 1,
            final(self)@.queued.drop_last() == old(self)@.queued,
            final(self)@.queued.last().0@ == peer_id@,
            final(self)@.queued.last().1 == bytes@,
            final(self)@ == (FakeView { queued: final(self)@.queued, ..old(self)@ }),
    {
        let ghost before = self@;
        let id = peer_id.to_owned();
        self.queued.push((id, bytes));
        assert(self@.queued.drop_last() =~= before.queued);
        assert(self@.session_uuid_calls =~= before.session_uuid_calls);
        assert(self@.notify_calls =~= before.notify_calls);
    }

    /// One poll of the wait for a response of `peer_id`: an unknown peer is
    /// refused; otherwise the oldest response queued for it is taken, or
    /// `None` when none is queued yet.
    pub fn poll_response(&mut self, peer_id: &str) -> (r: Result<Option<Vec<u8>>, PeripheralError>)
        requires
            old(self).wf(),
        ensures
            final(self).wf(),
            !peer_ids(old(self)@.peers).contains(peer_id@) ==> (r matches Err(PeripheralError::UnknownPeer { peer_id: p })
                && p@ == peer_id@) && final(self)@ == old(self)@,
            peer_ids(old(self)@.peers).contains(peer_id@) ==> match first_queued(old(self)@.queued, peer_id@) {
                None => r matches Ok(None) && final(self)@ == old(self)@,
                Some(i) => r matches Ok(Some(b)) && b@ == old(self)@.queued[i].1 && final(self)@ == (FakeView {
                    queued: old(self)@.queued.remove(i),
                    ..old(self)@
                }),
            },
    {
        match self.index_of(peer_id) {
            None => return Err(PeripheralError::UnknownPeer { peer_id: peer_id.to_owned() }),
            Some(k) => {
                proof {
                    assert(peer_ids(self@.peers)[k as int] == peer_id@);
                }
            },
        }
        let mut i: usize = 0;
        while i < self.queued.len()
            invariant
                i <= self.queued@.len(),
                self@ == old(self)@,
                self.wf(),
                peer_ids(old(self)@.peers).contains(peer_id@),
                forall|j: int| 0 <= j < i ==> self@.queued[j].0@ != peer_id@,
            decreases self.queued@.len() - i,
        {
            if str_eq(self.queued[i].0.as_str(), peer_id) {
                let ghost before = self@;
                let (_, bytes) = self.queued.remove(i);
                proof {
                    assert(self@.queued =~= before.queued.remove(i as int));
                    assert(self@.session_uuid_calls =~= before.session_uuid_calls);
                    assert(self@.notify_calls =~= before.notify_calls);
                    assert(before.queued[i as int].0@ == peer_id@);
                    let w = first_queued(before.queued, peer_id@).unwrap();
                    assert(w == i) by {
                        if w < i {
                            assert(before.queued[w].0@ != peer_id@);
                        }
                        if w > i {
                            assert(before.queued[i as int].0@ == peer_id@);
                        }
                    }
                }
                return Ok(Some(bytes));
            }
            i = i + 1;
        }
        proof {
            if first_queued(self@.queued, peer_id@) is Some {
                let w = choose|w: int| 0 <= w < self@.queued.len() && self@.queued[w].0@ == peer_id@;
                assert(self@.queued[w].0@ != peer_id@);
            }
        }
        Ok(None)
    }
}

fn copy_u128s(v: &Vec<u128>) -> (r: Vec<u128>)
    ensures
        r@ == v@,
{
    let mut r: Vec<u128> = Vec::new();
    let mut i: usize = 0;
    while i < v.len()
        invariant
            i <= v@.len(),
            r@ == v@.subrange(0, i as int),
        decreases v@.len() - i,
    {
        r.push(v[i]);
        i = i + 1;
        assert(r@ =~= v@.subrange(0, i as int));
    }
    assert(v@.subrange(0, i as int) =~= v@);
    r
}

/// The error of a wait for `peer_id` that saw no response within
/// `deadline_ms` milliseconds.
pub fn response_timeout(peer_id: &str, deadline_ms: u64) -> (r: PeripheralError)
    ensures
        r matches PeripheralError::ResponseTimeout { peer_id: p, deadline_ms: d } && p@ == peer_id@ && d == deadline_ms,
{
    PeripheralError::ResponseTimeout { peer_id: peer_id.to_owned(), deadline_ms }
}

} // verus!
