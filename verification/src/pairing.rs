//! Frames of the local confirmation channel shared by the daemon and the GUI.
//!
//! Two distinct decisions flow over this channel: the BlueZ LESC
//! numeric-comparison confirmation (`SYPC`), a transport event, and the
//! DeskUnlock out-of-band confirmation (`SYPO`), the application-level trust
//! decision. A terminal `SYPN` notice tells the GUI that trust was
//! established; only then may it render "associated".
use vstd::prelude::*;
use vstd::utf8::{valid_utf8, decode_utf8, encode_utf8};
use crate::be_bytes::{
    be16, be32, be64, from_be16, u16_to_be, u32_to_be, u64_to_be, u16_from_be, u32_from_be,
    u64_from_be_at, from_be64, push_all, copy_range, starts_with4, lemma_be16_roundtrip,
    lemma_from_be16_roundtrip, lemma_be32_roundtrip, lemma_be64_roundtrip,
    lemma_from_be64_roundtrip, from_be32,
};
use crate::text::{string_from_utf8, string_bytes};
use crate::paths::{path_join, join_path};
use vstd::string::StrSliceExecFns;

verus! {

broadcast use vstd::utf8::group_utf8_lib;

/// File name of the GUI confirmation socket.
pub const PAIR_CONFIRMATION_SOCKET: &'static str = "pair-confirm.sock";
/// File name of the pair-session socket.
pub const PAIR_SESSION_SOCKET: &'static str = "pair-session.sock";
/// Sub-directory of the runtime directory that holds the sockets.
pub const RUNTIME_SUBDIR: &'static str = "syauth";

/// Length of an Ed25519 public key exchanged over the pair service.
pub const PAIR_PUBKEY_LEN: usize = 32;
/// Largest peer label a frame may carry, in UTF-8 bytes.
pub const MAX_PEER_BYTES: usize = 256;
/// Largest payload a broker frame may carry.
pub const MAX_FRAME_BYTES: usize = 4096;
/// `SYPC`: BlueZ LESC numeric-comparison request.
pub const PAIR_CONFIRMATION_MAGIC: [u8; 4] = [0x53, 0x59, 0x50, 0x43];
/// `SYPO`: DeskUnlock out-of-band confirmation request.
pub const PAIR_OOB_MAGIC: [u8; 4] = [0x53, 0x59, 0x50, 0x4f];
/// `SYPN`: terminal trust notice.
pub const PAIR_BONDED_MAGIC: [u8; 4] = [0x53, 0x59, 0x50, 0x4e];

pub open spec fn confirmation_magic() -> Seq<u8> {
    seq![0x53u8, 0x59u8, 0x50u8, 0x43u8]
}

pub open spec fn oob_magic() -> Seq<u8> {
    seq![0x53u8, 0x59u8, 0x50u8, 0x4fu8]
}

pub open spec fn bonded_magic() -> Seq<u8> {
    seq![0x53u8, 0x59u8, 0x50u8, 0x4eu8]
}

/// The UTF-8 bytes of a peer label followed by nothing else: a label fits a
/// frame when it has at most [`MAX_PEER_BYTES`] bytes.
pub open spec fn peer_fits(peer: Seq<char>) -> bool {
    encode_utf8(peer).len() <= MAX_PEER_BYTES
}

/// Event sent to the one connected GUI session (in-process embed).
#[derive(Debug, Clone, PartialEq, Eq)]
pub struct PairingRequest {
    /// Monotonic request identifier.
    pub id: u64,
    /// BlueZ device address.
    pub peer: String,
    /// Numeric-comparison passkey.
    pub passkey: u32,
}

impl PairingRequest {
    /// `SYPC`, big-endian id, big-endian passkey, big-endian label length,
    /// label bytes.
    pub open spec fn spec_frame(id: u64, peer: Seq<char>, passkey: u32) -> Seq<u8> {
        let p = encode_utf8(peer);
        confirmation_magic() + be64(id) + be32(passkey) + be16(p.len() as u16) + p
    }

    /// The encoding, or `None` when the label is too long for a frame.
    pub open spec fn spec_encode(self) -> Option<Seq<u8>> {
        if peer_fits(self.peer@) {
            Some(PairingRequest::spec_frame(self.id, self.peer@, self.passkey))
        } else {
            None
        }
    }

    /// The byte strings that decode to a request.
    pub open spec fn spec_wire_ok(b: Seq<u8>) -> bool {
        &&& b.len() >= 18
        &&& b.subrange(0, 4) == confirmation_magic()
        &&& from_be16(b[16], b[17]) <= MAX_PEER_BYTES
        &&& b.len() == 18 + from_be16(b[16], b[17])
        &&& valid_utf8(b.subrange(18, b.len() as int))
    }

    /// Encode the private local confirmation message.
    pub fn encode(&self) -> (r: Option<Vec<u8>>)
        ensures
            match (r, self.spec_encode()) {
                (Some(v), Some(e)) => v@ == e,
                (None, None) => true,
                _ => false,
            },
    {
        let peer = string_bytes(&self.peer);
        if peer.len() > MAX_PEER_BYTES {
            return None;
        }
        let length = peer.len() as u16;
        let mut bytes: Vec<u8> = Vec::new();
        push_all(&mut bytes, &PAIR_CONFIRMATION_MAGIC);
        push_all(&mut bytes, &u64_to_be(self.id));
        push_all(&mut bytes, &u32_to_be(self.passkey));
        push_all(&mut bytes, &u16_to_be(length));
        push_all(&mut bytes, peer);
        assert(PAIR_CONFIRMATION_MAGIC@ =~= confirmation_magic());
        assert(bytes@ =~= PairingRequest::spec_frame(self.id, self.peer@, self.passkey));
        Some(bytes)
    }

    /// Decode a private local confirmation message.
    pub fn decode(bytes: &[u8]) -> (r: Option<Self>)
        ensures
            r is Some <==> PairingRequest::spec_wire_ok(bytes@),
            r matches Some(req) ==> req.spec_encode() == Some(bytes@),
    {
        if bytes.len() < 18 || !starts_with4(bytes, &PAIR_CONFIRMATION_MAGIC) {
            proof {
                assert(PAIR_CONFIRMATION_MAGIC@ =~= confirmation_magic());
            }
            return None;
        }
        assert(PAIR_CONFIRMATION_MAGIC@ =~= confirmation_magic());
        let peer_len = u16_from_be(bytes[16], bytes[17]) as usize;
        if peer_len > MAX_PEER_BYTES || bytes.len() != 18 + peer_len {
            return None;
        }
        let id = u64_from_be_at(bytes, 4);
        let passkey = u32_from_be(bytes[12], bytes[13], bytes[14], bytes[15]);
        let tail = copy_range(bytes, 18, bytes.len());
        let peer = match string_from_utf8(tail) {
            Some(p) => p,
            None => return None,
        };
        let r = PairingRequest { id, peer, passkey };
        proof {
            let b = bytes@;
            lemma_from_be64_roundtrip(b.subrange(4, 12));
            lemma_from_be32_bytes(b[12], b[13], b[14], b[15]);
            lemma_from_be16_roundtrip(b[16], b[17]);
            assert(b.subrange(4, 12) =~= b.subrange(0, 18).subrange(4, 12));
            assert(PairingRequest::spec_frame(id, r.peer@, passkey) =~= b);
        }
        Some(r)
    }
}

/// The big-endian bytes of a `u32` read back from four bytes are those bytes.
pub proof fn lemma_from_be32_bytes(a: u8, b: u8, c: u8, d: u8)
    ensures
        be32(from_be32(a, b, c, d)) == seq![a, b, c, d],
{
    let x = from_be32(a, b, c, d);
    assert((x >> 24u32) as u8 == a && (x >> 16u32) as u8 == b && (x >> 8u32) as u8 == c && x as u8
        == d) by (bit_vector)
        requires
            x == ((a as u32) << 24u32) | ((b as u32) << 16u32) | ((c as u32) << 8u32) | (d as u32),
    ;
    assert(be32(x) =~= seq![a, b, c, d]);
}

/// Decoding the encoding of a confirmation request gives back its fields,
/// and no other request shares that encoding.
pub proof fn lemma_pairing_request_roundtrip(r: PairingRequest, other: PairingRequest)
    requires
        r.spec_encode() is Some,
    ensures
        PairingRequest::spec_wire_ok(r.spec_encode().unwrap()),
        other.spec_encode() == r.spec_encode() ==> other.id == r.id && other.passkey == r.passkey
            && other.peer@ == r.peer@,
{
    let b = r.spec_encode().unwrap();
    let p = encode_utf8(r.peer@);
    lemma_be16_roundtrip(p.len() as u16);
    assert(b.subrange(18, b.len() as int) =~= p);
    assert(b.subrange(0, 4) =~= confirmation_magic());
    if other.spec_encode() == r.spec_encode() {
        let q = encode_utf8(other.peer@);
        lemma_be16_roundtrip(q.len() as u16);
        assert(q =~= b.subrange(18, b.len() as int));
        assert(be64(other.id) =~= b.subrange(4, 12));
        assert(be64(r.id) =~= b.subrange(4, 12));
        lemma_be64_roundtrip(other.id);
        lemma_be64_roundtrip(r.id);
        assert(be32(other.passkey) =~= b.subrange(12, 16));
        assert(be32(r.passkey) =~= b.subrange(12, 16));
        lemma_be32_roundtrip(other.passkey);
        lemma_be32_roundtrip(r.passkey);
        assert(decode_utf8(q) == other.peer@);
        assert(decode_utf8(p) == r.peer@);
    }
}


/// DeskUnlock application-level OOB confirmation request. Distinct from the
/// BlueZ LESC confirmation: this is the real trust decision. Carries only
/// public keys; the GUI derives the OOB words locally so no secret crosses
/// the local socket.
#[derive(Debug, Clone, PartialEq, Eq)]
pub struct OobRequest {
    /// Monotonic request identifier.
    pub id: u64,
    /// Peer display label (transport label; never the trust identity).
    pub peer: String,
    /// Desktop host public key exchanged over authenticated GATT.
    pub host_pubkey: [u8; PAIR_PUBKEY_LEN],
    /// Phone public key exchanged over authenticated GATT.
    pub phone_pubkey: [u8; PAIR_PUBKEY_LEN],
}

impl OobRequest {
    /// `SYPO`, big-endian id, big-endian label length, label bytes, host key,
    /// phone key.
    pub open spec fn spec_frame(id: u64, peer: Seq<char>, host: Seq<u8>, phone: Seq<u8>) -> Seq<u8> {
        let p = encode_utf8(peer);
        oob_magic() + be64(id) + be16(p.len() as u16) + p + host + phone
    }

    /// The encoding, or `None` when the label is too long for a frame.
    pub open spec fn spec_encode(self) -> Option<Seq<u8>> {
        if peer_fits(self.peer@) {
            Some(OobRequest::spec_frame(self.id, self.peer@, self.host_pubkey@, self.phone_pubkey@))
        } else {
            None
        }
    }

    /// The byte strings that decode to a request.
    pub open spec fn spec_wire_ok(b: Seq<u8>) -> bool {
        let n = from_be16(b[12], b[13]) as int;
        &&& b.len() >= 14
        &&& b.subrange(0, 4) == oob_magic()
        &&& n <= MAX_PEER_BYTES
        &&& b.len() == 14 + n + 2 * PAIR_PUBKEY_LEN
        &&& valid_utf8(b.subrange(14, 14 + n))
    }

    /// Encode the private local OOB request.
    pub fn encode(&self) -> (r: Option<Vec<u8>>)
        ensures
            match (r, self.spec_encode()) {
                (Some(v), Some(e)) => v@ == e,
                (None, None) => true,
                _ => false,
            },
    {
        let peer = string_bytes(&self.peer);
        if peer.len() > MAX_PEER_BYTES {
            return None;
        }
        let peer_len = peer.len() as u16;
        let mut bytes: Vec<u8> = Vec::new();
        push_all(&mut bytes, &PAIR_OOB_MAGIC);
        push_all(&mut bytes, &u64_to_be(self.id));
        push_all(&mut bytes, &u16_to_be(peer_len));
        push_all(&mut bytes, peer);
        push_all(&mut bytes, &self.host_pubkey);
        push_all(&mut bytes, &self.phone_pubkey);
        assert(PAIR_OOB_MAGIC@ =~= oob_magic());
        assert(bytes@ =~= OobRequest::spec_frame(
            self.id,
            self.peer@,
            self.host_pubkey@,
            self.phone_pubkey@,
        ));
        Some(bytes)
    }

    /// Decode a private local OOB request.
    pub fn decode(bytes: &[u8]) -> (r: Option<Self>)
        ensures
            r is Some <==> OobRequest::spec_wire_ok(bytes@),
            r matches Some(req) ==> req.spec_encode() == Some(bytes@),
    {
        assert(PAIR_OOB_MAGIC@ =~= oob_magic());
        if bytes.len() < 14 || !starts_with4(bytes, &PAIR_OOB_MAGIC) {
            return None;
        }
        let id = u64_from_be_at(bytes, 4);
        let peer_len = u16_from_be(bytes[12], bytes[13]) as usize;
        if peer_len > MAX_PEER_BYTES || bytes.len() != 14 + peer_len + 2 * PAIR_PUBKEY_LEN {
            return None;
        }
        let label = copy_range(bytes, 14, 14 + peer_len);
        let peer = match string_from_utf8(label) {
            Some(p) => p,
            None => return None,
        };
        let k = 14 + peer_len;
        let host_pubkey = key_at(bytes, k);
        let phone_pubkey = key_at(bytes, k + PAIR_PUBKEY_LEN);
        let r = OobRequest { id, peer, host_pubkey, phone_pubkey };
        proof {
            let b = bytes@;
            lemma_from_be64_roundtrip(b.subrange(4, 12));
            lemma_from_be16_roundtrip(b[12], b[13]);
            assert(OobRequest::spec_frame(id, r.peer@, host_pubkey@, phone_pubkey@) =~= b);
        }
        Some(r)
    }
}

/// The 32-byte key at `start..start + 32` of `bytes`.
fn key_at(bytes: &[u8], start: usize) -> (k: [u8; PAIR_PUBKEY_LEN])
    requires
        start + PAIR_PUBKEY_LEN <= bytes@.len(),
    ensures
        k@ == bytes@.subrange(start as int, start + PAIR_PUBKEY_LEN),
{
    let mut k = [0u8; PAIR_PUBKEY_LEN];
    let mut i: usize = 0;
    let n = bytes.len();
    while i < PAIR_PUBKEY_LEN
        invariant
            i <= PAIR_PUBKEY_LEN,
            n == bytes@.len(),
            start + PAIR_PUBKEY_LEN <= bytes@.len(),
            k@.len() == PAIR_PUBKEY_LEN,
            forall|j: int| 0 <= j < i ==> k@[j] == bytes@[start + j],
        decreases PAIR_PUBKEY_LEN - i,
    {
        k[i] = bytes[start + i];
        i = i + 1;
    }
    assert(k@ =~= bytes@.subrange(start as int, start + PAIR_PUBKEY_LEN));
    k
}

/// Decoding the encoding of an OOB request gives back its fields, and no
/// other request shares that encoding.
pub proof fn lemma_oob_request_roundtrip(r: OobRequest, other: OobRequest)
    requires
        r.spec_encode() is Some,
    ensures
        OobRequest::spec_wire_ok(r.spec_encode().unwrap()),
        other.spec_encode() == r.spec_encode() ==> other.id == r.id && other.peer@ == r.peer@
            && other.host_pubkey == r.host_pubkey && other.phone_pubkey == r.phone_pubkey,
{
    let b = r.spec_encode().unwrap();
    let p = encode_utf8(r.peer@);
    let n = p.len() as int;
    lemma_be16_roundtrip(n as u16);
    assert(b.subrange(14, 14 + n) =~= p);
    assert(b.subrange(0, 4) =~= oob_magic());
    if other.spec_encode() == r.spec_encode() {
        let q = encode_utf8(other.peer@);
        lemma_be16_roundtrip(q.len() as u16);
        assert(b[12] == be16(q.len() as u16)[0] && b[13] == be16(q.len() as u16)[1]);
        assert(q.len() == n);
        assert(q =~= b.subrange(14, 14 + n));
        assert(be64(other.id) =~= b.subrange(4, 12));
        assert(be64(r.id) =~= b.subrange(4, 12));
        lemma_be64_roundtrip(other.id);
        lemma_be64_roundtrip(r.id);
        assert(decode_utf8(q) == other.peer@);
        assert(decode_utf8(p) == r.peer@);
        assert(other.host_pubkey@ =~= b.subrange(14 + n, 14 + n + 32));
        assert(r.host_pubkey@ =~= b.subrange(14 + n, 14 + n + 32));
        assert(other.phone_pubkey@ =~= b.subrange(14 + n + 32, 14 + n + 64));
        assert(r.phone_pubkey@ =~= b.subrange(14 + n + 32, 14 + n + 64));
        assert(other.host_pubkey == r.host_pubkey);
        assert(other.phone_pubkey == r.phone_pubkey);
    }
}

/// Terminal notice: the DeskUnlock V2 transaction reached `TrustEstablished`.
/// The GUI renders "associated" only after this notice, never on the
/// transport confirmation.
#[derive(Debug, Clone, PartialEq, Eq)]
pub struct BondedNotice {
    /// Peer display label.
    pub peer: String,
}

impl BondedNotice {
    /// `SYPN`, big-endian label length, label bytes.
    pub open spec fn spec_frame(peer: Seq<char>) -> Seq<u8> {
        let p = encode_utf8(peer);
        bonded_magic() + be16(p.len() as u16) + p
    }

    /// The encoding, or `None` when the label is too long for a frame.
    pub open spec fn spec_encode(self) -> Option<Seq<u8>> {
        if peer_fits(self.peer@) {
            Some(BondedNotice::spec_frame(self.peer@))
        } else {
            None
        }
    }

    /// The byte strings that decode to a notice.
    pub open spec fn spec_wire_ok(b: Seq<u8>) -> bool {
        &&& b.len() >= 6
        &&& b.subrange(0, 4) == bonded_magic()
        &&& from_be16(b[4], b[5]) <= MAX_PEER_BYTES
        &&& b.len() == 6 + from_be16(b[4], b[5])
        &&& valid_utf8(b.subrange(6, b.len() as int))
    }

    /// Encode the terminal trust notice.
    pub fn encode(&self) -> (r: Option<Vec<u8>>)
        ensures
            match (r, self.spec_encode()) {
                (Some(v), Some(e)) => v@ == e,
                (None, None) => true,
                _ => false,
            },
    {
        let peer = string_bytes(&self.peer);
        if peer.len() > MAX_PEER_BYTES {
            return None;
        }
        let peer_len = peer.len() as u16;
        let mut bytes: Vec<u8> = Vec::new();
        push_all(&mut bytes, &PAIR_BONDED_MAGIC);
        push_all(&mut bytes, &u16_to_be(peer_len));
        push_all(&mut bytes, peer);
        assert(PAIR_BONDED_MAGIC@ =~= bonded_magic());
        assert(bytes@ =~= BondedNotice::spec_frame(self.peer@));
        Some(bytes)
    }

    /// Decode the terminal trust notice.
    pub fn decode(bytes: &[u8]) -> (r: Option<Self>)
        ensures
            r is Some <==> BondedNotice::spec_wire_ok(bytes@),
            r matches Some(n) ==> n.spec_encode() == Some(bytes@),
    {
        assert(PAIR_BONDED_MAGIC@ =~= bonded_magic());
        if bytes.len() < 6 || !starts_with4(bytes, &PAIR_BONDED_MAGIC) {
            return None;
        }
        let peer_len = u16_from_be(bytes[4], bytes[5]) as usize;
        if peer_len > MAX_PEER_BYTES || bytes.len() != 6 + peer_len {
            return None;
        }
        let tail = copy_range(bytes, 6, bytes.len());
        let peer = match string_from_utf8(tail) {
            Some(p) => p,
            None => return None,
        };
        let r = BondedNotice { peer };
        proof {
            lemma_from_be16_roundtrip(bytes@[4], bytes@[5]);
            assert(BondedNotice::spec_frame(r.peer@) =~= bytes@);
        }
        Some(r)
    }
}

/// Decoding the encoding of a notice gives back its label, and the three
/// frame kinds never decode as one another.
pub proof fn lemma_bonded_notice_roundtrip(n: BondedNotice, other: BondedNotice, b: Seq<u8>)
    requires
        n.spec_encode() is Some,
    ensures
        BondedNotice::spec_wire_ok(n.spec_encode().unwrap()),
        other.spec_encode() == n.spec_encode() ==> other.peer@ == n.peer@,
        BondedNotice::spec_wire_ok(b) ==> !PairingRequest::spec_wire_ok(b)
            && !OobRequest::spec_wire_ok(b),
        PairingRequest::spec_wire_ok(b) ==> !OobRequest::spec_wire_ok(b),
{
    let e = n.spec_encode().unwrap();
    let p = encode_utf8(n.peer@);
    lemma_be16_roundtrip(p.len() as u16);
    assert(e.subrange(6, e.len() as int) =~= p);
    assert(e.subrange(0, 4) =~= bonded_magic());
    if other.spec_encode() == n.spec_encode() {
        let q = encode_utf8(other.peer@);
        lemma_be16_roundtrip(q.len() as u16);
        assert(q =~= e.subrange(6, e.len() as int));
        assert(decode_utf8(q) == other.peer@);
        assert(decode_utf8(p) == n.peer@);
    }
    if b.len() >= 4 {
        assert(b.subrange(0, 4)[3] == b[3]);
    }
}

/// Event delivered to the one registered GUI session (in-process embed).
#[derive(Debug, Clone, PartialEq, Eq)]
pub enum GuiEvent {
    /// BlueZ LESC numeric-comparison confirmation (transport).
    Lesc(PairingRequest),
    /// DeskUnlock application-level OOB confirmation (trust).
    Oob(OobRequest),
    /// Terminal trust notice.
    Bonded(BondedNotice),
}

/// A GUI session already owns the confirmation channel.
#[derive(Debug, Clone, Copy, PartialEq, Eq, Structural)]
pub struct GuiAlreadyConnected;

/// `[len: u32 BE][payload]` for a payload of at most [`MAX_FRAME_BYTES`].
pub open spec fn spec_frame(payload: Seq<u8>) -> Option<Seq<u8>> {
    if payload.len() <= MAX_FRAME_BYTES {
        Some(be32(payload.len() as u32) + payload)
    } else {
        None
    }
}

/// Frame a broker payload as `[len: u32 BE][payload]`.
pub fn frame(payload: &[u8]) -> (r: Option<Vec<u8>>)
    ensures
        match (r, spec_frame(payload@)) {
            (Some(v), Some(e)) => v@ == e,
            (None, None) => true,
            _ => false,
        },
{
    if payload.len() > MAX_FRAME_BYTES {
        return None;
    }
    let len = payload.len() as u32;
    let mut out: Vec<u8> = Vec::new();
    push_all(&mut out, &u32_to_be(len));
    push_all(&mut out, payload);
    Some(out)
}

/// The payload length a frame header announces, if a reader may accept it.
pub fn frame_payload_len(header: [u8; 4]) -> (r: Option<usize>)
    ensures
        match r {
            Some(n) => n == from_be32(header[0], header[1], header[2], header[3]) && n
                <= MAX_FRAME_BYTES,
            None => from_be32(header[0], header[1], header[2], header[3]) > MAX_FRAME_BYTES,
        },
{
    let len = u32_from_be(header[0], header[1], header[2], header[3]);
    if len > MAX_FRAME_BYTES as u32 {
        None
    } else {
        Some(len as usize)
    }
}

/// `<runtime>/syauth/<name>` for a non-empty runtime directory.
pub open spec fn spec_runtime_socket(runtime: Option<&str>, name: Seq<char>) -> Option<Seq<char>> {
    match runtime {
        Some(dir) => if dir@.len() > 0 {
            Some(path_join(path_join(dir@, RUNTIME_SUBDIR@), name))
        } else {
            None
        },
        None => None,
    }
}

fn runtime_socket(runtime: Option<&str>, name: &str) -> (r: Option<String>)
    ensures
        match (r, spec_runtime_socket(runtime, name@)) {
            (Some(p), Some(q)) => p@ == q,
            (None, None) => true,
            _ => false,
        },
{
    match runtime {
        Some(dir) => if dir.unicode_len() > 0 {
            let sub = join_path(dir, RUNTIME_SUBDIR);
            Some(join_path(sub.as_str(), name))
        } else {
            None
        },
        None => None,
    }
}

/// The GUI confirmation socket under the per-user runtime directory (the
/// value of `XDG_RUNTIME_DIR`, `None` when unset).
pub fn pairing_confirmation_socket(runtime: Option<&str>) -> (r: Option<String>)
    ensures
        match (r, spec_runtime_socket(runtime, PAIR_CONFIRMATION_SOCKET@)) {
            (Some(p), Some(q)) => p@ == q,
            (None, None) => true,
            _ => false,
        },
{
    runtime_socket(runtime, PAIR_CONFIRMATION_SOCKET)
}

/// The pair-session socket under the per-user runtime directory (the value of
/// `XDG_RUNTIME_DIR`, `None` when unset).
pub fn pairing_session_socket(runtime: Option<&str>) -> (r: Option<String>)
    ensures
        match (r, spec_runtime_socket(runtime, PAIR_SESSION_SOCKET@)) {
            (Some(p), Some(q)) => p@ == q,
            (None, None) => true,
            _ => false,
        },
{
    runtime_socket(runtime, PAIR_SESSION_SOCKET)
}

/// The broker's bookkeeping: one GUI session and at most one confirmation
/// in flight, identified by a wrapping counter; one socket exchange at a
/// time.
#[derive(Debug, Clone, Copy, PartialEq, Eq, Structural)]
pub struct BrokerState {
    /// A GUI session is registered.
    pub gui_connected: bool,
    /// The id of the confirmation waiting for the GUI's answer.
    pub pending: Option<u64>,
    /// The id the next confirmation gets.
    pub next_id: u64,
    /// A socket exchange with the GUI is in progress.
    pub socket_active: bool,
}

/// How a confirmation request through the in-process GUI starts.
#[derive(Debug, Clone, Copy, PartialEq, Eq, Structural)]
pub enum GuiRequestStart {
    /// No GUI session is registered: fall back to the socket.
    NoGui,
    /// Another confirmation is in flight: fail closed.
    Busy,
    /// The request was registered under this id.
    Started(u64),
}

impl BrokerState {
    /// No GUI, nothing pending, ids from zero, no exchange.
    pub fn new() -> (r: Self)
        ensures
            r == (BrokerState { gui_connected: false, pending: None, next_id: 0, socket_active: false }),
    {
        BrokerState { gui_connected: false, pending: None, next_id: 0, socket_active: false }
    }

    /// Register the sole GUI session; a second session is rejected.
    pub fn register_gui(&mut self) -> (r: Result<(), GuiAlreadyConnected>)
        ensures
            old(self).gui_connected ==> r is Err && *final(self) == *old(self),
            !old(self).gui_connected ==> r is Ok && *final(self) == (BrokerState {
                gui_connected: true,
                ..*old(self)
            }),
    {
        if self.gui_connected {
            return Err(GuiAlreadyConnected);
        }
        self.gui_connected = true;
        Ok(())
    }

    /// Remove the GUI session; the pending confirmation, if any, is returned
    /// so that it can be failed.
    pub fn unregister_gui(&mut self) -> (r: Option<u64>)
        ensures
            r == old(self).pending,
            *final(self) == (BrokerState { gui_connected: false, pending: None, ..*old(self) }),
    {
        let r = self.pending;
        self.gui_connected = false;
        self.pending = None;
        r
    }

    /// Start one confirmation through the in-process GUI.
    pub fn begin_gui_request(&mut self) -> (r: GuiRequestStart)
        ensures
            !old(self).gui_connected ==> r == GuiRequestStart::NoGui && *final(self) == *old(self),
            old(self).gui_connected && old(self).pending is Some ==> r == GuiRequestStart::Busy && *final(self)
                == *old(self),
            old(self).gui_connected && old(self).pending is None ==> r == GuiRequestStart::Started(old(self).next_id)
                && *final(self) == (BrokerState {
                    pending: Some(old(self).next_id),
                    next_id: if old(self).next_id == u64::MAX {
                        0
                    } else {
                        (old(self).next_id + 1) as u64
                    },
                    ..*old(self)
                }),
    {
        if !self.gui_connected {
            return GuiRequestStart::NoGui;
        }
        if self.pending.is_some() {
            return GuiRequestStart::Busy;
        }
        let id = self.next_id;
        self.next_id = if self.next_id == u64::MAX {
            0
        } else {
            self.next_id + 1
        };
        self.pending = Some(id);
        GuiRequestStart::Started(id)
    }

    /// Resolve a request: `true` when `id` is the pending confirmation, which
    /// is then no longer pending; unknown or late ids are rejected.
    pub fn respond(&mut self, id: u64) -> (r: bool)
        ensures
            r == (old(self).pending == Some(id)),
            *final(self) == (if r {
                BrokerState { pending: None, ..*old(self) }
            } else {
                *old(self)
            }),
    {
        match self.pending {
            Some(p) => if p == id {
                self.pending = None;
                true
            } else {
                false
            },
            None => false,
        }
    }

    /// Start a socket exchange; `false` (fail closed) while another runs.
    pub fn begin_exchange(&mut self) -> (r: bool)
        ensures
            r == !old(self).socket_active,
            *final(self) == (BrokerState { socket_active: true, ..*old(self) }),
    {
        if self.socket_active {
            return false;
        }
        self.socket_active = true;
        true
    }

    /// End the socket exchange.
    pub fn end_exchange(&mut self)
        ensures
            *final(self) == (BrokerState { socket_active: false, ..*old(self) }),
    {
        self.socket_active = false;
    }
}

/// The event sent to the GUI for a request registered under `id`: LESC and
/// OOB requests carry the id; the trust notice has none.
pub fn with_request_id(event: GuiEvent, id: u64) -> (r: GuiEvent)
    ensures
        match (event, r) {
            (GuiEvent::Lesc(a), GuiEvent::Lesc(b)) => b.id == id && b.peer == a.peer && b.passkey == a.passkey,
            (GuiEvent::Oob(a), GuiEvent::Oob(b)) => b.id == id && b.peer == a.peer && b.host_pubkey
                == a.host_pubkey && b.phone_pubkey == a.phone_pubkey,
            (GuiEvent::Bonded(a), GuiEvent::Bonded(b)) => a == b,
            _ => false,
        },
{
    match event {
        GuiEvent::Lesc(request) => GuiEvent::Lesc(PairingRequest { id, ..request }),
        GuiEvent::Oob(request) => GuiEvent::Oob(OobRequest { id, ..request }),
        GuiEvent::Bonded(notice) => GuiEvent::Bonded(notice),
    }
}

/// Whether a socket exchange counts as an acceptance: a notice needs only
/// the write; a request needs the single reply byte `1`.
pub fn exchange_accepted(expect_response: bool, written: bool, reply: Option<u8>) -> (r: bool)
    ensures
        r == (written && (!expect_response || reply == Some(1u8))),
{
    if !written {
        return false;
    }
    if !expect_response {
        return true;
    }
    match reply {
        Some(b) => b == 1,
        None => false,
    }
}

} // verus!
