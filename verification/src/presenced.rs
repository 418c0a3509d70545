//! The daemon's startup rules: whether there is anything to serve, the
//! pairing window marker, and the runtime configuration it assembles from
//! its command line.
use vstd::prelude::*;
use vstd::utf8::encode_utf8;
use vstd::string::{StrSliceExecFns, StringExecFns};
use crate::bonds::{BondSummary, any_bonded, has_bonded};
use crate::paths::{path_join, join_path, path_parent, unix_path_parent};
use crate::text::{hex_val, chars_of, decimal, zero_pad, format_zero_padded, str_eq};
use crate::unlock_request::spec_runtime_base;

verus! {

/// Marker the activation paths create so the daemon may run before the
/// first bond exists. Removed as soon as a bond exists.
pub const PAIRING_MODE_MARKER: &'static str = "pairing-mode";

/// Syslog tag of every line the daemon emits.
pub const SYSLOG_TAG: &'static str = "syauth-presenced";

/// Environment variable holding the per-user runtime directory.
pub const XDG_RUNTIME_DIR_ENV: &'static str = "XDG_RUNTIME_DIR";

/// Default log filter.
pub const DEFAULT_LOG_LEVEL: &'static str = "info";

/// `--peripheral=real` selects the BlueZ backend.
pub const PERIPHERAL_REAL: &'static str = "real";

/// `--peripheral=fake` selects the radio-free test backend.
pub const PERIPHERAL_FAKE: &'static str = "fake";

/// Default bonds file.
pub const DEFAULT_BONDS_FILE: &'static str = "/var/lib/syauth/bonds.toml";

/// Default per-peer keys directory.
pub const DEFAULT_KEYS_DIR: &'static str = "/var/lib/syauth/keys/";

/// Default append-only audit log.
pub const DEFAULT_AUDIT_LOG_PATH: &'static str = "/var/lib/syauth/last.log";

/// Sub-directory of the runtime dir the daemon owns.
pub const RUNTIME_SUBDIR: &'static str = "syauth";

/// File name of the daemon socket.
pub const DEFAULT_SOCKET_BASENAME: &'static str = "auth.sock";

/// File name of the pidfile.
pub const PIDFILE_BASENAME: &'static str = "presenced.pid";

/// Length of the challenge nonce.
pub const NONCE_LEN: usize = 16;

/// Why the daemon should exit at once, or `None` when it has something to
/// serve: a pairing window is open, or the store holds a `Bonded` record. A
/// store of revoked bonds is as good as an empty one. `store` is the loaded
/// store, or the text of its load failure.
pub open spec fn spec_idle_reason(marker_exists: bool, store: Result<Seq<BondSummary>, String>) -> Option<
    Seq<char>,
> {
    if marker_exists {
        None
    } else {
        match store {
            Ok(bonds) => if any_bonded(bonds) {
                None
            } else {
                Some("no bonded peer in the store"@)
            },
            Err(_) => Some("bonds store unreadable"@),
        }
    }
}

/// The chars of an optional string slice.
pub open spec fn opt_view(o: Option<&'static str>) -> Option<Seq<char>> {
    match o {
        Some(s) => Some(s@),
        None => None,
    }
}

/// The loaded store's records, by sequence.
pub open spec fn store_view(store: &Result<Vec<BondSummary>, String>) -> Result<Seq<BondSummary>, String> {
    match store {
        Ok(v) => Ok(v@),
        Err(e) => Err(*e),
    }
}

/// Why the daemon should exit immediately, or `None` when it has something
/// to serve.
pub fn idle_without_a_bond(marker_exists: bool, store: &Result<Vec<BondSummary>, String>) -> (r: Option<
    &'static str,
>)
    ensures
        opt_view(r) == spec_idle_reason(marker_exists, store_view(store)),
{
    if marker_exists {
        return None;
    }
    match store {
        Ok(bonds) => if has_bonded(bonds.as_slice()) {
            None
        } else {
            Some("no bonded peer in the store")
        },
        Err(_) => Some("bonds store unreadable"),
    }
}

/// Whether the loaded store holds at least one `Bonded` record.
pub fn has_bonded_peer(store: &Result<Vec<BondSummary>, String>) -> (b: bool)
    ensures
        b == (store_view(store) matches Ok(bonds) && any_bonded(bonds)),
{
    match store {
        Ok(bonds) => has_bonded(bonds.as_slice()),
        Err(_) => false,
    }
}

/// The pairing-mode marker lives next to the pidfile, in the daemon's
/// runtime dir; a pidfile path without a parent leaves it relative.
pub fn pairing_mode_marker(pidfile: &str) -> (r: String)
    ensures
        r@ == match unix_path_parent(pidfile@) {
            Some(dir) => path_join(dir, PAIRING_MODE_MARKER@),
            None => PAIRING_MODE_MARKER@,
        },
{
    match path_parent(pidfile) {
        Some(dir) => join_path(dir.as_str(), PAIRING_MODE_MARKER),
        None => PAIRING_MODE_MARKER.to_owned(),
    }
}

/// The startup gate's decision.
#[derive(Debug, Clone, Copy, PartialEq, Eq)]
pub struct StartupDecision {
    /// `Some(reason)`: exit now without serving.
    pub exit_reason: Option<&'static str>,
    /// Remove the pairing-mode marker: a bond exists, so the window is spent.
    pub clear_marker: bool,
}

/// The startup gate: exit when there is nothing to serve; when a bond
/// exists, the pairing window is over and its marker is cleared.
pub fn prepare_startup(marker_exists: bool, store: &Result<Vec<BondSummary>, String>) -> (r: StartupDecision)
    ensures
        opt_view(r.exit_reason) == spec_idle_reason(marker_exists, store_view(store)),
        r.clear_marker == (store_view(store) matches Ok(bonds) && any_bonded(bonds)),
{
    let idle = idle_without_a_bond(marker_exists, store);
    let clear = idle.is_none() && has_bonded_peer(store);
    StartupDecision { exit_reason: idle, clear_marker: clear }
}

/// `hex::decode`: an even number of hexadecimal digits, of either case,
/// decoded pair by pair.
pub open spec fn spec_hex_decode(b: Seq<u8>) -> Option<Seq<u8>> {
    if b.len() % 2 == 0 && forall|i: int| 0 <= i < b.len() ==> (#[trigger] hex_val(b[i])) is Some {
        Some(Seq::new(b.len() / 2, |i: int| (hex_val(b[2 * i]).unwrap() * 16 + hex_val(b[2 * i + 1]).unwrap()) as u8))
    } else {
        None
    }
}

/// `hex::decode(text)`: the crate accepts exactly an even number of hex
/// digits (`0-9`, `a-f`, `A-F`) and decodes each pair high nibble first.
#[verifier::external_body]
fn hex_decode(text: &str) -> (r: Option<Vec<u8>>)
    ensures
        match r {
            Some(v) => spec_hex_decode(encode_utf8(text@)) == Some(v@),
            None => spec_hex_decode(encode_utf8(text@)) is None,
        },
{
    hex::decode(text).ok()
}

/// Which peripheral backend the daemon drives.
#[derive(Debug, Clone, Copy, PartialEq, Eq, Structural)]
pub enum PeripheralMode {
    /// The BlueZ adapter.
    Real,
    /// The radio-free test backend.
    Fake,
}

/// A response pre-seeded into the fake peripheral.
#[derive(Debug, Clone)]
pub struct InjectedResponse {
    /// The peer the response is for.
    pub peer_id: String,
    /// The response bytes.
    pub bytes: Vec<u8>,
}

/// The daemon's command line.
#[derive(Debug, Clone)]
pub struct CliArgs {
    /// Socket override.
    pub socket: Option<String>,
    /// Bonds file.
    pub bonds_file: String,
    /// Per-peer keys directory.
    pub keys_dir: String,
    /// Audit log path.
    pub audit_log: String,
    /// Log filter.
    pub log_level: String,
    /// Pidfile override.
    pub pidfile: Option<String>,
    /// `real` or `fake`.
    pub peripheral: String,
    /// `<peer_id>:<hex>` responses for the fake backend.
    pub inject_response: Vec<String>,
    /// A fixed 32-digit challenge nonce for tests.
    pub test_fixed_nonce: Option<String>,
}

/// The daemon's runtime configuration.
#[derive(Debug, Clone)]
pub struct Config {
    /// Socket the daemon binds.
    pub socket: String,
    /// Bonds file.
    pub bonds_file: String,
    /// Per-peer keys directory.
    pub keys_dir: String,
    /// Audit log path.
    pub audit_log_path: String,
    /// Pidfile.
    pub pidfile: String,
    /// Expected peer UID on the socket; `None` enforces the daemon's own.
    pub expected_uid: Option<u32>,
    /// Peripheral backend.
    pub peripheral_mode: PeripheralMode,
    /// Responses for the fake backend.
    pub inject_responses: Vec<InjectedResponse>,
    /// Fixed challenge nonce for tests.
    pub test_fixed_nonce: Option<[u8; NONCE_LEN]>,
}

/// The runtime directory: `XDG_RUNTIME_DIR` when it is set and not empty,
/// else `/run/user/<euid>`.
pub fn resolve_runtime_dir(xdg_runtime_dir: Option<&str>, euid: u32) -> (r: String)
    ensures
        r@ == spec_runtime_base(
            match xdg_runtime_dir {
                Some(d) => if d@.len() > 0 {
                    Some(d@)
                } else {
                    None
                },
                None => None,
            },
            euid,
        ),
{
    match xdg_runtime_dir {
        Some(d) => if d.unicode_len() > 0 {
            return d.to_owned();
        },
        None => {},
    }
    let uid = format_zero_padded(euid as u64, 0);
    crate::unlock_request::RUNTIME_FALLBACK_PREFIX.to_owned().concat(uid.as_str())
}

/// The backend a `--peripheral` value names.
pub fn parse_peripheral_mode(value: &str) -> (r: Result<PeripheralMode, String>)
    ensures
        value@ == PERIPHERAL_REAL@ ==> r == Ok::<PeripheralMode, String>(PeripheralMode::Real),
        value@ == PERIPHERAL_FAKE@ ==> r == Ok::<PeripheralMode, String>(PeripheralMode::Fake),
        value@ != PERIPHERAL_REAL@ && value@ != PERIPHERAL_FAKE@ ==> (r matches Err(m) && m@
            == "--peripheral must be `real` or `fake`, got: "@ + value@),
{
    proof {
        reveal_strlit("real");
        reveal_strlit("fake");
        assert(PERIPHERAL_REAL@[0] != PERIPHERAL_FAKE@[0]);
    }
    if str_eq(value, PERIPHERAL_REAL) {
        Ok(PeripheralMode::Real)
    } else if str_eq(value, PERIPHERAL_FAKE) {
        Ok(PeripheralMode::Fake)
    } else {
        Err("--peripheral must be `real` or `fake`, got: ".to_owned().concat(value))
    }
}

/// The index of the first `:` of `s` at or after `i`.
pub open spec fn first_colon_from(s: Seq<char>, i: int) -> Option<int>
    decreases s.len() - i,
{
    if i < 0 || i >= s.len() {
        None
    } else if s[i] == ':' {
        Some(i)
    } else {
        first_colon_from(s, i + 1)
    }
}

/// A `<peer_id>:<hex>` response: the peer id before the first `:` and the
/// bytes the rest decodes to, or the error text.
pub open spec fn spec_inject_response(spec: Seq<char>) -> Result<(Seq<char>, Seq<u8>), Seq<char>> {
    match first_colon_from(spec, 0) {
        None => Err("--inject-response must be `<peer_id>:<hex>`, got: "@ + spec),
        Some(i) => match spec_hex_decode(encode_utf8(spec.subrange(i + 1, spec.len() as int))) {
            Some(b) => Ok((spec.subrange(0, i), b)),
            None => Err("--inject-response hex decode failed for: "@ + spec),
        },
    }
}

proof fn lemma_first_colon_from(s: Seq<char>, i: int)
    requires
        0 <= i,
    ensures
        first_colon_from(s, i) matches Some(k) ==> i <= k < s.len() && s[k] == ':' && forall|j: int|
            i <= j < k ==> s[j] != ':',
        first_colon_from(s, i) is None ==> forall|j: int| i <= j < s.len() ==> s[j] != ':',
    decreases s.len() - i,
{
    if i < s.len() && s[i] != ':' {
        lemma_first_colon_from(s, i + 1);
    }
}

/// A `<peer_id>:<hex>` response: split at the first `:`, the hex decoded.
pub fn parse_inject_response(spec: &str) -> (r: Result<InjectedResponse, String>)
    ensures
        match (r, spec_inject_response(spec@)) {
            (Ok(resp), Ok((peer, bytes))) => resp.peer_id@ == peer && resp.bytes@ == bytes,
            (Err(m), Err(text)) => m@ == text,
            _ => false,
        },
{
    let cs = chars_of(spec);
    let n = cs.len();
    let mut i: usize = 0;
    while i < n && cs[i] != ':'
        invariant
            n == cs@.len(),
            cs@ == spec@,
            i <= n,
            first_colon_from(spec@, 0) == first_colon_from(spec@, i as int),
        decreases n - i,
    {
        i = i + 1;
    }
    if i == n {
        return Err("--inject-response must be `<peer_id>:<hex>`, got: ".to_owned().concat(spec));
    }
    let peer_id = spec.substring_char(0, i).to_owned();
    let hex_part = spec.substring_char(i + 1, n);
    match hex_decode(hex_part) {
        Some(bytes) => Ok(InjectedResponse { peer_id, bytes }),
        None => Err("--inject-response hex decode failed for: ".to_owned().concat(spec)),
    }
}

/// A `--test-fixed-nonce` value: the 16 bytes its hex digits decode to, or
/// the error text.
pub open spec fn spec_fixed_nonce(value: Option<Seq<char>>) -> Result<Option<Seq<u8>>, Seq<char>> {
    match value {
        None => Ok(None),
        Some(h) => match spec_hex_decode(encode_utf8(h)) {
            None => Err("--test-fixed-nonce hex decode failed: "@ + h),
            Some(b) => if b.len() == NONCE_LEN {
                Ok(Some(b))
            } else {
                Err("--test-fixed-nonce must decode to 16 bytes, got "@ + decimal(b.len()))
            },
        },
    }
}

/// A `--test-fixed-nonce` value: 32 hex digits that decode to 16 bytes.
pub fn parse_fixed_nonce(value: Option<&str>) -> (r: Result<Option<[u8; NONCE_LEN]>, String>)
    ensures
        match (r, spec_fixed_nonce(crate::reconcile::str_view(value))) {
            (Ok(None), Ok(None)) => true,
            (Ok(Some(n)), Ok(Some(b))) => n@ == b,
            (Err(m), Err(text)) => m@ == text,
            _ => false,
        },
{
    let h = match value {
        None => return Ok(None),
        Some(h) => h,
    };
    let bytes = match hex_decode(h) {
        Some(b) => b,
        None => return Err("--test-fixed-nonce hex decode failed: ".to_owned().concat(h)),
    };
    if bytes.len() != NONCE_LEN {
        let got = format_zero_padded(bytes.len() as u64, 0);
        return Err("--test-fixed-nonce must decode to 16 bytes, got ".to_owned().concat(got.as_str()));
    }
    let mut n = [0u8; NONCE_LEN];
    let mut i: usize = 0;
    while i < NONCE_LEN
        invariant
            bytes@.len() == NONCE_LEN,
            i <= NONCE_LEN,
            n@.len() == NONCE_LEN,
            forall|j: int| 0 <= j < i ==> n@[j] == bytes@[j],
        decreases NONCE_LEN - i,
    {
        n[i] = bytes[i];
        i = i + 1;
    }
    assert(n@ =~= bytes@);
    Ok(Some(n))
}

/// The first failing `--inject-response` at or after `i`, by its error text.
pub open spec fn first_inject_error(specs: Seq<String>, i: int) -> Option<Seq<char>>
    decreases specs.len() - i,
{
    if i < 0 || i >= specs.len() {
        None
    } else {
        match spec_inject_response(specs[i]@) {
            Err(m) => Some(m),
            Ok(_) => first_inject_error(specs, i + 1),
        }
    }
}

/// Why the command line gives no configuration, in the order the checks
/// run: the peripheral backend, each injected response, the fixed nonce.
pub open spec fn spec_config_error(cli: CliArgs) -> Option<Seq<char>> {
    if cli.peripheral@ != PERIPHERAL_REAL@ && cli.peripheral@ != PERIPHERAL_FAKE@ {
        Some("--peripheral must be `real` or `fake`, got: "@ + cli.peripheral@)
    } else {
        match first_inject_error(cli.inject_response@, 0) {
            Some(m) => Some(m),
            None => match spec_fixed_nonce(crate::reconcile::string_view(cli.test_fixed_nonce)) {
                Err(m) => Some(m),
                Ok(_) => None,
            },
        }
    }
}

/// Assemble the runtime configuration from the command line and the
/// resolved runtime directory. The defaults for the socket and the pidfile
/// live under `<runtime dir>/syauth/`.
pub fn build_config(cli: &CliArgs, runtime_dir: &str) -> (r: Result<Config, String>)
    ensures
        match r {
            Ok(cfg) => {
                &&& spec_config_error(*cli) is None
                &&& cfg.socket@ == match cli.socket {
                    Some(s) => s@,
                    None => path_join(path_join(runtime_dir@, RUNTIME_SUBDIR@), DEFAULT_SOCKET_BASENAME@),
                }
                &&& cfg.pidfile@ == match cli.pidfile {
                    Some(p) => p@,
                    None => path_join(path_join(runtime_dir@, RUNTIME_SUBDIR@), PIDFILE_BASENAME@),
                }
                &&& cfg.bonds_file@ == cli.bonds_file@
                &&& cfg.keys_dir@ == cli.keys_dir@
                &&& cfg.audit_log_path@ == cli.audit_log@
                &&& cfg.expected_uid is None
                &&& cfg.peripheral_mode == (if cli.peripheral@ == PERIPHERAL_REAL@ {
                    PeripheralMode::Real
                } else {
                    PeripheralMode::Fake
                })
                &&& cfg.inject_responses@.len() == cli.inject_response@.len()
                &&& forall|i: int| 0 <= i < cli.inject_response@.len() ==> spec_inject_response(
                    #[trigger] cli.inject_response@[i]@,
                ) == Ok::<(Seq<char>, Seq<u8>), Seq<char>>(
                    (cfg.inject_responses@[i].peer_id@, cfg.inject_responses@[i].bytes@),
                )
                &&& match (cfg.test_fixed_nonce, spec_fixed_nonce(crate::reconcile::string_view(cli.test_fixed_nonce))) {
                    (Some(n), Ok(Some(b))) => n@ == b,
                    (None, Ok(None)) => true,
                    _ => false,
                }
            },
            Err(m) => spec_config_error(*cli) == Some(m@),
        },
{
    let sub = join_path(runtime_dir, RUNTIME_SUBDIR);
    let socket_default = join_path(sub.as_str(), DEFAULT_SOCKET_BASENAME);
    let pidfile_default = join_path(sub.as_str(), PIDFILE_BASENAME);
    let peripheral_mode = match parse_peripheral_mode(cli.peripheral.as_str()) {
        Ok(m) => m,
        Err(e) => return Err(e),
    };
    let mut inject_responses: Vec<InjectedResponse> = Vec::new();
    let mut i: usize = 0;
    while i < cli.inject_response.len()
        invariant
            i <= cli.inject_response@.len(),
            inject_responses@.len() == i,
            cli.peripheral@ == PERIPHERAL_REAL@ || cli.peripheral@ == PERIPHERAL_FAKE@,
            first_inject_error(cli.inject_response@, 0) == first_inject_error(cli.inject_response@, i as int),
            forall|j: int| 0 <= j < i ==> spec_inject_response(#[trigger] cli.inject_response@[j]@) == Ok::<
                (Seq<char>, Seq<u8>),
                Seq<char>,
            >((inject_responses@[j].peer_id@, inject_responses@[j].bytes@)),
        decreases cli.inject_response@.len() - i,
    {
        let resp = match parse_inject_response(cli.inject_response[i].as_str()) {
            Ok(resp) => resp,
            Err(e) => return Err(e),
        };
        inject_responses.push(resp);
        i = i + 1;
    }
    assert(first_inject_error(cli.inject_response@, i as int) is None);
    let test_fixed_nonce = match &cli.test_fixed_nonce {
        Some(h) => {
            let hs = h.as_str();
            assert(crate::reconcile::string_view(cli.test_fixed_nonce) == crate::reconcile::str_view(Some(hs)));
            match parse_fixed_nonce(Some(hs)) {
                Ok(n) => n,
                Err(e) => return Err(e),
            }
        },
        None => None,
    };
    let socket = match &cli.socket {
        Some(s) => s.clone(),
        None => socket_default,
    };
    let pidfile = match &cli.pidfile {
        Some(p) => p.clone(),
        None => pidfile_default,
    };
    Ok(Config {
        socket,
        bonds_file: cli.bonds_file.clone(),
        keys_dir: cli.keys_dir.clone(),
        audit_log_path: cli.audit_log.clone(),
        pidfile,
        expected_uid: None,
        peripheral_mode,
        inject_responses,
        test_fixed_nonce,
    })
}

} // verus!
