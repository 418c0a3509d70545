//! `unlock-request`: the out-of-band unlock path.
//!
//! The lock screen's PAM service stays stock; the phone can only ever cause
//! `loginctl unlock-session`, and only after the daemon verified it. The
//! worst failure mode is that nothing happens.
//!
//! 1. Pick the peer: the one asked for, else the newest `Bonded` record.
//! 2. Send one challenge to the daemon's socket and wait for its answer.
//! 3. Only when the phone approved, unlock the session (or, in a dry run,
//!    only report the verification).
use vstd::prelude::*;
use vstd::string::{StrSliceExecFns, StringExecFns};
use crate::bonds::{BondSummary, is_newest_bonded, any_bonded, newest_bonded_index};
use crate::paths::{path_join, join_path};
use crate::text::{decimal, zero_pad, format_zero_padded};

verus! {

/// Budget for the whole challenge, in seconds: the operator has to pick up
/// the phone and approve.
pub const DEFAULT_TIMEOUT_SECS: u64 = 60;

/// Connect and write budget towards the daemon, in milliseconds.
pub const CONNECT_TIMEOUT_MS: u64 = 500;

/// `loginctl` sub-command that unlocks the caller's session.
pub const UNLOCK_SESSION_ARG: &'static str = "unlock-session";

/// Environment variable that overrides the `loginctl` binary.
pub const LOGINCTL_BIN_ENV: &'static str = "SYAUTH_LOGINCTL_BIN";

/// Default `loginctl` binary, resolved through `PATH`.
pub const LOGINCTL_BIN_DEFAULT: &'static str = "loginctl";

/// Runtime-dir prefix for sessions without `XDG_RUNTIME_DIR`.
pub const RUNTIME_FALLBACK_PREFIX: &'static str = "/run/user/";

/// Sub-directory of the runtime dir that holds the daemon socket.
pub const RUNTIME_SUBDIR: &'static str = "syauth";

/// File name of the daemon socket.
pub const SOCKET_BASENAME: &'static str = "auth.sock";

/// Length of the challenge nonce.
pub const NONCE_LEN: usize = 16;

/// Options of `syauth unlock-request`.
#[derive(Debug, Clone)]
pub struct UnlockRequestOpts {
    /// Socket of the running daemon; the runtime-dir default when absent.
    pub socket: Option<String>,
    /// Directory holding `bonds.toml`.
    pub bond_dir: String,
    /// Challenge this peer instead of the newest bonded one.
    pub peer_id: Option<String>,
    /// Seconds to wait for the phone's approval.
    pub timeout_secs: u64,
    /// Verify the phone but leave the session alone.
    pub dry_run: bool,
}

/// Everything `unlock-request` can refuse with. Every variant means the
/// session was not touched.
#[derive(Debug, Clone, PartialEq, Eq)]
pub enum UnlockRequestError {
    /// No usable bond: the store is unreadable or has no `Bonded` record.
    NoBondedPeer(String),
    /// The daemon socket could not be reached.
    Connect {
        /// Socket path that refused the connection.
        path: String,
        /// The underlying failure.
        source: String,
    },
    /// Socket options or the framing failed.
    Exchange(String),
    /// The daemon answered otherwise than with an approval.
    Refused(String),
    /// `loginctl` could not be spawned.
    Unlock {
        /// Binary that failed to spawn.
        bin: String,
        /// The underlying failure.
        source: String,
    },
    /// `loginctl` ran but exited unsuccessfully.
    UnlockStatus {
        /// Binary that ran.
        bin: String,
        /// Sub-command that ran.
        arg: String,
        /// Its exit status, as text.
        status: String,
    },
}

impl UnlockRequestError {
    /// The human-readable text of the error.
    pub open spec fn spec_message(self) -> Seq<char> {
        match self {
            UnlockRequestError::NoBondedPeer(s) => "no bonded peer: "@ + s@,
            UnlockRequestError::Connect { path, source } => "daemon unreachable at "@ + path@ + ": "@ + source@,
            UnlockRequestError::Exchange(s) => "daemon exchange failed: "@ + s@,
            UnlockRequestError::Refused(s) => "phone refused: "@ + s@,
            UnlockRequestError::Unlock { bin, source } => "could not run "@ + bin@ + ": "@ + source@,
            UnlockRequestError::UnlockStatus { bin, arg, status } => bin@ + " "@ + arg@ + " exited with "@ + status@,
        }
    }

    /// The human-readable text of the error.
    pub fn message(&self) -> (r: String)
        ensures
            r@ == self.spec_message(),
    {
        match self {
            UnlockRequestError::NoBondedPeer(s) => "no bonded peer: ".to_owned().concat(s.as_str()),
            UnlockRequestError::Connect { path, source } => "daemon unreachable at ".to_owned().concat(
                path.as_str(),
            ).concat(": ").concat(source.as_str()),
            UnlockRequestError::Exchange(s) => "daemon exchange failed: ".to_owned().concat(s.as_str()),
            UnlockRequestError::Refused(s) => "phone refused: ".to_owned().concat(s.as_str()),
            UnlockRequestError::Unlock { bin, source } => "could not run ".to_owned().concat(
                bin.as_str(),
            ).concat(": ").concat(source.as_str()),
            UnlockRequestError::UnlockStatus { bin, arg, status } => bin.clone().concat(" ").concat(
                arg.as_str(),
            ).concat(" exited with ").concat(status.as_str()),
        }
    }
}

/// The peer to challenge when none was named: the newest `Bonded` record of
/// the store loaded from `bonds_path`. A store that could not be loaded
/// (its error text in `store`) or that has no `Bonded` record is refused.
pub fn newest_bonded_peer(store: Result<Vec<BondSummary>, String>, bonds_path: &str) -> (r: Result<
    String,
    UnlockRequestError,
>)
    ensures
        match store {
            Err(e) => r == Err::<String, UnlockRequestError>(UnlockRequestError::NoBondedPeer(e)),
            Ok(bonds) => match r {
                Ok(peer) => exists|j: int| is_newest_bonded(bonds@, j) && #[trigger] bonds@[j].peer_id@ == peer@,
                Err(UnlockRequestError::NoBondedPeer(m)) => !any_bonded(bonds@) && m@ == "no bonded peer in "@ + bonds_path@,
                Err(_) => false,
            },
        },
{
    let bonds = match store {
        Ok(b) => b,
        Err(e) => return Err(UnlockRequestError::NoBondedPeer(e)),
    };
    match newest_bonded_index(bonds.as_slice()) {
        Some(j) => {
            let peer = bonds[j].peer_id.clone();
            assert(bonds@[j as int].peer_id@ == peer@);
            Ok(peer)
        },
        None => Err(UnlockRequestError::NoBondedPeer("no bonded peer in ".to_owned().concat(bonds_path))),
    }
}

/// The `loginctl` binary to run: the override's value when it is set,
/// else the default.
pub fn loginctl_bin(override_value: Option<String>) -> (r: String)
    ensures
        match override_value {
            Some(v) => r@ == v@,
            None => r@ == LOGINCTL_BIN_DEFAULT@,
        },
{
    match override_value {
        Some(v) => v,
        None => LOGINCTL_BIN_DEFAULT.to_owned(),
    }
}

/// The runtime directory: `XDG_RUNTIME_DIR` when it is set, else
/// `/run/user/<euid>`.
pub open spec fn spec_runtime_base(xdg_runtime_dir: Option<Seq<char>>, euid: u32) -> Seq<char> {
    match xdg_runtime_dir {
        Some(d) => d,
        None => RUNTIME_FALLBACK_PREFIX@ + decimal(euid as nat),
    }
}

/// `<runtime dir>/syauth/auth.sock`.
pub fn default_socket_path(xdg_runtime_dir: Option<&str>, euid: u32) -> (r: String)
    ensures
        r@ == path_join(
            path_join(
                spec_runtime_base(
                    match xdg_runtime_dir {
                        Some(d) => Some(d@),
                        None => None,
                    },
                    euid,
                ),
                RUNTIME_SUBDIR@,
            ),
            SOCKET_BASENAME@,
        ),
{
    let base = match xdg_runtime_dir {
        Some(d) => d.to_owned(),
        None => {
            let uid = format_zero_padded(euid as u64, 0);
            RUNTIME_FALLBACK_PREFIX.to_owned().concat(uid.as_str())
        },
    };
    let sub = join_path(base.as_str(), RUNTIME_SUBDIR);
    join_path(sub.as_str(), SOCKET_BASENAME)
}

/// What to do once the daemon answered.
#[derive(Debug, Clone)]
pub struct UnlockPlan {
    /// Run `loginctl unlock-session` before reporting.
    pub unlock: bool,
    /// The one line to print on success.
    pub line: String,
}

/// The plan for the daemon's answer to a challenge: a refusal touches
/// nothing; an approval reports, and unlocks unless this is a dry run.
pub fn challenge_outcome(ok: bool, reason: &str, peer_id: &str, dry_run: bool) -> (r: Result<
    UnlockPlan,
    UnlockRequestError,
>)
    ensures
        !ok ==> (r matches Err(UnlockRequestError::Refused(m)) && m@ == reason@),
        ok ==> (r matches Ok(plan) && plan.unlock == !dry_run && plan.line@ == (if dry_run {
            "verified peer="@
        } else {
            "unlocked peer="@
        }) + peer_id@ + " reason="@ + reason@ + (if dry_run {
            " dry-run=1"@
        } else {
            " dry-run=0"@
        })),
{
    if !ok {
        return Err(UnlockRequestError::Refused(reason.to_owned()));
    }
    let head = if dry_run {
        "verified peer="
    } else {
        "unlocked peer="
    };
    let tail = if dry_run {
        " dry-run=1"
    } else {
        " dry-run=0"
    };
    let line = head.to_owned().concat(peer_id).concat(" reason=").concat(reason).concat(tail);
    Ok(UnlockPlan { unlock: !dry_run, line })
}


/// A fresh challenge nonce: `NONCE_LEN` bytes from the OS random source, or
/// `None` when the source failed. The bytes are random; only their number
/// is stated.
pub fn challenge_nonce() -> (r: Option<Vec<u8>>)
    ensures
        r matches Some(n) ==> n@.len() == NONCE_LEN,
{
    let mut nonce = crate::reconcile::zeroed(NONCE_LEN);
    if crate::reconcile::os_fill_bytes(&mut nonce) {
        Some(nonce)
    } else {
        None
    }
}

} // verus!
