//! DeskUnlock pairing core: the versioned bilateral pairing transaction, its
//! wire formats, the local confirmation frames, the daemon pair engine's
//! decisions and the crash-recovery rules.

pub mod be_bytes;
pub mod pair_transaction;
pub mod text;
pub mod pairing;
pub mod paths;
pub mod pair_recovery;
pub mod pair_engine;
pub mod reconcile;
pub mod pair_backend;
pub mod oob;
pub mod peripheral;
pub mod bonds;
pub mod unlock_request;
pub mod presenced;
