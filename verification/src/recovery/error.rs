//! The failures of the recovery protocol.

use vstd::prelude::*;

verus! {

/// Why a recovery operation did not go through.
#[derive(Clone, Copy, Debug, PartialEq, Eq, Structural)]
pub enum RecoveryError {
    /// The threshold is zero or exceeds the number of shares.
    InvalidThreshold,
    /// The wallet already has a recovery session that has not expired.
    SessionAlreadyActive,
    /// The wallet has no recovery session.
    NoActiveSession,
    /// An envelope could not be opened, or what it held was damaged.
    DecryptionFailed,
    /// Fewer shares with distinct indices than the threshold asks for.
    InsufficientShares,
    /// The shares do not belong to one split, or do not add up to a secret
    /// that matches its fingerprint.
    InconsistentShares,
    /// A message could not be prepared for or handed to the transport.
    TransportUnavailable,
    /// The recovery session has outlived its time to live.
    Expired,
}

} // verus!
