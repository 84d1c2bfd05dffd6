//! The recovery service as the endpoints use it: requests given as text
//! are read, handed to the coordinator, and its failures turned into the
//! failures of the application.

use crate::error::AppError;
use crate::identifiers::{parsed_uuid, read_uuid};
use crate::recovery::channel::{parsed_public_key, Envelope, PubKey};
use crate::recovery::coordinator::{
    initiate_refusal, initiated, key_views, Dispatch, RecoveryCoordinator,
};
use crate::recovery::error::RecoveryError;
use crate::recovery::secret::Secret;
use crate::recovery::session::{accept_step, AcceptOutcome};
use crate::text::owned;
use vstd::prelude::*;

verus! {

/// The HTTP-facing failure that a failure of the recovery protocol shows
/// as.
pub fn recovery_failure(e: RecoveryError) -> (r: AppError)
    ensures
        shown_as(e, r),
{
    match e {
        RecoveryError::InvalidThreshold => AppError::BadRequest(
            owned("Invalid recovery threshold"),
        ),
        RecoveryError::SessionAlreadyActive => AppError::Conflict(
            owned("A recovery session is already active for this wallet"),
        ),
        RecoveryError::NoActiveSession => AppError::NotFound(
            owned("No active recovery session for this wallet"),
        ),
        RecoveryError::DecryptionFailed => AppError::BadRequest(owned("Failed to decrypt share")),
        RecoveryError::InsufficientShares => AppError::Conflict(
            owned("Not enough shares to reconstruct"),
        ),
        RecoveryError::InconsistentShares => AppError::Internal(
            owned("Failed to reconstruct secret: the shares do not fit together"),
        ),
        RecoveryError::TransportUnavailable => AppError::Internal(
            owned("Failed to prepare shares for delivery"),
        ),
        RecoveryError::Expired => AppError::NotFound(owned("The recovery session has expired")),
    }
}

/// Reads the public keys of the helpers. Fails with `BadRequest` at the
/// first text that is no public key.
pub fn read_helpers(helper_npubs: &Vec<String>) -> (r: Result<Vec<PubKey>, AppError>)
    ensures
        match r {
            Ok(keys) => keys@.len() == helper_npubs@.len() && forall|i: int|
                0 <= i < keys@.len() ==> parsed_public_key(helper_npubs@[i]@) == Some(
                    (#[trigger] keys@[i])@,
                ),
            Err(e) => e is BadRequest && exists|i: int|
                0 <= i < helper_npubs@.len() && parsed_public_key(
                    #[trigger] helper_npubs@[i]@,
                ) is None,
        },
{
    let mut keys: Vec<PubKey> = Vec::new();
    let mut i: usize = 0;
    while i < helper_npubs.len()
        invariant
            i <= helper_npubs.len(),
            keys@.len() == i,
            forall|j: int|
                0 <= j < i ==> parsed_public_key(helper_npubs@[j]@) == Some((#[trigger] keys@[j])@),
        decreases helper_npubs.len() - i,
    {
        match PubKey::parse(helper_npubs[i].as_str()) {
            Some(key) => {
                keys.push(key);
            },
            None => {
                return Err(AppError::BadRequest(owned("Invalid helper npub")));
            },
        }
        i = i + 1;
    }
    Ok(keys)
}

/// Whether every one of `texts` is read as a public key.
pub open spec fn all_keys_read(texts: Seq<String>) -> bool {
    forall|i: int| 0 <= i < texts.len() ==> parsed_public_key(#[trigger] texts[i]@) is Some
}

/// The public keys that `texts` are read as.
pub open spec fn keys_read(texts: Seq<String>) -> Seq<Seq<u8>> {
    Seq::new(texts.len(), |i: int| parsed_public_key(texts[i]@).unwrap())
}

/// How a failure of the recovery protocol shows: the kind of failure of
/// the application that stands for it.
pub open spec fn shown_as(e: RecoveryError, r: AppError) -> bool {
    match e {
        RecoveryError::InvalidThreshold => r is BadRequest,
        RecoveryError::SessionAlreadyActive => r is Conflict,
        RecoveryError::NoActiveSession => r is NotFound,
        RecoveryError::DecryptionFailed => r is BadRequest,
        RecoveryError::InsufficientShares => r is Conflict,
        RecoveryError::InconsistentShares => r is Internal,
        RecoveryError::TransportUnavailable => r is Internal,
        RecoveryError::Expired => r is NotFound,
    }
}

/// Starts the recovery of a wallet: reads the identifier of the wallet and
/// the keys of the helpers, and has the coordinator split `secret` with the
/// threshold `threshold` and seal one share for each helper.
///
/// Fails with `BadRequest`, and changes nothing, when the identifier or a
/// key cannot be read. Otherwise the recovery is started, unless the
/// coordinator refuses it because the wallet has an active session or the
/// threshold is out of range; a refusal shows as `shown_as` says.
pub fn initiate_recovery_request(
    coordinator: &mut RecoveryCoordinator,
    wallet_id_str: &str,
    helper_npubs: &Vec<String>,
    threshold: u8,
    secret: &Secret,
    now: u64,
) -> (r: Result<Vec<Dispatch>, AppError>)
    requires
        old(coordinator).wf(),
        2 * (secret@.len() + 18) <= usize::MAX,
    ensures
        final(coordinator).wf(),
        match r {
            Ok(dispatches) => {
                &&& parsed_uuid(wallet_id_str@) is Some
                &&& all_keys_read(helper_npubs@)
                &&& initiate_refusal(
                    old(coordinator)@,
                    parsed_uuid(wallet_id_str@).unwrap(),
                    helper_npubs@.len(),
                    threshold,
                    now,
                ) is None
                &&& initiated(
                    old(coordinator)@,
                    final(coordinator)@,
                    parsed_uuid(wallet_id_str@).unwrap(),
                    keys_read(helper_npubs@),
                    threshold,
                    secret@,
                    now,
                    dispatches@,
                )
            },
            Err(e) => {
                &&& final(coordinator)@ == old(coordinator)@
                &&& if parsed_uuid(wallet_id_str@) is None || !all_keys_read(helper_npubs@) {
                    e is BadRequest
                } else {
                    match initiate_refusal(
                        old(coordinator)@,
                        parsed_uuid(wallet_id_str@).unwrap(),
                        helper_npubs@.len(),
                        threshold,
                        now,
                    ) {
                        Some(why) => shown_as(why, e),
                        None => false,
                    }
                }
            },
        },
{
    let wallet_id = match read_uuid(wallet_id_str) {
        Some(id) => id,
        None => {
            return Err(AppError::BadRequest(owned("Invalid wallet ID")));
        },
    };
    let helpers = match read_helpers(helper_npubs) {
        Ok(helpers) => helpers,
        Err(e) => {
            return Err(e);
        },
    };
    assert forall|i: int| 0 <= i < helper_npubs@.len() implies parsed_public_key(
        #[trigger] helper_npubs@[i]@,
    ) == Some(helpers@[i]@) by {
        assert(parsed_public_key(helper_npubs@[i]@) == Some(helpers@[i]@));
    }
    assert(key_views(helpers@) =~= keys_read(helper_npubs@));
    match coordinator.initiate(wallet_id, &helpers, threshold, secret, now) {
        Ok(dispatches) => Ok(dispatches),
        Err(e) => Err(recovery_failure(e)),
    }
}

/// Takes a share that a helper hands in: reads the identifier of the
/// wallet and the key of the helper, and has the coordinator accept the
/// envelope.
///
/// Fails with `BadRequest` when the identifier or the key cannot be read
/// (the coordinator is then not asked), and otherwise as the coordinator
/// fails.
pub fn submit_recovery_share(
    coordinator: &mut RecoveryCoordinator,
    wallet_id_str: &str,
    encrypted_share: &str,
    helper_pubkey_str: &str,
    now: u64,
) -> (r: Result<AcceptOutcome, AppError>)
    requires
        old(coordinator).wf(),
    ensures
        final(coordinator).wf(),
        parsed_uuid(wallet_id_str@) is None || parsed_public_key(helper_pubkey_str@) is None ==> r
            is Err && final(coordinator)@ == old(coordinator)@,
        parsed_uuid(wallet_id_str@) is None || parsed_public_key(helper_pubkey_str@) is None ==> (
        r matches Err(e) ==> e is BadRequest),
        parsed_uuid(wallet_id_str@) matches Some(wallet) ==> (parsed_public_key(
            helper_pubkey_str@,
        ) matches Some(helper) ==> {
            &&& !old(coordinator)@.sessions.contains_key(wallet) ==> final(coordinator)@ == old(
                coordinator,
            )@ && (match r {
                Ok(_) => false,
                Err(e) => e is NotFound,
            })
            &&& old(coordinator)@.sessions.contains_key(wallet) ==> {
                &&& final(coordinator)@.sessions == old(coordinator)@.sessions.insert(
                    wallet,
                    accept_step(
                        old(coordinator)@.sessions[wallet],
                        helper,
                        encrypted_share@,
                        now,
                    ).0,
                )
                &&& match accept_step(
                    old(coordinator)@.sessions[wallet],
                    helper,
                    encrypted_share@,
                    now,
                ).1 {
                    Ok(view) => match r {
                        Ok(outcome) => outcome@ == view,
                        Err(_) => false,
                    },
                    Err(why) => match r {
                        Ok(_) => false,
                        Err(e) => shown_as(why, e),
                    },
                }
            }
        }),
{
    let wallet_id = match read_uuid(wallet_id_str) {
        Some(id) => id,
        None => {
            return Err(AppError::BadRequest(owned("Invalid wallet ID")));
        },
    };
    let helper = match PubKey::parse(helper_pubkey_str) {
        Some(key) => key,
        None => {
            return Err(AppError::BadRequest(owned("Invalid helper pubkey")));
        },
    };
    match coordinator.accept(wallet_id, helper, Envelope::new(owned(encrypted_share)), now) {
        Ok(outcome) => Ok(outcome),
        Err(e) => Err(recovery_failure(e)),
    }
}

} // verus!
