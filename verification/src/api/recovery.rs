//! The requests and answers of the recovery endpoints.

use crate::api::validation::{has_length, FailureView, ValidationFailure};
use crate::text::owned;
use vstd::prelude::*;

verus! {

/// A request to start the recovery of a wallet.
#[derive(Debug)]
pub struct RecoveryRequestPayload {
    /// The identifier of the wallet, as text.
    pub wallet_id: String,
    /// The Nostr public keys of the helpers.
    pub helper_npubs: Vec<String>,
}

#[derive(Debug)]
pub struct RecoveryRequestResponse {
    pub success: bool,
    pub message: String,
}

/// A share that a helper hands in.
#[derive(Debug)]
pub struct SubmitSharePayload {
    /// The identifier of the wallet, as text.
    pub wallet_id: String,
    pub encrypted_share: String,
    /// The Nostr public key of the helper who sends the share.
    pub helper_pubkey: String,
}

#[derive(Debug)]
pub struct SubmitShareResponse {
    pub success: bool,
    pub message: String,
}

/// The first rule that a recovery request breaks.
pub open spec fn recovery_request_failure(wallet_id: Seq<char>, helpers: nat) -> Option<
    FailureView,
> {
    if wallet_id.len() < 1 {
        Some(FailureView { field: "wallet_id"@, message: "Wallet ID is required"@ })
    } else if helpers < 1 {
        Some(FailureView { field: "helper_npubs"@, message: "Nostr npub of helper is required"@ })
    } else {
        None
    }
}

/// The first rule that a submission breaks.
pub open spec fn submit_share_failure(
    wallet_id: Seq<char>,
    encrypted_share: Seq<char>,
    helper_pubkey: Seq<char>,
) -> Option<FailureView> {
    if wallet_id.len() < 1 {
        Some(FailureView { field: "wallet_id"@, message: "Wallet ID is required"@ })
    } else if encrypted_share.len() < 1 {
        Some(FailureView { field: "encrypted_share"@, message: "Encrypted share is required"@ })
    } else if helper_pubkey.len() < 1 {
        Some(
            FailureView {
                field: "helper_pubkey"@,
                message: "Nostr pubkey of helper is required"@,
            },
        )
    } else {
        None
    }
}

impl RecoveryRequestPayload {
    /// Checks the request: the wallet identifier is not empty and there is
    /// at least one helper.
    pub fn validate(&self) -> (r: Result<(), ValidationFailure>)
        ensures
            match r {
                Ok(_) => recovery_request_failure(self.wallet_id@, self.helper_npubs@.len())
                    is None,
                Err(f) => recovery_request_failure(self.wallet_id@, self.helper_npubs@.len())
                    == Some(f@),
            },
    {
        if !has_length(self.wallet_id.as_str(), 1) {
            Err(ValidationFailure::new("wallet_id", "Wallet ID is required"))
        } else if self.helper_npubs.len() < 1 {
            Err(ValidationFailure::new("helper_npubs", "Nostr npub of helper is required"))
        } else {
            Ok(())
        }
    }
}

impl RecoveryRequestResponse {
    /// The answer to a request that went through.
    pub fn initiated() -> (r: RecoveryRequestResponse)
        ensures
            r.success,
            r.message@ == "Recovery request initiated successfully"@,
    {
        RecoveryRequestResponse {
            success: true,
            message: owned("Recovery request initiated successfully"),
        }
    }
}

impl SubmitSharePayload {
    /// Checks the submission: no field is empty.
    pub fn validate(&self) -> (r: Result<(), ValidationFailure>)
        ensures
            match r {
                Ok(_) => submit_share_failure(
                    self.wallet_id@,
                    self.encrypted_share@,
                    self.helper_pubkey@,
                ) is None,
                Err(f) => submit_share_failure(
                    self.wallet_id@,
                    self.encrypted_share@,
                    self.helper_pubkey@,
                ) == Some(f@),
            },
    {
        if !has_length(self.wallet_id.as_str(), 1) {
            Err(ValidationFailure::new("wallet_id", "Wallet ID is required"))
        } else if !has_length(self.encrypted_share.as_str(), 1) {
            Err(ValidationFailure::new("encrypted_share", "Encrypted share is required"))
        } else if !has_length(self.helper_pubkey.as_str(), 1) {
            Err(ValidationFailure::new("helper_pubkey", "Nostr pubkey of helper is required"))
        } else {
            Ok(())
        }
    }
}

impl SubmitShareResponse {
    /// The answer to a submission that went through.
    pub fn submitted() -> (r: SubmitShareResponse)
        ensures
            r.success,
            r.message@ == "Recovery share submitted successfully"@,
    {
        SubmitShareResponse {
            success: true,
            message: owned("Recovery share submitted successfully"),
        }
    }
}

} // verus!
