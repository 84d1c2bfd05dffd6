//! The requests and answers of the admin endpoints.

use crate::api::validation::{has_length, FailureView, ValidationFailure};
use crate::domain::models::Transaction;
use crate::domain::types::Sats;
use crate::text::{joined, owned};
use vstd::prelude::*;

verus! {

#[derive(Debug)]
pub struct AdminLoginPayload {
    pub username: String,
    pub password: String,
}

#[derive(Debug)]
pub struct AdminLoginResponse {
    pub success: bool,
    pub message: String,
    /// The JWT of the session.
    pub token: Option<String>,
}

#[derive(Debug)]
pub struct AdminTradesResponse {
    pub trades: Vec<Transaction>,
}

#[derive(Debug)]
pub struct ManualReleasePayload {
    /// The identifier of the transaction, as text.
    pub transaction_id: String,
    pub amount_sats: Sats,
    pub recipient_nostr_pubkey: String,
    pub notes: Option<String>,
}

#[derive(Debug)]
pub struct ManualReleaseResponse {
    pub success: bool,
    pub message: String,
    pub transaction_id: String,
}

/// The first rule that a login breaks.
pub open spec fn login_failure(username: Seq<char>, password: Seq<char>) -> Option<FailureView> {
    if username.len() < 1 {
        Some(FailureView { field: "username"@, message: "Username cannot be empty"@ })
    } else if password.len() < 8 {
        Some(
            FailureView {
                field: "password"@,
                message: "Password must be at least 8 characters long"@,
            },
        )
    } else {
        None
    }
}

/// The first rule that a manual release breaks.
pub open spec fn release_failure(transaction_id: Seq<char>, recipient: Seq<char>) -> Option<
    FailureView,
> {
    if transaction_id.len() < 1 {
        Some(FailureView { field: "transaction_id"@, message: "Transaction ID is required"@ })
    } else if recipient.len() < 1 {
        Some(
            FailureView {
                field: "recipient_nostr_pubkey"@,
                message: "Recipient Nostr public key is required"@,
            },
        )
    } else {
        None
    }
}

impl AdminLoginPayload {
    /// Checks the login: the user name is not empty and the password has at
    /// least eight characters.
    pub fn validate(&self) -> (r: Result<(), ValidationFailure>)
        ensures
            match r {
                Ok(_) => login_failure(self.username@, self.password@) is None,
                Err(f) => login_failure(self.username@, self.password@) == Some(f@),
            },
    {
        if !has_length(self.username.as_str(), 1) {
            Err(ValidationFailure::new("username", "Username cannot be empty"))
        } else if !has_length(self.password.as_str(), 8) {
            Err(
                ValidationFailure::new("password", "Password must be at least 8 characters long"),
            )
        } else {
            Ok(())
        }
    }
}

impl AdminLoginResponse {
    /// The answer to a login that went through.
    pub fn logged_in(token: String) -> (r: AdminLoginResponse)
        ensures
            r.success,
            r.message@ == "Login successful"@,
            match r.token {
                Some(t) => t@ == token@,
                None => false,
            },
    {
        AdminLoginResponse { success: true, message: owned("Login successful"), token: Some(token) }
    }
}

impl ManualReleasePayload {
    /// Checks the release: the transaction identifier and the recipient
    /// are not empty.
    pub fn validate(&self) -> (r: Result<(), ValidationFailure>)
        ensures
            match r {
                Ok(_) => release_failure(self.transaction_id@, self.recipient_nostr_pubkey@)
                    is None,
                Err(f) => release_failure(self.transaction_id@, self.recipient_nostr_pubkey@)
                    == Some(f@),
            },
    {
        if !has_length(self.transaction_id.as_str(), 1) {
            Err(ValidationFailure::new("transaction_id", "Transaction ID is required"))
        } else if !has_length(self.recipient_nostr_pubkey.as_str(), 1) {
            Err(
                ValidationFailure::new(
                    "recipient_nostr_pubkey",
                    "Recipient Nostr public key is required",
                ),
            )
        } else {
            Ok(())
        }
    }
}

impl ManualReleaseResponse {
    /// The answer to a release that went through.
    pub fn released(transaction_id: String) -> (r: ManualReleaseResponse)
        ensures
            r.success,
            r.message@ == "Funds manually released for transaction ID: "@ + transaction_id@,
            r.transaction_id@ == transaction_id@,
    {
        ManualReleaseResponse {
            success: true,
            message: joined(
                "Funds manually released for transaction ID: ",
                transaction_id.as_str(),
            ),
            transaction_id,
        }
    }
}

} // verus!
