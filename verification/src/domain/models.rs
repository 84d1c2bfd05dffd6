//! The records of the wallet's tables, with identifiers as 128-bit numbers
//! and times as seconds since the epoch.

use crate::domain::types::Sats;
use vstd::prelude::*;

verus! {

#[derive(Debug)]
pub struct User {
    pub id: u128,
    pub phone_number: String,
    pub created_at: i64,
    pub updated_at: i64,
}

#[derive(Debug)]
pub struct Wallet {
    pub id: u128,
    pub user_id: u128,
    pub nostr_npub: String,
    pub breez_wallet_id: String,
    pub balance_sats: Sats,
    pub created_at: i64,
    pub updated_at: i64,
}

#[derive(Debug)]
pub struct EncryptedNostrNsec {
    pub id: u128,
    pub wallet_id: u128,
    pub encrypted_nsec: String,
    pub created_at: i64,
}

#[derive(Debug)]
pub struct Transaction {
    pub id: u128,
    pub wallet_id: u128,
    pub tx_type: String,
    pub amount_sats: Sats,
    pub fee_sats: Sats,
    pub status: String,
    pub description: Option<String>,
    pub external_id: Option<String>,
    pub created_at: i64,
    pub updated_at: i64,
}

#[derive(Debug)]
pub struct AdminUser {
    pub id: u128,
    pub username: String,
    pub password_hash: String,
    pub is_active: bool,
    pub created_at: i64,
    pub updated_at: i64,
}

/// A webhook of a fiat on-ramp as it was received; the payload is kept as
/// JSON text.
#[derive(Debug)]
pub struct FiatOnrampWebhook {
    pub id: u128,
    pub provider: String,
    pub event_id: String,
    pub payload: String,
    pub processed: bool,
    pub created_at: i64,
}

} // verus!
