//! A stand-in for the Lightning service: it answers as the service would,
//! without a network.

use crate::domain::types::{divide_truncating, truncated_quotient, Sats};
use crate::identifiers::{fresh_uuid, uuid_simple_text, uuid_text, write_uuid, write_uuid_simple};
use crate::text::{decimal, decimal_text, joined, owned};
use vstd::prelude::*;
use vstd::string::StrSliceExecFns;

verus! {

/// What is known of a payment.
#[derive(Debug)]
pub struct PaymentInfo {
    pub payment_hash: String,
    pub amount_sats: Sats,
    pub fee_sats: Sats,
    pub status: String,
    pub description: Option<String>,
}

/// The Lightning service of the wallet.
#[derive(Debug)]
pub struct BreezService {
    api_key: String,
    mnemonic: String,
    _initialized: bool,
}

impl BreezService {
    /// The service for an API key and a mnemonic.
    pub fn new(api_key: &str, mnemonic: &str) -> (service: BreezService)
        ensures
            service.is_initialized(),
    {
        BreezService { api_key: owned(api_key), mnemonic: owned(mnemonic), _initialized: true }
    }

    /// Whether the service is ready.
    pub closed spec fn is_initialized(&self) -> bool {
        self._initialized
    }

    /// The record of a payment of `amount_sats` to `recipient`: complete,
    /// with a fee of one hundredth of the amount and a fresh hash.
    pub fn send_payment(&self, amount_sats: Sats, recipient: &str) -> (info: PaymentInfo)
        ensures
            info.amount_sats == amount_sats,
            info.fee_sats.0 == truncated_quotient(amount_sats.0 as int, 100),
            info.status@ == "complete"@,
            exists|id: u128| info.payment_hash@ == "mock_payment_hash_"@ + uuid_text(id),
            match info.description {
                Some(d) => d@ == "Payment to "@ + recipient@,
                None => false,
            },
    {
        let id = fresh_uuid();
        let text = write_uuid(id);
        PaymentInfo {
            payment_hash: joined("mock_payment_hash_", text.as_str()),
            amount_sats,
            fee_sats: Sats(divide_truncating(amount_sats.0, 100)),
            status: owned("complete"),
            description: Some(joined("Payment to ", recipient)),
        }
    }

    /// An invoice for receiving `amount_sats`.
    pub fn receive_payment(&self, amount_sats: Sats, description: &str) -> (invoice: String)
        ensures
            invoice@ == "lnbcrt"@ + decimal_text(amount_sats.0) + "mockinvoice"@,
    {
        let number = decimal(amount_sats.0);
        let mut invoice = joined("lnbcrt", number.as_str());
        invoice.append("mockinvoice");
        invoice
    }

    /// An on-chain address for receiving: a fixed prefix and the first ten
    /// characters of a fresh identifier written without hyphens.
    pub fn get_onchain_address(&self) -> (address: String)
        ensures
            exists|id: u128|
                address@ == "bc1qmockaddress"@ + #[trigger] uuid_simple_text(id).subrange(0, 10),
    {
        let id = fresh_uuid();
        let text = write_uuid_simple(id);
        joined("bc1qmockaddress", text.as_str().substring_char(0, 10))
    }

    /// The balance of the service's wallet.
    pub fn get_balance(&self) -> (balance: Sats)
        ensures
            balance.0 == 1_000_000,
    {
        Sats(1_000_000)
    }
}

} // verus!
