//! The requests and answers of the webhook endpoints.

use crate::domain::types::{reinterpreted, truncated_quotient, Kobo, Sats};
use crate::text::{owned, same_text};
use vstd::prelude::*;

verus! {

/// A payment notice of the Lightning service.
#[derive(Debug)]
pub struct BreezWebhookRequest {
    pub payment_hash: String,
    pub bolt11: Option<String>,
    pub amount_msat: u64,
    pub fee_msat: u64,
    /// `PAID`, `FAILED` and the like.
    pub status: String,
}

#[derive(Debug)]
pub struct BreezWebhookResponse {
    pub success: bool,
    pub message: String,
}

/// A notice of the payment gateway.
#[derive(Debug)]
pub struct PaystackWebhookRequest {
    /// `charge.success` and the like.
    pub event: String,
    pub data: PaystackTransactionData,
}

#[derive(Debug)]
pub struct PaystackTransactionData {
    pub id: u64,
    pub domain: String,
    pub status: String,
    pub reference: String,
    /// The amount in kobo.
    pub amount: u64,
    pub currency: String,
    pub customer: PaystackCustomer,
}

#[derive(Debug)]
pub struct PaystackCustomer {
    pub id: u64,
    pub email: String,
    pub phone: Option<String>,
}

#[derive(Debug)]
pub struct PaystackWebhookResponse {
    pub success: bool,
    pub message: String,
}

impl BreezWebhookRequest {
    /// The amount of the payment in whole satoshis.
    pub fn amount_sats(&self) -> (s: Sats)
        ensures
            s.0 == truncated_quotient(reinterpreted(self.amount_msat), 1000),
    {
        Sats::from_msat(self.amount_msat)
    }

    /// The fee of the payment in whole satoshis.
    pub fn fee_sats(&self) -> (s: Sats)
        ensures
            s.0 == truncated_quotient(reinterpreted(self.fee_msat), 1000),
    {
        Sats::from_msat(self.fee_msat)
    }
}

impl BreezWebhookResponse {
    /// The answer to a notice that was processed.
    pub fn processed() -> (r: BreezWebhookResponse)
        ensures
            r.success,
            r.message@ == "Breez webhook processed successfully"@,
    {
        BreezWebhookResponse {
            success: true,
            message: owned("Breez webhook processed successfully"),
        }
    }
}

impl PaystackWebhookRequest {
    /// Whether the notice is of a charge that went through: only such a
    /// notice starts a deposit.
    pub fn is_successful_charge(&self) -> (yes: bool)
        ensures
            yes == (self.event@ == "charge.success"@ && self.data.status@ == "success"@),
    {
        same_text(self.event.as_str(), "charge.success") && same_text(
            self.data.status.as_str(),
            "success",
        )
    }

    /// The amount of the charge.
    pub fn amount_kobo(&self) -> (k: Kobo)
        ensures
            k.0 == reinterpreted(self.data.amount),
    {
        Kobo::from_reported(self.data.amount)
    }
}

impl PaystackWebhookResponse {
    /// The answer to a notice, processed or not: the receipt is always
    /// acknowledged.
    pub fn acknowledge(processed: bool) -> (r: PaystackWebhookResponse)
        ensures
            r.success,
            r.message@ == if processed {
                "Paystack webhook processed successfully"@
            } else {
                "Webhook received, but not eligible for processing"@
            },
    {
        if processed {
            PaystackWebhookResponse {
                success: true,
                message: owned("Paystack webhook processed successfully"),
            }
        } else {
            PaystackWebhookResponse {
                success: true,
                message: owned("Webhook received, but not eligible for processing"),
            }
        }
    }
}

} // verus!
