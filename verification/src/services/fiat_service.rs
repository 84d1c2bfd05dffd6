//! Deposits of fiat money and the payments that follow them.

use crate::domain::types::Sats;
use crate::error::AppError;
use crate::text::{joined, owned, same_text};
use crate::utils::phone_number::{canonical, NigerianPhoneNumber, PhoneNumberError};
use vstd::prelude::*;

verus! {

/// The key under which the rate of bitcoin in naira is cached.
pub const BTC_NAIRA_RATE_KEY: &'static str = "btc:naira_rate";

/// How long the cached rate is good for, in seconds.
pub const BTC_NAIRA_RATE_TTL_SECONDS: usize = 300;

/// What to do with a payment notice.
#[derive(Debug, Clone, Copy, PartialEq, Eq, Structural)]
pub enum BreezPaymentAction {
    /// No transaction carries the hash of the payment: nothing is changed.
    Unmatched,
    /// The transaction is completed already: nothing is changed.
    AlreadyCompleted,
    /// Complete the transaction and credit the wallet.
    Complete,
    /// Mark the transaction as failed.
    Fail,
}

/// What to do with a notice of the state `notice`, given the state of the
/// transaction that carries the hash of the payment, if there is one.
pub open spec fn breez_action(recorded: Option<Seq<char>>, notice: Seq<char>) -> BreezPaymentAction {
    match recorded {
        None => BreezPaymentAction::Unmatched,
        Some(status) => if status == "completed"@ {
            BreezPaymentAction::AlreadyCompleted
        } else if notice == "PAID"@ {
            BreezPaymentAction::Complete
        } else {
            BreezPaymentAction::Fail
        },
    }
}

/// Decides what a payment notice does.
pub fn process_breez_payment(recorded_status: Option<&str>, notice_status: &str) -> (action:
    BreezPaymentAction)
    ensures
        action == breez_action(
            match recorded_status {
                Some(s) => Some(s@),
                None => None,
            },
            notice_status@,
        ),
{
    match recorded_status {
        None => BreezPaymentAction::Unmatched,
        Some(status) => if same_text(status, "completed") {
            BreezPaymentAction::AlreadyCompleted
        } else if same_text(notice_status, "PAID") {
            BreezPaymentAction::Complete
        } else {
            BreezPaymentAction::Fail
        },
    }
}

/// What a completed payment adds to the balance of the wallet: the amount
/// less the fee. `None` where that does not fit the balance type.
pub fn balance_change(amount: Sats, fee: Sats) -> (change: Option<Sats>)
    ensures
        match change {
            Some(c) => c.0 == amount.0 - fee.0,
            None => amount.0 - fee.0 < i64::MIN || amount.0 - fee.0 > i64::MAX,
        },
{
    match amount.0.checked_sub(fee.0) {
        Some(c) => Some(Sats(c)),
        None => None,
    }
}

/// The phone number of the customer of a deposit, in canonical form.
///
/// Fails with `BadRequest` when the notice carries no phone number, or the
/// number is no Nigerian phone number.
pub fn process_paystack_deposit(phone_number: Option<&str>) -> (r: Result<
    NigerianPhoneNumber,
    AppError,
>)
    ensures
        match r {
            Ok(number) => phone_number matches Some(raw) && canonical(raw@) == Ok::<
                Seq<char>,
                PhoneNumberError,
            >(number.0@),
            Err(e) => e is BadRequest && (match phone_number {
                Some(raw) => canonical(raw@) is Err,
                None => true,
            }),
        },
{
    match phone_number {
        None => Err(AppError::BadRequest(owned("Phone number missing from Paystack webhook"))),
        Some(raw) => match NigerianPhoneNumber::new(raw) {
            Ok(number) => Ok(number),
            Err(e) => {
                let why = e.message();
                Err(AppError::BadRequest(joined("Invalid phone number from Paystack: ", why.as_str())))
            },
        },
    }
}

} // verus!
