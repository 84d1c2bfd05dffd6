use sabi_wallet::api::admin::{
    AdminLoginPayload, AdminLoginResponse, ManualReleasePayload, ManualReleaseResponse,
};
use sabi_wallet::api::recovery::{
    RecoveryRequestPayload, RecoveryRequestResponse, SubmitSharePayload, SubmitShareResponse,
};
use sabi_wallet::api::ussd::UssdRequest;
use sabi_wallet::api::validation::{has_length, ValidationFailure};
use sabi_wallet::api::wallet::{refuse_second_wallet, CreateWalletRequest};
use sabi_wallet::api::webhooks::{
    BreezWebhookRequest, BreezWebhookResponse, PaystackCustomer, PaystackTransactionData,
    PaystackWebhookRequest, PaystackWebhookResponse,
};
use sabi_wallet::domain::types::Sats;
use sabi_wallet::error::AppError;

fn failure(r: Result<(), ValidationFailure>) -> (String, String) {
    let f = r.unwrap_err();
    (f.field, f.message)
}

#[test]
fn login_rules() {
    let ok = AdminLoginPayload { username: "admin".into(), password: "12345678".into() };
    assert!(ok.validate().is_ok());
    let no_name = AdminLoginPayload { username: "".into(), password: "1234567".into() };
    assert_eq!(
        failure(no_name.validate()),
        ("username".to_string(), "Username cannot be empty".to_string())
    );
    let short = AdminLoginPayload { username: "a".into(), password: "1234567".into() };
    assert_eq!(
        failure(short.validate()),
        ("password".to_string(), "Password must be at least 8 characters long".to_string())
    );
    // characters are counted, not bytes
    let accented = AdminLoginPayload { username: "a".into(), password: "ééééééé".into() };
    assert!(accented.validate().is_err());
    let accented = AdminLoginPayload { username: "a".into(), password: "éééééééé".into() };
    assert!(accented.validate().is_ok());
}

#[test]
fn login_response() {
    let r = AdminLoginResponse::logged_in("token".into());
    assert!(r.success);
    assert_eq!(r.message, "Login successful");
    assert_eq!(r.token.as_deref(), Some("token"));
}

#[test]
fn release_rules_and_response() {
    let ok = ManualReleasePayload {
        transaction_id: "t".into(),
        amount_sats: Sats(5),
        recipient_nostr_pubkey: "npub".into(),
        notes: None,
    };
    assert!(ok.validate().is_ok());
    let no_id = ManualReleasePayload {
        transaction_id: "".into(),
        amount_sats: Sats(5),
        recipient_nostr_pubkey: "".into(),
        notes: None,
    };
    assert_eq!(
        failure(no_id.validate()),
        ("transaction_id".to_string(), "Transaction ID is required".to_string())
    );
    let no_recipient = ManualReleasePayload {
        transaction_id: "t".into(),
        amount_sats: Sats(5),
        recipient_nostr_pubkey: "".into(),
        notes: Some("n".into()),
    };
    assert_eq!(
        failure(no_recipient.validate()),
        (
            "recipient_nostr_pubkey".to_string(),
            "Recipient Nostr public key is required".to_string()
        )
    );
    let r = ManualReleaseResponse::released("abc".into());
    assert!(r.success);
    assert_eq!(r.message, "Funds manually released for transaction ID: abc");
    assert_eq!(r.transaction_id, "abc");
}

#[test]
fn recovery_request_rules() {
    let ok = RecoveryRequestPayload { wallet_id: "w".into(), helper_npubs: vec!["npub1".into()] };
    assert!(ok.validate().is_ok());
    let no_wallet = RecoveryRequestPayload { wallet_id: "".into(), helper_npubs: vec![] };
    assert_eq!(
        failure(no_wallet.validate()),
        ("wallet_id".to_string(), "Wallet ID is required".to_string())
    );
    let no_helpers = RecoveryRequestPayload { wallet_id: "w".into(), helper_npubs: vec![] };
    assert_eq!(
        failure(no_helpers.validate()),
        ("helper_npubs".to_string(), "Nostr npub of helper is required".to_string())
    );
    let r = RecoveryRequestResponse::initiated();
    assert!(r.success);
    assert_eq!(r.message, "Recovery request initiated successfully");
}

#[test]
fn submit_share_rules() {
    let make = |w: &str, s: &str, h: &str| SubmitSharePayload {
        wallet_id: w.into(),
        encrypted_share: s.into(),
        helper_pubkey: h.into(),
    };
    assert!(make("w", "s", "h").validate().is_ok());
    assert_eq!(failure(make("", "", "").validate()).0, "wallet_id");
    assert_eq!(
        failure(make("w", "", "").validate()),
        ("encrypted_share".to_string(), "Encrypted share is required".to_string())
    );
    assert_eq!(
        failure(make("w", "s", "").validate()),
        ("helper_pubkey".to_string(), "Nostr pubkey of helper is required".to_string())
    );
    let r = SubmitShareResponse::submitted();
    assert!(r.success);
    assert_eq!(r.message, "Recovery share submitted successfully");
}

#[test]
fn validation_failure_becomes_an_error() {
    let e = ValidationFailure::new("field", "is wrong").into_error();
    match &e {
        AppError::Validation(text) => assert_eq!(text, "field: is wrong"),
        other => panic!("{:?}", other),
    }
    assert_eq!(e.status_code(), 422);
    assert_eq!(e.public_message(), "Validation error: field: is wrong");
    assert!(has_length("abc", 3));
    assert!(!has_length("abc", 4));
    assert!(has_length("", 0));
}

#[test]
fn create_wallet_request_is_checked() {
    let id = "123e4567-e89b-12d3-a456-426614174000";
    let ok = CreateWalletRequest { user_id: id.into(), phone_number: "+2348012345678".into() };
    assert_eq!(ok.check().unwrap(), 0x123e4567_e89b_12d3_a456_426614174000);
    let bad_id = CreateWalletRequest { user_id: "nope".into(), phone_number: "+2348012345678".into() };
    match bad_id.check() {
        Err(AppError::BadRequest(m)) => assert_eq!(m, "Invalid user_id format"),
        other => panic!("{:?}", other),
    }
    for phone in ["2348012345678", "+23480123", ""] {
        let bad = CreateWalletRequest { user_id: id.into(), phone_number: phone.into() };
        match bad.check() {
            Err(AppError::BadRequest(m)) => {
                assert_eq!(m, "Phone number must start with + and be at least 10 digits")
            }
            other => panic!("{:?}", other),
        }
    }
    let edge = CreateWalletRequest { user_id: id.into(), phone_number: "+123456789".into() };
    assert!(edge.check().is_ok());
    assert!(refuse_second_wallet(false).is_ok());
    match refuse_second_wallet(true) {
        Err(AppError::Conflict(m)) => assert_eq!(m, "User already has a Lightning wallet"),
        other => panic!("{:?}", other),
    }
}

#[test]
fn breez_amounts_are_whole_sats() {
    let request = BreezWebhookRequest {
        payment_hash: "h".into(),
        bolt11: None,
        amount_msat: 1_234_999,
        fee_msat: 999,
        status: "PAID".into(),
    };
    assert_eq!(request.amount_sats(), Sats(1_234));
    assert_eq!(request.fee_sats(), Sats(0));
    let r = BreezWebhookResponse::processed();
    assert!(r.success);
    assert_eq!(r.message, "Breez webhook processed successfully");
}

fn paystack(event: &str, status: &str, amount: u64) -> PaystackWebhookRequest {
    PaystackWebhookRequest {
        event: event.into(),
        data: PaystackTransactionData {
            id: 1,
            domain: "live".into(),
            status: status.into(),
            reference: "ref".into(),
            amount,
            currency: "NGN".into(),
            customer: PaystackCustomer { id: 2, email: "a@b.c".into(), phone: None },
        },
    }
}

#[test]
fn only_a_successful_charge_is_a_deposit() {
    assert!(paystack("charge.success", "success", 1).is_successful_charge());
    assert!(!paystack("charge.success", "failed", 1).is_successful_charge());
    assert!(!paystack("transfer.success", "success", 1).is_successful_charge());
    assert!(!paystack("", "", 1).is_successful_charge());
    assert_eq!(paystack("charge.success", "success", 105_000).amount_kobo().0, 105_000);
    let done = PaystackWebhookResponse::acknowledge(true);
    assert!(done.success);
    assert_eq!(done.message, "Paystack webhook processed successfully");
    let ignored = PaystackWebhookResponse::acknowledge(false);
    assert!(ignored.success);
    assert_eq!(ignored.message, "Webhook received, but not eligible for processing");
}

#[test]
fn ussd_request_holds_its_fields() {
    let r = UssdRequest {
        session_id: "s".into(),
        service_code: "*123#".into(),
        phone_number: "+234".into(),
        text: "1".into(),
    };
    assert_eq!(r.service_code, "*123#");
}
