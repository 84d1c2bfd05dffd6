use sabi_wallet::bitcoin::breez::BreezService;
use sabi_wallet::cli::{Cli, Commands};
use sabi_wallet::config::{parse_relays, Config, ConfigError, Environment, SentryPlan};
use sabi_wallet::domain::models::{AdminUser, Transaction};
use sabi_wallet::domain::types::{divide_truncating, reinterpret, Kobo, Sats};
use sabi_wallet::error::AppError;
use sabi_wallet::identifiers::{identifier_text, new_identifier, parse_identifier, parse_user_id};
use sabi_wallet::nostr::client::{decrypt_dm, get_first_relay_url, NostrWalletConnectInfo};
use sabi_wallet::recovery::channel::{ConfidentialChannel, Identity};
use sabi_wallet::request_id::make_uuid_request_id;
use sabi_wallet::services::admin_service::{
    authenticate_admin_user, check_releasable, hash_password, judge_hash, judge_password,
    manual_release_funds, needs_default_admin, verdict_error, verify_password, Claims,
    LoginVerdict, JWT_EXPIRATION_SECONDS,
};
use sabi_wallet::services::fiat_service::{
    balance_change, process_breez_payment, process_paystack_deposit, BreezPaymentAction,
    BTC_NAIRA_RATE_KEY, BTC_NAIRA_RATE_TTL_SECONDS,
};
use sabi_wallet::services::wallet_service::{InsertFailure, WalletService};
use sabi_wallet::text::{joined, owned, same_text};

#[test]
fn amounts() {
    assert_eq!(Kobo::zero(), Kobo(0));
    assert_eq!(Sats::zero(), Sats(0));
    assert_eq!(Kobo(1050).to_text(), "1050 Kobo");
    assert_eq!(Sats(-3).to_text(), "-3 Sats");
    assert_eq!(Sats::from_msat(0), Sats(0));
    assert_eq!(Sats::from_msat(999), Sats(0));
    assert_eq!(Sats::from_msat(1_000), Sats(1));
    assert_eq!(Sats::from_msat(12_345_678), Sats(12_345));
    assert_eq!(Sats::from_msat(u64::MAX), Sats(0));
    assert_eq!(Sats::from_msat(u64::MAX - 999), Sats(-1));
    assert_eq!(Sats::from_msat(1 << 63), Sats(i64::MIN / 1000));
    assert_eq!(Kobo::from_reported(105_000), Kobo(105_000));
    assert_eq!(Kobo::from_reported(u64::MAX), Kobo(-1));
    assert_eq!(Kobo::from_reported(1 << 63), Kobo(i64::MIN));
}

#[test]
fn reinterpret_and_divide_agree_with_the_machine() {
    for v in [0u64, 1, 1000, i64::MAX as u64, (i64::MAX as u64) + 1, u64::MAX - 1, u64::MAX] {
        assert_eq!(reinterpret(v), v as i64);
    }
    for v in [0i64, 1, -1, 999, -999, 1000, -1000, 1001, -1001, i64::MAX, i64::MIN, i64::MIN + 1] {
        for d in [1i64, 3, 100, 1000, i64::MAX] {
            assert_eq!(divide_truncating(v, d), v.wrapping_div(d), "{} / {}", v, d);
        }
    }
}

#[test]
fn errors_show_as_http() {
    let cases: Vec<(AppError, u16, &str, bool)> = vec![
        (AppError::Sqlx("x".into()), 500, "Database error", true),
        (AppError::Migration("x".into()), 500, "Database migration error", true),
        (AppError::Redis("x".into()), 500, "Redis error", true),
        (AppError::Reqwest("x".into()), 500, "External service error", true),
        (AppError::SerdeJson("x".into()), 400, "Invalid JSON payload", true),
        (AppError::Validation("x".into()), 422, "Validation error: x", false),
        (AppError::NostrClient("x".into()), 500, "Nostr related error", true),
        (AppError::Auth("a".into()), 401, "a", false),
        (AppError::Unauthorized("u".into()), 401, "u", false),
        (AppError::Forbidden("f".into()), 403, "f", false),
        (AppError::NotFound("n".into()), 404, "n", false),
        (AppError::BadRequest("b".into()), 400, "b", false),
        (AppError::Conflict("c".into()), 409, "c", false),
        (AppError::Internal("i".into()), 500, "i", true),
        (AppError::Anyhow("x".into()), 500, "An unexpected error occurred", true),
        (AppError::SabiWallet("s".into()), 400, "s", false),
    ];
    for (error, status, message, logged) in cases {
        assert_eq!(error.status_code(), status, "{:?}", error);
        assert_eq!(error.public_message(), message, "{:?}", error);
        assert_eq!(error.should_log(), logged, "{:?}", error);
    }
}

#[test]
fn text_helpers() {
    assert!(same_text("abc", "abc"));
    assert!(!same_text("abc", "abd"));
    assert!(!same_text("abc", "ab"));
    assert!(same_text("", ""));
    assert_eq!(owned("x"), "x");
    assert_eq!(joined("a", "b"), "ab");
}

#[test]
fn identifiers_are_read_and_written() {
    let text = "123e4567-e89b-12d3-a456-426614174000";
    let id = parse_identifier(text).unwrap();
    assert_eq!(id, 0x123e4567_e89b_12d3_a456_426614174000);
    assert_eq!(identifier_text(id), text);
    assert_eq!(parse_identifier("123e4567e89b12d3a456426614174000"), Some(id));
    assert_eq!(parse_identifier("not an id"), None);
    assert_eq!(parse_user_id(text).unwrap(), id);
    match parse_user_id("x") {
        Err(AppError::BadRequest(m)) => assert_eq!(m, "Invalid user_id format"),
        other => panic!("{:?}", other),
    }
    assert_ne!(new_identifier(), new_identifier());
    let mut maker = make_uuid_request_id();
    let a = maker.next_request_id();
    let b = maker.next_request_id();
    assert_eq!(a.len(), 36);
    assert_ne!(a, b);
    assert!(parse_identifier(&a).is_some());
}

#[test]
fn commands_are_named() {
    assert_eq!(Commands::from_word("migrate"), Some(Commands::Migrate));
    assert_eq!(Commands::from_word("init-admin"), Some(Commands::InitAdmin));
    assert_eq!(Commands::from_word("generate-nostr-keys"), Some(Commands::GenerateNostrKeys));
    assert_eq!(Commands::from_word("serve"), Some(Commands::Serve));
    assert_eq!(Commands::from_word("Serve"), None);
    assert_eq!(Cli::from_args(None), Some(Cli { command: Commands::Serve }));
    assert_eq!(Cli::from_args(Some("migrate")), Some(Cli { command: Commands::Migrate }));
    assert_eq!(Cli::from_args(Some("fly")), None);
    assert!(Commands::Serve.is_serve());
    assert!(!Commands::Migrate.is_serve());
}

#[test]
fn passwords() {
    let hash = hash_password("correct horse").unwrap();
    assert!(hash.starts_with("$argon2"));
    assert_ne!(hash, hash_password("correct horse").unwrap());
    assert_eq!(verify_password("correct horse", &hash).unwrap(), true);
    assert_eq!(verify_password("wrong horse", &hash).unwrap(), false);
    assert!(matches!(verify_password("x", "not a hash"), Err(AppError::Internal(_))));
    assert_eq!(judge_password(Some(true)).unwrap(), true);
    assert_eq!(judge_password(Some(false)).unwrap(), false);
    assert!(matches!(judge_password(None), Err(AppError::Internal(_))));
}

fn admin(active: bool, hash: String) -> AdminUser {
    AdminUser {
        id: 42,
        username: "admin".into(),
        password_hash: hash,
        is_active: active,
        created_at: 0,
        updated_at: 0,
    }
}

#[test]
fn login_verdicts() {
    let hash = hash_password("secret123").unwrap();
    assert!(matches!(authenticate_admin_user(None, "secret123"), LoginVerdict::BadCredentials));
    let user = admin(true, hash.clone());
    assert!(matches!(authenticate_admin_user(Some(&user), "secret123"), LoginVerdict::Granted(42)));
    assert!(matches!(authenticate_admin_user(Some(&user), "other"), LoginVerdict::BadCredentials));
    let off = admin(false, hash);
    assert!(matches!(authenticate_admin_user(Some(&off), "secret123"), LoginVerdict::Inactive));
    assert!(matches!(authenticate_admin_user(Some(&off), "other"), LoginVerdict::BadCredentials));
    let broken = admin(true, "garbage".into());
    assert!(matches!(authenticate_admin_user(Some(&broken), "x"), LoginVerdict::BrokenHash));

    assert!(verdict_error(&LoginVerdict::Granted(1)).is_none());
    match verdict_error(&LoginVerdict::BadCredentials) {
        Some(AppError::Unauthorized(m)) => assert_eq!(m, "Invalid username or password"),
        other => panic!("{:?}", other),
    }
    match verdict_error(&LoginVerdict::Inactive) {
        Some(AppError::Forbidden(m)) => assert_eq!(m, "Admin account is inactive"),
        other => panic!("{:?}", other),
    }
    assert!(matches!(verdict_error(&LoginVerdict::BrokenHash), Some(AppError::Internal(_))));

    assert!(needs_default_admin(false, "admin"));
    assert!(!needs_default_admin(true, "admin"));
    assert!(!needs_default_admin(false, "root"));
}

#[test]
fn claims_expire_after_an_hour() {
    assert_eq!(JWT_EXPIRATION_SECONDS, 3600);
    let claims = Claims::issue(0x123e4567_e89b_12d3_a456_426614174000, 1_700_000_000);
    assert_eq!(claims.sub, "123e4567-e89b-12d3-a456-426614174000");
    assert_eq!(claims.iat, 1_700_000_000);
    assert_eq!(claims.exp, 1_700_003_600);
}

fn transaction(status: &str) -> Transaction {
    Transaction {
        id: 0x123e4567_e89b_12d3_a456_426614174000,
        wallet_id: 7,
        tx_type: "fiat_deposit".into(),
        amount_sats: Sats(10),
        fee_sats: Sats(1),
        status: status.into(),
        description: Some("old".into()),
        external_id: None,
        created_at: 1,
        updated_at: 2,
    }
}

#[test]
fn manual_release() {
    assert!(check_releasable(&transaction("pending")).is_ok());
    assert!(check_releasable(&transaction("admin_hold")).is_ok());
    match check_releasable(&transaction("completed")) {
        Err(AppError::BadRequest(m)) => assert_eq!(
            m,
            "Transaction 123e4567-e89b-12d3-a456-426614174000 is not in a state for manual release (status: completed)"
        ),
        other => panic!("{:?}", other),
    }
    let mut tx = transaction("pending");
    assert!(manual_release_funds(&mut tx, "hash".into(), None).is_ok());
    assert_eq!(tx.status, "completed");
    assert_eq!(tx.external_id.as_deref(), Some("hash"));
    assert_eq!(tx.description, None);
    assert_eq!(tx.amount_sats, Sats(10));
    let mut tx = transaction("admin_hold");
    assert!(manual_release_funds(&mut tx, "h2".into(), Some("checked by hand".into())).is_ok());
    assert_eq!(tx.description.as_deref(), Some("checked by hand"));
}

#[test]
fn manual_release_of_a_settled_transaction_is_refused() {
    for status in ["completed", "failed", "", "Pending"] {
        let mut tx = transaction(status);
        match manual_release_funds(&mut tx, "hash".into(), Some("notes".into())) {
            Err(AppError::BadRequest(m)) => assert_eq!(
                m,
                format!(
                    "Transaction 123e4567-e89b-12d3-a456-426614174000 is not in a state for manual release (status: {})",
                    status
                )
            ),
            other => panic!("{:?}", other),
        }
        assert_eq!(tx.status, status);
        assert_eq!(tx.external_id, None);
        assert_eq!(tx.description.as_deref(), Some("old"));
    }
}

#[test]
fn payment_notices() {
    assert_eq!(process_breez_payment(None, "PAID"), BreezPaymentAction::Unmatched);
    assert_eq!(process_breez_payment(Some("completed"), "PAID"), BreezPaymentAction::AlreadyCompleted);
    assert_eq!(process_breez_payment(Some("completed"), "FAILED"), BreezPaymentAction::AlreadyCompleted);
    assert_eq!(process_breez_payment(Some("pending"), "PAID"), BreezPaymentAction::Complete);
    assert_eq!(process_breez_payment(Some("pending"), "FAILED"), BreezPaymentAction::Fail);
    assert_eq!(process_breez_payment(Some("pending"), "paid"), BreezPaymentAction::Fail);
    assert_eq!(balance_change(Sats(1000), Sats(10)), Some(Sats(990)));
    assert_eq!(balance_change(Sats(i64::MIN), Sats(1)), None);
    assert_eq!(balance_change(Sats(i64::MAX), Sats(-1)), None);
    assert_eq!(BTC_NAIRA_RATE_KEY, "btc:naira_rate");
    assert_eq!(BTC_NAIRA_RATE_TTL_SECONDS, 300);
}

#[test]
fn deposit_needs_a_nigerian_phone_number() {
    assert_eq!(process_paystack_deposit(Some("08012345678")).unwrap().as_str(), "+2348012345678");
    match process_paystack_deposit(None) {
        Err(AppError::BadRequest(m)) => assert_eq!(m, "Phone number missing from Paystack webhook"),
        other => panic!("{:?}", other),
    }
    match process_paystack_deposit(Some("+12025550100")) {
        Err(AppError::BadRequest(m)) => assert_eq!(
            m,
            "Invalid phone number from Paystack: Phone number is not a Nigerian number."
        ),
        other => panic!("{:?}", other),
    }
}

#[test]
fn mock_lightning_service() {
    let service = BreezService::new("key", "words");
    let info = service.send_payment(Sats(12_345), "bc1qabc");
    assert_eq!(info.amount_sats, Sats(12_345));
    assert_eq!(info.fee_sats, Sats(123));
    assert_eq!(info.status, "complete");
    assert_eq!(info.description.as_deref(), Some("Payment to bc1qabc"));
    assert!(info.payment_hash.starts_with("mock_payment_hash_"));
    assert_eq!(info.payment_hash.len(), "mock_payment_hash_".len() + 36);
    assert_eq!(service.send_payment(Sats(-250), "x").fee_sats, Sats(-2));
    assert_eq!(service.receive_payment(Sats(500), "coffee"), "lnbcrt500mockinvoice");
    assert_eq!(service.get_balance(), Sats(1_000_000));
}

#[test]
fn wallet_names_and_failures() {
    let names = WalletService::wallet_names(
        0x0123_4567_89ab_cdef_0123_4567_89ab_cdef,
        0xfedc_ba98_7654_3210_fedc_ba98_7654_3210,
        1,
    );
    assert_eq!(names.breez_wallet_id, "breez_0123456789abcdef0123456789abcdef");
    assert_eq!(names.lightning_node_id, "node_fedcba9876543210fedcba9876543210");
    assert_eq!(names.node_address, "lnd_node_fedcba9876@127.0.0.1:9735");
    assert_eq!(names.nostr_npub, "npub100000000000000000000000000000001");
    let details = WalletService::connection_details(
        1,
        2,
        names.lightning_node_id.clone(),
        names.node_address.clone(),
        false,
        "2024-01-01T00:00:00+00:00".into(),
    );
    assert_eq!(details.wallet_id, "00000000-0000-0000-0000-000000000001");
    assert_eq!(details.user_id, "00000000-0000-0000-0000-000000000002");
    assert!(!details.synced);
    match WalletService::insert_failure(InsertFailure::RowNotFound) {
        AppError::NotFound(m) => assert_eq!(m, "User not found"),
        other => panic!("{:?}", other),
    }
    match WalletService::insert_failure(InsertFailure::DuplicateKey) {
        AppError::Conflict(m) => assert_eq!(m, "Wallet already exists for this user"),
        other => panic!("{:?}", other),
    }
    match WalletService::insert_failure(InsertFailure::Other("boom".into())) {
        AppError::Sqlx(m) => assert_eq!(m, "boom"),
        other => panic!("{:?}", other),
    }
}

fn full_environment() -> Environment {
    Environment {
        app_env: None,
        server_host: None,
        server_port: None,
        app_secret_key: Some("k".into()),
        database_url: Some("postgres://".into()),
        redis_url: Some("redis://".into()),
        sentry_dsn: None,
        sabi_nostr_nsec: Some("nsec".into()),
        nostr_relays: None,
        breez_api_key: Some("b".into()),
        breez_mnemonic: Some("m".into()),
        paystack_secret_key: Some("p".into()),
        at_api_key: Some("a".into()),
        at_username: Some("u".into()),
        default_admin_password: Some("d".into()),
        smtp_username: None,
        smtp_password: None,
        smtp_host: None,
        smtp_port: None,
        alert_email_from: None,
        admin_email_recipient: None,
    }
}

#[test]
fn configuration_defaults() {
    let config = Config::load(full_environment()).unwrap();
    assert_eq!(config.app_env, "dev");
    assert_eq!(config.server_host, "0.0.0.0");
    assert_eq!(config.server_port, 8080);
    assert_eq!(config.sentry_dsn, "");
    assert!(config.nostr_relays.is_empty());
    assert_eq!(config.smtp_port, None);
    assert_eq!(config.alert_email_from, "Sabi Wallet Alerts <noreply@sabi.money>");
    assert_eq!(config.admin_email_recipient, "admin@sabi.money");
    assert_eq!(config.app_secret_key, "k");
    assert_eq!(config.sentry_plan(), None);
}

#[test]
fn configuration_values() {
    let mut env = full_environment();
    env.app_env = Some("prod".into());
    env.server_port = Some("9000".into());
    env.sentry_dsn = Some("https://dsn".into());
    env.nostr_relays = Some("wss://a,,wss://b,".into());
    env.smtp_port = Some("587".into());
    env.smtp_host = Some("mail".into());
    let config = Config::load(env).unwrap();
    assert_eq!(config.server_port, 9000);
    assert_eq!(config.nostr_relays, vec!["wss://a".to_string(), "wss://b".to_string()]);
    assert_eq!(config.smtp_port, Some(587));
    assert_eq!(config.smtp_host.as_deref(), Some("mail"));
    assert_eq!(config.sentry_plan(), Some(SentryPlan { debug: false }));
    let mut env = full_environment();
    env.sentry_dsn = Some("x".into());
    assert_eq!(Config::load(env).unwrap().sentry_plan(), Some(SentryPlan { debug: true }));
}

#[test]
fn configuration_failures_come_in_order() {
    let mut env = full_environment();
    env.server_port = Some("70000".into());
    env.app_secret_key = None;
    assert_eq!(Config::load(env).err(), Some(ConfigError::BadServerPort));
    let mut env = full_environment();
    env.server_port = Some("".into());
    assert_eq!(Config::load(env).err(), Some(ConfigError::BadServerPort));
    let mut env = full_environment();
    env.server_port = Some("65535".into());
    assert_eq!(Config::load(env).unwrap().server_port, 65535);
    let mut env = full_environment();
    env.app_secret_key = None;
    env.database_url = None;
    assert_eq!(Config::load(env).err(), Some(ConfigError::AppSecretKeyMissing));
    let mut env = full_environment();
    env.database_url = None;
    assert_eq!(Config::load(env).err(), Some(ConfigError::DatabaseUrlMissing));
    let mut env = full_environment();
    env.redis_url = None;
    assert_eq!(Config::load(env).err(), Some(ConfigError::RedisUrlMissing));
    let mut env = full_environment();
    env.sabi_nostr_nsec = None;
    assert_eq!(Config::load(env).err(), Some(ConfigError::NostrNsecMissing));
    let mut env = full_environment();
    env.breez_api_key = None;
    assert_eq!(Config::load(env).err(), Some(ConfigError::BreezApiKeyMissing));
    let mut env = full_environment();
    env.breez_mnemonic = None;
    assert_eq!(Config::load(env).err(), Some(ConfigError::BreezMnemonicMissing));
    let mut env = full_environment();
    env.paystack_secret_key = None;
    assert_eq!(Config::load(env).err(), Some(ConfigError::PaystackSecretKeyMissing));
    let mut env = full_environment();
    env.at_api_key = None;
    assert_eq!(Config::load(env).err(), Some(ConfigError::AtApiKeyMissing));
    let mut env = full_environment();
    env.at_username = None;
    assert_eq!(Config::load(env).err(), Some(ConfigError::AtUsernameMissing));
    let mut env = full_environment();
    env.default_admin_password = None;
    env.smtp_port = Some("x".into());
    assert_eq!(Config::load(env).err(), Some(ConfigError::DefaultAdminPasswordMissing));
    let mut env = full_environment();
    env.smtp_port = Some("x".into());
    assert_eq!(Config::load(env).err(), Some(ConfigError::BadSmtpPort));
    assert_eq!(ConfigError::BadSmtpPort.message(), "SMTP_PORT must be a valid u16 if set");
    assert_eq!(ConfigError::AppSecretKeyMissing.message(), "APP_SECRET_KEY must be set");
}

#[test]
fn relay_lists() {
    assert!(parse_relays("").is_empty());
    assert!(parse_relays(",,,").is_empty());
    assert_eq!(parse_relays("a"), vec!["a".to_string()]);
    assert_eq!(parse_relays(",a,b,,c"), vec!["a".to_string(), "b".to_string(), "c".to_string()]);
    assert_eq!(parse_relays("a, b"), vec!["a".to_string(), " b".to_string()]);
}

#[test]
fn first_relay() {
    assert_eq!(get_first_relay_url(&vec!["wss://one".to_string(), "wss://two".to_string()]), "wss://one");
    assert_eq!(get_first_relay_url(&Vec::new()), "");
    let info = NostrWalletConnectInfo {
        uri: "nostr+walletconnect://".into(),
        secret: "s".into(),
        relay_url: "wss://one".into(),
    };
    assert_eq!(info.relay_url, "wss://one");
}

#[test]
fn direct_messages_open_for_the_receiver() {
    let sender = Identity::parse("6b911fd37cdf5c81d4c0adb1ab7fa822ed253ab0ad9aa18d77257c88b29b718e")
        .unwrap();
    let receiver =
        Identity::parse("7b911fd37cdf5c81d4c0adb1ab7fa822ed253ab0ad9aa18d77257c88b29b718e")
            .unwrap();
    // a message sealed by another implementation of NIP-04
    let outside = "dJc+WbBgaFCD2/kfg1XCWJParplBDxnZIdJGZ6FCTOg=?iv=M6VxRPkMZu7aIdD+10xPuw==";
    assert_eq!(
        decrypt_dm(sender.public_key(), &receiver, outside).unwrap(),
        "Saturn, bringer of old age"
    );
    assert_eq!(
        receiver.open_text(sender.public_key(), outside).as_deref(),
        Some("Saturn, bringer of old age")
    );
    assert!(matches!(
        decrypt_dm(sender.public_key(), &sender, outside),
        Err(AppError::Internal(_))
    ));
    // it is no frame, so the channel refuses it
    let envelope = sabi_wallet::recovery::channel::Envelope::new(outside.to_string());
    assert!(ConfidentialChannel::decrypt_from(&envelope, &receiver, sender.public_key()).is_err());
}

#[test]
fn mock_onchain_address() {
    let service = BreezService::new("key", "words");
    let address = service.get_onchain_address();
    assert!(address.starts_with("bc1qmockaddress"));
    assert_eq!(address.len(), "bc1qmockaddress".len() + 10);
    assert!(address["bc1qmockaddress".len()..].chars().all(|c| c.is_ascii_hexdigit()));
}

#[test]
fn amounts_are_ordered_by_their_number() {
    assert!(Sats(1) < Sats(2));
    assert!(Kobo(-1) < Kobo::zero());
    assert_eq!(Sats(5).max(Sats(3)), Sats(5));
}

#[test]
fn fresh_identifiers_are_of_version_four() {
    for _ in 0..50 {
        let id = new_identifier();
        assert_eq!((id >> 76) & 0xf, 4);
        assert_eq!((id >> 62) & 0x3, 2);
        let text = identifier_text(id);
        assert_eq!(text.as_bytes()[14], b'4');
        assert!(matches!(text.as_bytes()[19], b'8' | b'9' | b'a' | b'b'));
    }
}

#[test]
fn what_the_hasher_gave_becomes_the_hash() {
    assert_eq!(judge_hash(Some("$argon2id$x".to_string())).unwrap(), "$argon2id$x");
    assert!(matches!(judge_hash(None), Err(AppError::Internal(_))));
    for password in ["", "hunter42", "pässwörd"] {
        let hash = hash_password(password).unwrap();
        assert_eq!(verify_password(password, &hash).unwrap(), true);
    }
}
