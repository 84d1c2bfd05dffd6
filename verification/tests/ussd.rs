use sabi_wallet::error::AppError;
use sabi_wallet::services::ussd_service::{
    handle_check_balance_state, handle_confirm_send_bitcoin_state, handle_main_menu_state,
    handle_receive_bitcoin_state, handle_send_bitcoin_state, handle_start_state,
    handle_ussd_request, lookup_reply, send_reply, ussd_check_balance, ussd_receive_bitcoin,
    ussd_send_bitcoin, UssdLookup, UssdState, UssdStep, USSD_SESSION_TTL_SECONDS,
};

const STATES: [UssdState; 6] = [
    UssdState::Start,
    UssdState::MainMenu,
    UssdState::CheckBalance,
    UssdState::SendBitcoin,
    UssdState::ReceiveBitcoin,
    UssdState::ConfirmSendBitcoin,
];

#[test]
fn state_names() {
    let names = [
        "START",
        "MAIN_MENU",
        "CHECK_BALANCE",
        "SEND_BITCOIN",
        "RECEIVE_BITCOIN",
        "CONFIRM_SEND_BITCOIN",
    ];
    for (state, name) in STATES.iter().zip(names) {
        assert_eq!(state.as_str(), name);
        assert_eq!(UssdState::from_str(name), Some(*state));
    }
    assert_eq!(UssdState::from_str("start"), None);
    assert_eq!(UssdState::from_str(""), None);
    assert_eq!(USSD_SESSION_TTL_SECONDS, 180);
}

#[test]
fn resume_falls_back_to_start() {
    assert_eq!(UssdState::resume(None), UssdState::Start);
    assert_eq!(UssdState::resume(Some("garbage")), UssdState::Start);
    assert_eq!(UssdState::resume(Some("SEND_BITCOIN")), UssdState::SendBitcoin);
}

#[test]
fn start_always_leads_to_the_main_menu() {
    match handle_start_state("") {
        UssdStep::Reply { text, next } => {
            assert_eq!(text, "CON Welcome to Sabi Wallet. Choose an option:\n1. Main Menu");
            assert_eq!(next, Some(UssdState::MainMenu));
        }
        other => panic!("{:?}", other),
    }
    match handle_start_state("1") {
        UssdStep::Reply { text, next } => {
            assert_eq!(
                text,
                "CON Welcome to Sabi Wallet. Choose an option:\n1. Check Balance\n2. Send Bitcoin\n3. Receive Bitcoin"
            );
            assert_eq!(next, Some(UssdState::MainMenu));
        }
        other => panic!("{:?}", other),
    }
    match handle_start_state("7") {
        UssdStep::Reply { text, next } => {
            assert_eq!(text, "END Invalid input. Please try again.");
            assert_eq!(next, Some(UssdState::MainMenu));
        }
        other => panic!("{:?}", other),
    }
}

#[test]
fn main_menu_options() {
    match handle_main_menu_state("1") {
        UssdStep::Lookup { what, prefix, next } => {
            assert_eq!(what, UssdLookup::Balance);
            assert_eq!(prefix, "END ");
            assert_eq!(next, Some(UssdState::CheckBalance));
        }
        other => panic!("{:?}", other),
    }
    match handle_main_menu_state("2") {
        UssdStep::Reply { text, next } => {
            assert_eq!(text, "CON Enter amount in Sats and recipient's address (e.g., 1000 bc1...)");
            assert_eq!(next, Some(UssdState::SendBitcoin));
        }
        other => panic!("{:?}", other),
    }
    match handle_main_menu_state("3") {
        UssdStep::Lookup { what, prefix, next } => {
            assert_eq!(what, UssdLookup::ReceiveAddress);
            assert_eq!(prefix, "END ");
            assert_eq!(next, Some(UssdState::ReceiveBitcoin));
        }
        other => panic!("{:?}", other),
    }
    match handle_main_menu_state("9") {
        UssdStep::Reply { text, next } => {
            assert_eq!(
                text,
                "CON Invalid option. Choose:\n1. Check Balance\n2. Send Bitcoin\n3. Receive Bitcoin"
            );
            assert_eq!(next, Some(UssdState::MainMenu));
        }
        other => panic!("{:?}", other),
    }
}

#[test]
fn send_bitcoin_reads_amount_and_address() {
    match handle_send_bitcoin_state("1000 bc1qxyz") {
        UssdStep::Prepare { amount, address, text } => {
            assert_eq!(amount, 1000);
            assert_eq!(address, "bc1qxyz");
            assert_eq!(
                text,
                "CON Confirm send 1000 Sats to bc1qxyz. Reply '1' to confirm, '0' to cancel."
            );
        }
        other => panic!("{:?}", other),
    }
    // only the first space splits
    match handle_send_bitcoin_state("-5 an address with spaces") {
        UssdStep::Prepare { amount, address, .. } => {
            assert_eq!(amount, -5);
            assert_eq!(address, "an address with spaces");
        }
        other => panic!("{:?}", other),
    }
    match handle_send_bitcoin_state("1000") {
        UssdStep::Reply { text, next } => {
            assert_eq!(text, "CON Invalid format. Enter amount and address (e.g., 1000 bc1...)");
            assert_eq!(next, Some(UssdState::SendBitcoin));
        }
        other => panic!("{:?}", other),
    }
    match handle_send_bitcoin_state("lots bc1qxyz") {
        UssdStep::Reject(AppError::BadRequest(message)) => {
            assert_eq!(message, "Invalid amount. Must be a number.")
        }
        other => panic!("{:?}", other),
    }
    match handle_send_bitcoin_state(" bc1qxyz") {
        UssdStep::Reject(AppError::BadRequest(_)) => {}
        other => panic!("{:?}", other),
    }
}

#[test]
fn confirmation() {
    assert!(matches!(handle_confirm_send_bitcoin_state("1"), UssdStep::Send));
    match handle_confirm_send_bitcoin_state("0") {
        UssdStep::Cancel { text } => assert_eq!(text, "END Bitcoin send cancelled."),
        other => panic!("{:?}", other),
    }
    match handle_confirm_send_bitcoin_state("maybe") {
        UssdStep::Reply { text, next } => {
            assert_eq!(text, "CON Invalid input. Reply '1' to confirm, '0' to cancel.");
            assert_eq!(next, None);
        }
        other => panic!("{:?}", other),
    }
}

#[test]
fn lookups_of_the_states() {
    match handle_check_balance_state() {
        UssdStep::Lookup { what, prefix, next } => {
            assert_eq!(what, UssdLookup::Balance);
            assert_eq!(prefix, "END Your balance is: ");
            assert_eq!(next, None);
        }
        other => panic!("{:?}", other),
    }
    match handle_receive_bitcoin_state() {
        UssdStep::Lookup { what, prefix, next } => {
            assert_eq!(what, UssdLookup::ReceiveAddress);
            assert_eq!(prefix, "END Your Bitcoin address is: ");
            assert_eq!(next, None);
        }
        other => panic!("{:?}", other),
    }
}

#[test]
fn request_is_handled_by_the_state() {
    assert!(matches!(
        handle_ussd_request(UssdState::Start, ""),
        UssdStep::Reply { next: Some(UssdState::MainMenu), .. }
    ));
    assert!(matches!(
        handle_ussd_request(UssdState::MainMenu, "2"),
        UssdStep::Reply { next: Some(UssdState::SendBitcoin), .. }
    ));
    assert!(matches!(
        handle_ussd_request(UssdState::CheckBalance, "anything"),
        UssdStep::Lookup { what: UssdLookup::Balance, next: None, .. }
    ));
    assert!(matches!(
        handle_ussd_request(UssdState::SendBitcoin, "21 addr"),
        UssdStep::Prepare { amount: 21, .. }
    ));
    assert!(matches!(
        handle_ussd_request(UssdState::ReceiveBitcoin, ""),
        UssdStep::Lookup { what: UssdLookup::ReceiveAddress, next: None, .. }
    ));
    assert!(matches!(handle_ussd_request(UssdState::ConfirmSendBitcoin, "1"), UssdStep::Send));
}

#[test]
fn replies() {
    assert_eq!(lookup_reply("END Your balance is: ", "12 Sats"), "END Your balance is: 12 Sats");
    assert_eq!(send_reply(None), "END Bitcoin sent successfully!");
    assert_eq!(send_reply(Some("no route")), "END Failed to send Bitcoin: no route");
    assert_eq!(ussd_check_balance(2500), "2500 Sats");
    assert_eq!(ussd_check_balance(-1), "-1 Sats");
    assert_eq!(
        ussd_receive_bitcoin(0x0123_4567_89ab_cdef_0123_4567_89ab_cdef),
        "bc1qdummyaddressforwallet01234567"
    );
}

#[test]
fn debit_goes_through_when_one_row_changed() {
    assert!(ussd_send_bitcoin(1).is_ok());
    for rows in [0u64, 2, 100] {
        match ussd_send_bitcoin(rows) {
            Err(AppError::BadRequest(m)) => assert_eq!(m, "Insufficient balance or wallet not found"),
            other => panic!("{:?}", other),
        }
    }
}
