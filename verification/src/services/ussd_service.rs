//! The USSD menu: what each input does in each state. The caller keeps the
//! session, looks up balances and addresses, and sends the payments; what
//! to do and what to answer is decided here.

use crate::error::AppError;
use crate::text::{
    decimal,
    decimal_text,
    joined,
    owned,
    parse_i64,
    parsed_i64,
    same_text,
    split_at_first,
};
use crate::identifiers::{uuid_text, write_uuid};
use vstd::prelude::*;
use vstd::string::StrSliceExecFns;

verus! {

/// How long a USSD session is kept, in seconds.
pub const USSD_SESSION_TTL_SECONDS: usize = 180;

/// Where a user stands in the menu.
#[derive(Debug, Clone, Copy, PartialEq, Eq, Structural)]
pub enum UssdState {
    Start,
    MainMenu,
    CheckBalance,
    SendBitcoin,
    ReceiveBitcoin,
    ConfirmSendBitcoin,
}

/// The name under which a state is kept.
pub open spec fn state_name(state: UssdState) -> Seq<char> {
    match state {
        UssdState::Start => "START"@,
        UssdState::MainMenu => "MAIN_MENU"@,
        UssdState::CheckBalance => "CHECK_BALANCE"@,
        UssdState::SendBitcoin => "SEND_BITCOIN"@,
        UssdState::ReceiveBitcoin => "RECEIVE_BITCOIN"@,
        UssdState::ConfirmSendBitcoin => "CONFIRM_SEND_BITCOIN"@,
    }
}

/// The state that a name stands for, if it stands for one.
pub open spec fn state_named(name: Seq<char>) -> Option<UssdState> {
    if name == "START"@ {
        Some(UssdState::Start)
    } else if name == "MAIN_MENU"@ {
        Some(UssdState::MainMenu)
    } else if name == "CHECK_BALANCE"@ {
        Some(UssdState::CheckBalance)
    } else if name == "SEND_BITCOIN"@ {
        Some(UssdState::SendBitcoin)
    } else if name == "RECEIVE_BITCOIN"@ {
        Some(UssdState::ReceiveBitcoin)
    } else if name == "CONFIRM_SEND_BITCOIN"@ {
        Some(UssdState::ConfirmSendBitcoin)
    } else {
        None
    }
}

/// Every state is found again under its name.
pub proof fn law_state_names_round_trip(state: UssdState)
    ensures
        state_named(state_name(state)) == Some(state),
{
    reveal_strlit("START");
    reveal_strlit("MAIN_MENU");
    reveal_strlit("CHECK_BALANCE");
    reveal_strlit("SEND_BITCOIN");
    reveal_strlit("RECEIVE_BITCOIN");
    reveal_strlit("CONFIRM_SEND_BITCOIN");
    assert("MAIN_MENU"@[0] == 'M');
    assert("CHECK_BALANCE"@[0] == 'C');
    assert("SEND_BITCOIN"@[0] == 'S');
    assert("RECEIVE_BITCOIN"@[0] == 'R');
    assert("CONFIRM_SEND_BITCOIN"@[0] == 'C');
    assert("START"@[0] == 'S');
    assert("START"@.len() == 5);
    assert("SEND_BITCOIN"@.len() == 12);
    assert("CHECK_BALANCE"@.len() == 13);
    assert("CONFIRM_SEND_BITCOIN"@.len() == 20);
}

impl UssdState {
    /// The name under which the state is kept.
    pub fn as_str(&self) -> (name: &'static str)
        ensures
            name@ == state_name(*self),
    {
        match self {
            UssdState::Start => "START",
            UssdState::MainMenu => "MAIN_MENU",
            UssdState::CheckBalance => "CHECK_BALANCE",
            UssdState::SendBitcoin => "SEND_BITCOIN",
            UssdState::ReceiveBitcoin => "RECEIVE_BITCOIN",
            UssdState::ConfirmSendBitcoin => "CONFIRM_SEND_BITCOIN",
        }
    }

    /// The state that `s` names, if it names one.
    pub fn from_str(s: &str) -> (state: Option<UssdState>)
        ensures
            state == state_named(s@),
    {
        if same_text(s, "START") {
            Some(UssdState::Start)
        } else if same_text(s, "MAIN_MENU") {
            Some(UssdState::MainMenu)
        } else if same_text(s, "CHECK_BALANCE") {
            Some(UssdState::CheckBalance)
        } else if same_text(s, "SEND_BITCOIN") {
            Some(UssdState::SendBitcoin)
        } else if same_text(s, "RECEIVE_BITCOIN") {
            Some(UssdState::ReceiveBitcoin)
        } else if same_text(s, "CONFIRM_SEND_BITCOIN") {
            Some(UssdState::ConfirmSendBitcoin)
        } else {
            None
        }
    }

    /// The state in which a request is handled, given what the session
    /// holds: the state named there, and `Start` where nothing is held or
    /// what is held names no state.
    pub fn resume(stored: Option<&str>) -> (state: UssdState)
        ensures
            state == match stored {
                Some(name) => match state_named(name@) {
                    Some(s) => s,
                    None => UssdState::Start,
                },
                None => UssdState::Start,
            },
    {
        match stored {
            Some(name) => match UssdState::from_str(name) {
                Some(s) => s,
                None => UssdState::Start,
            },
            None => UssdState::Start,
        }
    }
}

/// What the caller looks up for the user.
#[derive(Debug, Clone, Copy, PartialEq, Eq, Structural)]
pub enum UssdLookup {
    /// The balance of the wallet, as text.
    Balance,
    /// An address to receive bitcoin at.
    ReceiveAddress,
}

/// What the caller does for one request.
#[derive(Debug)]
pub enum UssdStep {
    /// Keep `next` as the state, where there is one, and answer `text`.
    Reply { text: String, next: Option<UssdState> },
    /// Look `what` up; keep `next` as the state, where there is one, and
    /// answer `prefix` followed by what was found.
    Lookup { what: UssdLookup, prefix: String, next: Option<UssdState> },
    /// Keep the amount and the address with the session, keep
    /// `ConfirmSendBitcoin` as the state, and answer `text`.
    Prepare { amount: i64, address: String, text: String },
    /// Send what was kept with the session, drop the session, and answer as
    /// `send_reply` says.
    Send,
    /// Drop the session and answer `text`.
    Cancel { text: String },
    /// Fail with the error.
    Reject(AppError),
}

/// What a step holds.
pub enum UssdStepView {
    Reply { text: Seq<char>, next: Option<UssdState> },
    Lookup { what: UssdLookup, prefix: Seq<char>, next: Option<UssdState> },
    Prepare { amount: i64, address: Seq<char>, text: Seq<char> },
    Send,
    Cancel { text: Seq<char> },
    RejectBadRequest { message: Seq<char> },
    RejectOther,
}

impl View for UssdStep {
    type V = UssdStepView;

    open spec fn view(&self) -> UssdStepView {
        match self {
            UssdStep::Reply { text, next } => UssdStepView::Reply { text: text@, next: *next },
            UssdStep::Lookup { what, prefix, next } => UssdStepView::Lookup {
                what: *what,
                prefix: prefix@,
                next: *next,
            },
            UssdStep::Prepare { amount, address, text } => UssdStepView::Prepare {
                amount: *amount,
                address: address@,
                text: text@,
            },
            UssdStep::Send => UssdStepView::Send,
            UssdStep::Cancel { text } => UssdStepView::Cancel { text: text@ },
            UssdStep::Reject(AppError::BadRequest(m)) => UssdStepView::RejectBadRequest {
                message: m@,
            },
            UssdStep::Reject(_) => UssdStepView::RejectOther,
        }
    }
}

/// The question that confirms a payment.
pub open spec fn confirm_text(amount: i64, address: Seq<char>) -> Seq<char> {
    "CON Confirm send "@ + decimal_text(amount) + " Sats to "@ + address
        + ". Reply '1' to confirm, '0' to cancel."@
}

/// What the input does at the start.
pub open spec fn start_step(input: Seq<char>) -> UssdStepView {
    UssdStepView::Reply {
        text: if input.len() == 0 {
            "CON Welcome to Sabi Wallet. Choose an option:\n1. Main Menu"@
        } else if input == "1"@ {
            "CON Welcome to Sabi Wallet. Choose an option:\n1. Check Balance\n2. Send Bitcoin\n3. Receive Bitcoin"@
        } else {
            "END Invalid input. Please try again."@
        },
        next: Some(UssdState::MainMenu),
    }
}

/// What the input does in the main menu.
pub open spec fn main_menu_step(input: Seq<char>) -> UssdStepView {
    if input == "1"@ {
        UssdStepView::Lookup {
            what: UssdLookup::Balance,
            prefix: "END "@,
            next: Some(UssdState::CheckBalance),
        }
    } else if input == "2"@ {
        UssdStepView::Reply {
            text: "CON Enter amount in Sats and recipient's address (e.g., 1000 bc1...)"@,
            next: Some(UssdState::SendBitcoin),
        }
    } else if input == "3"@ {
        UssdStepView::Lookup {
            what: UssdLookup::ReceiveAddress,
            prefix: "END "@,
            next: Some(UssdState::ReceiveBitcoin),
        }
    } else {
        UssdStepView::Reply {
            text: "CON Invalid option. Choose:\n1. Check Balance\n2. Send Bitcoin\n3. Receive Bitcoin"@,
            next: Some(UssdState::MainMenu),
        }
    }
}

/// What an amount and an address, as typed, do: `before` is what stands
/// before the first space and `after` what stands after it.
pub open spec fn send_parts_step(parts: Option<(Seq<char>, Seq<char>)>) -> UssdStepView {
    match parts {
        None => UssdStepView::Reply {
            text: "CON Invalid format. Enter amount and address (e.g., 1000 bc1...)"@,
            next: Some(UssdState::SendBitcoin),
        },
        Some((before, after)) => match parsed_i64(before) {
            None => UssdStepView::RejectBadRequest {
                message: "Invalid amount. Must be a number."@,
            },
            Some(amount) => UssdStepView::Prepare {
                amount,
                address: after,
                text: confirm_text(amount, after),
            },
        },
    }
}

/// What the input does when a payment waits for confirmation.
pub open spec fn confirm_step(input: Seq<char>) -> UssdStepView {
    if input == "1"@ {
        UssdStepView::Send
    } else if input == "0"@ {
        UssdStepView::Cancel { text: "END Bitcoin send cancelled."@ }
    } else {
        UssdStepView::Reply {
            text: "CON Invalid input. Reply '1' to confirm, '0' to cancel."@,
            next: None,
        }
    }
}

/// What the input does at the start: the menu is shown, whatever was
/// typed, and the main menu comes next.
pub fn handle_start_state(input: &str) -> (step: UssdStep)
    ensures
        step@ == start_step(input@),
{
    let text = if input.is_empty() {
        owned("CON Welcome to Sabi Wallet. Choose an option:\n1. Main Menu")
    } else if same_text(input, "1") {
        owned(
            "CON Welcome to Sabi Wallet. Choose an option:\n1. Check Balance\n2. Send Bitcoin\n3. Receive Bitcoin",
        )
    } else {
        owned("END Invalid input. Please try again.")
    };
    UssdStep::Reply { text, next: Some(UssdState::MainMenu) }
}

/// What the input does in the main menu.
pub fn handle_main_menu_state(input: &str) -> (step: UssdStep)
    ensures
        step@ == main_menu_step(input@),
{
    if same_text(input, "1") {
        UssdStep::Lookup {
            what: UssdLookup::Balance,
            prefix: owned("END "),
            next: Some(UssdState::CheckBalance),
        }
    } else if same_text(input, "2") {
        UssdStep::Reply {
            text: owned("CON Enter amount in Sats and recipient's address (e.g., 1000 bc1...)"),
            next: Some(UssdState::SendBitcoin),
        }
    } else if same_text(input, "3") {
        UssdStep::Lookup {
            what: UssdLookup::ReceiveAddress,
            prefix: owned("END "),
            next: Some(UssdState::ReceiveBitcoin),
        }
    } else {
        UssdStep::Reply {
            text: owned(
                "CON Invalid option. Choose:\n1. Check Balance\n2. Send Bitcoin\n3. Receive Bitcoin",
            ),
            next: Some(UssdState::MainMenu),
        }
    }
}

/// What the parts of an input do when an amount and an address are asked
/// for.
pub fn handle_send_parts(parts: Option<(&str, &str)>) -> (step: UssdStep)
    ensures
        step@ == send_parts_step(
            match parts {
                Some((before, after)) => Some((before@, after@)),
                None => None,
            },
        ),
{
    match parts {
        None => UssdStep::Reply {
            text: owned("CON Invalid format. Enter amount and address (e.g., 1000 bc1...)"),
            next: Some(UssdState::SendBitcoin),
        },
        Some((before, after)) => match parse_i64(before) {
            None => UssdStep::Reject(
                AppError::BadRequest(owned("Invalid amount. Must be a number.")),
            ),
            Some(amount) => {
                let mut text = owned("CON Confirm send ");
                let number = decimal(amount);
                text.append(number.as_str());
                text.append(" Sats to ");
                text.append(after);
                text.append(". Reply '1' to confirm, '0' to cancel.");
                UssdStep::Prepare { amount, address: owned(after), text }
            },
        },
    }
}

/// What the input does when an amount and an address are asked for: the
/// input is split at its first space; without a space the question is
/// asked again, an amount that is no number is refused, and otherwise the
/// payment is prepared.
pub fn handle_send_bitcoin_state(input: &str) -> (step: UssdStep)
    ensures
        exists|parts: Option<(Seq<char>, Seq<char>)>|
            {
                &&& step@ == #[trigger] send_parts_step(parts)
                &&& match parts {
                    Some((before, after)) => input@ == before + seq![' '] + after
                        && !before.contains(' '),
                    None => !input@.contains(' '),
                }
            },
{
    let parts = split_at_first(input, ' ');
    let ghost seen: Option<(Seq<char>, Seq<char>)> = match parts {
        Some((before, after)) => Some((before@, after@)),
        None => None,
    };
    let step = handle_send_parts(parts);
    assert(step@ == send_parts_step(seen));
    step
}

/// What the input does when a payment waits for confirmation.
pub fn handle_confirm_send_bitcoin_state(input: &str) -> (step: UssdStep)
    ensures
        step@ == confirm_step(input@),
{
    if same_text(input, "1") {
        UssdStep::Send
    } else if same_text(input, "0") {
        UssdStep::Cancel { text: owned("END Bitcoin send cancelled.") }
    } else {
        UssdStep::Reply {
            text: owned("CON Invalid input. Reply '1' to confirm, '0' to cancel."),
            next: None,
        }
    }
}

/// What the balance state does: the balance is looked up and shown.
pub fn handle_check_balance_state() -> (step: UssdStep)
    ensures
        step@ == (UssdStepView::Lookup {
            what: UssdLookup::Balance,
            prefix: "END Your balance is: "@,
            next: None,
        }),
{
    UssdStep::Lookup {
        what: UssdLookup::Balance,
        prefix: owned("END Your balance is: "),
        next: None,
    }
}

/// What the receive state does: an address is looked up and shown.
pub fn handle_receive_bitcoin_state() -> (step: UssdStep)
    ensures
        step@ == (UssdStepView::Lookup {
            what: UssdLookup::ReceiveAddress,
            prefix: "END Your Bitcoin address is: "@,
            next: None,
        }),
{
    UssdStep::Lookup {
        what: UssdLookup::ReceiveAddress,
        prefix: owned("END Your Bitcoin address is: "),
        next: None,
    }
}

/// What the caller does for the input `text` in the state `state`.
pub fn handle_ussd_request(state: UssdState, text: &str) -> (step: UssdStep)
    ensures
        match state {
            UssdState::Start => step@ == start_step(text@),
            UssdState::MainMenu => step@ == main_menu_step(text@),
            UssdState::CheckBalance => step@ == (UssdStepView::Lookup {
                what: UssdLookup::Balance,
                prefix: "END Your balance is: "@,
                next: None,
            }),
            UssdState::SendBitcoin => exists|parts: Option<(Seq<char>, Seq<char>)>|
                {
                    &&& step@ == #[trigger] send_parts_step(parts)
                    &&& match parts {
                        Some((before, after)) => text@ == before + seq![' '] + after
                            && !before.contains(' '),
                        None => !text@.contains(' '),
                    }
                },
            UssdState::ReceiveBitcoin => step@ == (UssdStepView::Lookup {
                what: UssdLookup::ReceiveAddress,
                prefix: "END Your Bitcoin address is: "@,
                next: None,
            }),
            UssdState::ConfirmSendBitcoin => step@ == confirm_step(text@),
        },
{
    match state {
        UssdState::Start => handle_start_state(text),
        UssdState::MainMenu => handle_main_menu_state(text),
        UssdState::CheckBalance => handle_check_balance_state(),
        UssdState::SendBitcoin => handle_send_bitcoin_state(text),
        UssdState::ReceiveBitcoin => handle_receive_bitcoin_state(),
        UssdState::ConfirmSendBitcoin => handle_confirm_send_bitcoin_state(text),
    }
}

/// The answer after what was looked up is known.
pub fn lookup_reply(prefix: &str, found: &str) -> (text: String)
    ensures
        text@ == prefix@ + found@,
{
    joined(prefix, found)
}

/// The answer after a payment was tried: `failure` is what went wrong, if
/// anything did.
pub fn send_reply(failure: Option<&str>) -> (text: String)
    ensures
        text@ == match failure {
            None => "END Bitcoin sent successfully!"@,
            Some(why) => "END Failed to send Bitcoin: "@ + why@,
        },
{
    match failure {
        None => owned("END Bitcoin sent successfully!"),
        Some(why) => joined("END Failed to send Bitcoin: ", why),
    }
}

/// The balance as the menu shows it: the number, then ` Sats`.
pub fn ussd_check_balance(balance_sats: i64) -> (text: String)
    ensures
        text@ == decimal_text(balance_sats) + " Sats"@,
{
    let mut text = decimal(balance_sats);
    text.append(" Sats");
    text
}

/// The address that the menu shows for receiving: a fixed prefix and the
/// first eight characters of the identifier of the wallet.
pub fn ussd_receive_bitcoin(wallet_id: u128) -> (address: String)
    ensures
        address@ == "bc1qdummyaddressforwallet"@ + uuid_text(wallet_id).subrange(0, 8),
{
    let id = write_uuid(wallet_id);
    joined("bc1qdummyaddressforwallet", id.as_str().substring_char(0, 8))
}

/// What a debit of the wallet came to, given the number of rows that the
/// update changed: it went through exactly when one row changed.
pub fn ussd_send_bitcoin(rows_affected: u64) -> (r: Result<(), AppError>)
    ensures
        r is Ok <==> rows_affected == 1,
        r matches Err(e) ==> (match e {
            AppError::BadRequest(m) => m@ == "Insufficient balance or wallet not found"@,
            _ => false,
        }),
{
    if rows_affected == 1 {
        Ok(())
    } else {
        Err(AppError::BadRequest(owned("Insufficient balance or wallet not found")))
    }
}

} // verus!
