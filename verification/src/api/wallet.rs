//! The requests and answers of the wallet endpoints.

use crate::error::AppError;
use crate::identifiers::{parsed_uuid, read_uuid};
use crate::services::wallet_service::WalletInfo;
use crate::text::owned;
use vstd::prelude::*;
use vstd::string::StrSliceExecFns;
use vstd::utf8::encode_utf8;

verus! {

/// A request to make a Lightning wallet.
#[derive(Debug)]
pub struct CreateWalletRequest {
    pub user_id: String,
    pub phone_number: String,
}

/// The answer of the wallet endpoints.
#[derive(Debug)]
pub struct WalletResponse {
    pub success: bool,
    pub data: Option<WalletInfo>,
    pub error: Option<String>,
}

/// Whether a phone number is acceptable for a new wallet: it starts with
/// `+` and has at least ten bytes.
pub open spec fn phone_acceptable(phone: Seq<char>) -> bool {
    phone.len() > 0 && phone[0] == '+' && encode_utf8(phone).len() >= 10
}

impl CreateWalletRequest {
    /// Checks the request and reads the identifier of the user.
    ///
    /// Fails with `BadRequest` when the identifier cannot be read, or else
    /// when the phone number is not acceptable.
    pub fn check(&self) -> (r: Result<u128, AppError>)
        ensures
            match r {
                Ok(id) => parsed_uuid(self.user_id@) == Some(id) && phone_acceptable(self.phone_number@),
                Err(e) => match e {
                    AppError::BadRequest(m) => if parsed_uuid(self.user_id@) is None {
                        m@ == "Invalid user_id format"@
                    } else {
                        !phone_acceptable(self.phone_number@) && m@
                            == "Phone number must start with + and be at least 10 digits"@
                    },
                    _ => false,
                },
            },
    {
        let id = match read_uuid(self.user_id.as_str()) {
            Some(id) => id,
            None => {
                return Err(AppError::BadRequest(owned("Invalid user_id format")));
            },
        };
        let phone = self.phone_number.as_str();
        let starts = !phone.is_empty() && phone.get_char(0) == '+';
        let bytes = phone.as_bytes().len();
        assert(bytes == encode_utf8(self.phone_number@).len());
        assert(starts == (self.phone_number@.len() > 0 && self.phone_number@[0] == '+'));
        if !starts || bytes < 10 {
            return Err(
                AppError::BadRequest(
                    owned("Phone number must start with + and be at least 10 digits"),
                ),
            );
        }
        Ok(id)
    }
}

/// Whether a wallet may be made for a user: not when the user has one
/// already. Fails with `Conflict` exactly then.
pub fn refuse_second_wallet(has_wallet: bool) -> (r: Result<(), AppError>)
    ensures
        r is Err <==> has_wallet,
        r matches Err(e) ==> (match e {
            AppError::Conflict(m) => m@ == "User already has a Lightning wallet"@,
            _ => false,
        }),
{
    if has_wallet {
        Err(AppError::Conflict(owned("User already has a Lightning wallet")))
    } else {
        Ok(())
    }
}

impl WalletResponse {
    /// The answer that carries a wallet.
    pub fn found(info: WalletInfo) -> (r: WalletResponse)
        ensures
            r.success,
            r.data == Some(info),
            r.error is None,
    {
        WalletResponse { success: true, data: Some(info), error: None }
    }
}

} // verus!
