//! Admin users: passwords, and who may log in and release funds.

use crate::domain::models::{AdminUser, Transaction};
use crate::error::AppError;
use crate::identifiers::{uuid_text, write_uuid};
use crate::text::{joined, owned, same_text};
use vstd::prelude::*;

verus! {

/// How long a token is good for, in seconds.
pub const JWT_EXPIRATION_SECONDS: u64 = 3600;

/// Whether `argon2::Argon2::verify_password` accepts a password for a
/// hash in PHC form; nothing where `argon2::PasswordHash::new` does not
/// read the hash.
pub uninterp spec fn password_check(password: Seq<char>, hash: Seq<char>) -> Option<bool>;

/// Hashes a password with a fresh salt.
///
/// Trusted: draws a salt with `SaltString::generate` on `rand::thread_rng()`
/// and calls `argon2::Argon2::hash_password`, so the hash differs from call
/// to call. The contract claims what holds of every hash that comes back,
/// as the documentation of the crate shows it: read with
/// `PasswordHash::new`, it is accepted by `Argon2::verify_password` for the
/// same password.
#[verifier::external_body]
fn argon2_hash(password: &str) -> (r: Option<String>)
    ensures
        r matches Some(hash) ==> password_check(password@, hash@) == Some(true),
{
    let salt = argon2::password_hash::SaltString::generate(&mut rand::thread_rng());
    match argon2::PasswordHasher::hash_password(
        &argon2::Argon2::default(),
        password.as_bytes(),
        &salt,
    ) {
        Ok(hash) => Some(hash.to_string()),
        Err(_) => None,
    }
}

/// Checks a password against a hash.
///
/// Trusted: reads the hash with `argon2::PasswordHash::new` and calls
/// `argon2::Argon2::verify_password`. The result depends on the two texts
/// alone; the contract gives it a name.
#[verifier::external_body]
fn argon2_check(password: &str, hash: &str) -> (r: Option<bool>)
    ensures
        r == password_check(password@, hash@),
{
    match argon2::PasswordHash::new(hash) {
        Ok(parsed) => Some(
            argon2::PasswordVerifier::verify_password(
                &argon2::Argon2::default(),
                password.as_bytes(),
                &parsed,
            ).is_ok(),
        ),
        Err(_) => None,
    }
}

/// What hashing a password comes to, given what the hasher gave: the hash,
/// or an `Internal` error where it gave none.
pub fn judge_hash(hashed: Option<String>) -> (r: Result<String, AppError>)
    ensures
        match hashed {
            Some(hash) => r matches Ok(h) && h@ == hash@,
            None => r matches Err(e) && e is Internal,
        },
{
    match hashed {
        Some(hash) => Ok(hash),
        None => Err(AppError::Internal(owned("Failed to hash password"))),
    }
}

/// Hashes a password with Argon2 and a fresh salt. The hash differs from
/// call to call; whatever it is, `verify_password` accepts the password for
/// it. Fails with an `Internal` error where the hasher fails.
pub fn hash_password(password: &str) -> (r: Result<String, AppError>)
    ensures
        match r {
            Ok(hash) => password_check(password@, hash@) == Some(true),
            Err(e) => e is Internal,
        },
{
    judge_hash(argon2_hash(password))
}

/// What checking a password comes to, given what the hasher said.
pub fn judge_password(checked: Option<bool>) -> (r: Result<bool, AppError>)
    ensures
        match r {
            Ok(accepted) => checked == Some(accepted),
            Err(e) => checked is None && e is Internal,
        },
{
    match checked {
        Some(accepted) => Ok(accepted),
        None => Err(AppError::Internal(owned("Failed to parse password hash"))),
    }
}

/// Checks a password against a hash. Fails with an `Internal` error
/// exactly when the hash cannot be read.
pub fn verify_password(password: &str, hash: &str) -> (r: Result<bool, AppError>)
    ensures
        match r {
            Ok(accepted) => password_check(password@, hash@) == Some(accepted),
            Err(e) => password_check(password@, hash@) is None && e is Internal,
        },
{
    judge_password(argon2_check(password, hash))
}

/// Whether the default admin is to be made before a login is judged: no
/// user of that name was found, and the name is `admin`.
pub fn needs_default_admin(found: bool, username: &str) -> (needed: bool)
    ensures
        needed == (!found && username@ == "admin"@),
{
    !found && same_text(username, "admin")
}

/// What a login comes to.
pub enum LoginVerdict {
    /// The admin with this identifier is let in.
    Granted(u128),
    /// No such user, or the wrong password.
    BadCredentials,
    /// The hash on record cannot be read.
    BrokenHash,
    /// The account is switched off.
    Inactive,
}

/// What a login comes to, given the user on record and what the hasher
/// said of the password.
pub open spec fn login_verdict(admin: Option<AdminUser>, checked: Option<bool>) -> LoginVerdict {
    match admin {
        None => LoginVerdict::BadCredentials,
        Some(user) => match checked {
            None => LoginVerdict::BrokenHash,
            Some(false) => LoginVerdict::BadCredentials,
            Some(true) => if user.is_active {
                LoginVerdict::Granted(user.id)
            } else {
                LoginVerdict::Inactive
            },
        },
    }
}

/// The error of a verdict that lets nobody in.
pub fn verdict_error(verdict: &LoginVerdict) -> (e: Option<AppError>)
    ensures
        match *verdict {
            LoginVerdict::Granted(_) => e is None,
            LoginVerdict::BadCredentials => e matches Some(AppError::Unauthorized(m)) && m@
                == "Invalid username or password"@,
            LoginVerdict::BrokenHash => e matches Some(AppError::Internal(_)),
            LoginVerdict::Inactive => e matches Some(AppError::Forbidden(m)) && m@
                == "Admin account is inactive"@,
        },
{
    match verdict {
        LoginVerdict::Granted(_) => None,
        LoginVerdict::BadCredentials => Some(
            AppError::Unauthorized(owned("Invalid username or password")),
        ),
        LoginVerdict::BrokenHash => Some(
            AppError::Internal(owned("Failed to parse password hash")),
        ),
        LoginVerdict::Inactive => Some(AppError::Forbidden(owned("Admin account is inactive"))),
    }
}

/// Judges a login: the user on record, if any, against the password
/// given.
pub fn authenticate_admin_user(admin: Option<&AdminUser>, password: &str) -> (verdict:
    LoginVerdict)
    ensures
        verdict == login_verdict(
            match admin {
                Some(user) => Some(*user),
                None => None,
            },
            match admin {
                Some(user) => password_check(password@, user.password_hash@),
                None => None,
            },
        ),
{
    match admin {
        None => LoginVerdict::BadCredentials,
        Some(user) => match argon2_check(password, user.password_hash.as_str()) {
            None => LoginVerdict::BrokenHash,
            Some(false) => LoginVerdict::BadCredentials,
            Some(true) => if user.is_active {
                LoginVerdict::Granted(user.id)
            } else {
                LoginVerdict::Inactive
            },
        },
    }
}

/// What a token says.
#[derive(Debug)]
pub struct Claims {
    /// The identifier of the admin.
    pub sub: String,
    /// When the token expires, in seconds since the epoch.
    pub exp: u64,
    /// When the token was issued.
    pub iat: u64,
}

impl Claims {
    /// The claims of a token issued to `admin_id` at `now`: it expires an
    /// hour later.
    pub fn issue(admin_id: u128, now: u64) -> (claims: Claims)
        requires
            now + JWT_EXPIRATION_SECONDS <= u64::MAX,
        ensures
            claims.sub@ == uuid_text(admin_id),
            claims.iat == now,
            claims.exp == now + JWT_EXPIRATION_SECONDS,
    {
        Claims { sub: write_uuid(admin_id), exp: now + JWT_EXPIRATION_SECONDS, iat: now }
    }
}

/// Whether funds can be released by hand for a transaction in the state
/// `status`: it waits, or an admin holds it.
pub open spec fn releasable(status: Seq<char>) -> bool {
    status == "pending"@ || status == "admin_hold"@
}

/// Checks that the transaction is in a state for a release by hand.
///
/// Fails with `BadRequest` exactly when it is not.
pub fn check_releasable(transaction: &Transaction) -> (r: Result<(), AppError>)
    ensures
        r is Ok <==> releasable(transaction.status@),
        r matches Err(e) ==> (match e {
            AppError::BadRequest(m) => m@ == "Transaction "@ + uuid_text(transaction.id)
                + " is not in a state for manual release (status: "@ + transaction.status@
                + ")"@,
            _ => false,
        }),
{
    if same_text(transaction.status.as_str(), "pending") || same_text(
        transaction.status.as_str(),
        "admin_hold",
    ) {
        Ok(())
    } else {
        let id = write_uuid(transaction.id);
        let mut m = joined("Transaction ", id.as_str());
        m.append(" is not in a state for manual release (status: ");
        m.append(transaction.status.as_str());
        m.append(")");
        Err(AppError::BadRequest(m))
    }
}

/// Marks a transaction as released by hand, if it is in a state for that:
/// it is completed, carries the hash of the payment, and its description is
/// the notes given.
///
/// Fails with `BadRequest`, and leaves the transaction as it is, exactly
/// when the transaction neither waits nor is held by an admin.
pub fn manual_release_funds(
    transaction: &mut Transaction,
    payment_hash: String,
    notes: Option<String>,
) -> (r: Result<(), AppError>)
    ensures
        r is Ok <==> releasable(old(transaction).status@),
        r is Ok ==> {
            &&& final(transaction).status@ == "completed"@
            &&& final(transaction).external_id == Some(payment_hash)
            &&& final(transaction).description == notes
            &&& final(transaction).id == old(transaction).id
            &&& final(transaction).wallet_id == old(transaction).wallet_id
            &&& final(transaction).tx_type == old(transaction).tx_type
            &&& final(transaction).amount_sats == old(transaction).amount_sats
            &&& final(transaction).fee_sats == old(transaction).fee_sats
            &&& final(transaction).created_at == old(transaction).created_at
            &&& final(transaction).updated_at == old(transaction).updated_at
        },
        r matches Err(e) ==> *final(transaction) == *old(transaction) && (match e {
            AppError::BadRequest(m) => m@ == "Transaction "@ + uuid_text(old(transaction).id)
                + " is not in a state for manual release (status: "@ + old(transaction).status@
                + ")"@,
            _ => false,
        }),
{
    match check_releasable(transaction) {
        Err(e) => Err(e),
        Ok(_) => {
            transaction.status = owned("completed");
            transaction.external_id = Some(payment_hash);
            transaction.description = notes;
            Ok(())
        },
    }
}

} // verus!
