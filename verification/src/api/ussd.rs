//! The request of the USSD endpoint.

use vstd::prelude::*;

verus! {

/// A USSD callback as the gateway sends it.
#[derive(Debug)]
pub struct UssdRequest {
    pub session_id: String,
    pub service_code: String,
    pub phone_number: String,
    /// What the user typed.
    pub text: String,
}

} // verus!
