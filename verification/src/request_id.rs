//! Identifiers for incoming requests.

use crate::identifiers::{fresh_uuid, uuid_text, write_uuid};
use vstd::prelude::*;

verus! {

/// Makes a fresh identifier for each request.
#[derive(Clone, Copy, Debug)]
pub struct UuidRequestId;

impl UuidRequestId {
    /// The identifier for the next request: the text of a fresh random
    /// identifier.
    pub fn next_request_id(&mut self) -> (id: String)
        ensures
            exists|n: u128| id@ == uuid_text(n),
    {
        let n = fresh_uuid();
        write_uuid(n)
    }
}

/// The maker of request identifiers.
pub fn make_uuid_request_id() -> UuidRequestId {
    UuidRequestId
}

} // verus!
