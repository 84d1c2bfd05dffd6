//! What the wallet needs of a Nostr client, apart from the network.

use crate::error::AppError;
use crate::recovery::channel::{nip04_text, Identity, PubKey};
use crate::text::owned;
use vstd::prelude::*;

verus! {

/// What a Nostr Wallet Connect link holds.
#[derive(Debug)]
pub struct NostrWalletConnectInfo {
    pub uri: String,
    pub secret: String,
    pub relay_url: String,
}

/// The first of the configured relays; the empty text where there is none.
pub fn get_first_relay_url(relays: &Vec<String>) -> (url: &str)
    ensures
        url@ == if relays@.len() > 0 {
            relays@[0]@
        } else {
            Seq::<char>::empty()
        },
{
    if relays.len() > 0 {
        relays[0].as_str()
    } else {
        let empty: &'static str = "";
        proof {
            reveal_strlit("");
        }
        assert(empty@ =~= Seq::<char>::empty());
        empty
    }
}

/// Opens a NIP-04 direct message from `sender_pubkey` for `receiver`.
///
/// Fails with an `Internal` error exactly when the cipher does not open
/// the message to a text.
pub fn decrypt_dm(sender_pubkey: &PubKey, receiver: &Identity, encrypted_content: &str) -> (r:
    Result<String, AppError>)
    ensures
        match r {
            Ok(text) => nip04_text(receiver@.secret, sender_pubkey@, encrypted_content@) == Some(
                text@,
            ),
            Err(e) => e is Internal && nip04_text(
                receiver@.secret,
                sender_pubkey@,
                encrypted_content@,
            ) is None,
        },
{
    match receiver.open_text(sender_pubkey, encrypted_content) {
        Some(text) => Ok(text),
        None => Err(AppError::Internal(owned("Failed to decrypt DM"))),
    }
}

} // verus!
