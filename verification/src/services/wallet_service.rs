//! Lightning wallets: what is reported of them and how their names are
//! made.

use crate::error::AppError;
use crate::identifiers::{uuid_simple_text, uuid_text, write_uuid, write_uuid_simple};
use crate::text::{joined, owned};
use vstd::prelude::*;
use vstd::string::StrSliceExecFns;

verus! {

/// How to reach the Lightning node of a wallet.
#[derive(Debug)]
pub struct WalletConnectionDetails {
    pub wallet_id: String,
    pub user_id: String,
    pub lightning_node_id: String,
    pub node_address: String,
    pub synced: bool,
    pub initialized_at: String,
}

/// What is reported of a Lightning wallet.
#[derive(Debug)]
pub struct WalletInfo {
    pub id: u128,
    pub user_id: u128,
    pub breez_wallet_id: String,
    pub nostr_npub: String,
    pub balance_sats: i64,
    pub connection_details: WalletConnectionDetails,
    pub created_at: String,
}

/// The names under which a new wallet goes.
#[derive(Debug)]
pub struct WalletNames {
    pub breez_wallet_id: String,
    pub lightning_node_id: String,
    pub node_address: String,
    pub nostr_npub: String,
}

/// Why a wallet could not be stored.
#[derive(Debug)]
pub enum InsertFailure {
    /// The database returned no row.
    RowNotFound,
    /// The database reports a duplicate key.
    DuplicateKey,
    /// Anything else, with the text of the error.
    Other(String),
}

/// The operations on Lightning wallets.
#[derive(Debug)]
pub struct WalletService;

impl WalletService {
    /// The names of a new wallet, made from three identifiers written
    /// without hyphens: the wallet is `breez_` and its identifier, the node
    /// is `node_` and its identifier, the public key is `npub1` and its
    /// identifier, and the address of the node is `lnd_node_`, the first ten
    /// characters of the node's identifier, and `@127.0.0.1:9735`.
    pub fn wallet_names(wallet_id: u128, node_id: u128, npub_id: u128) -> (names: WalletNames)
        ensures
            names.breez_wallet_id@ == "breez_"@ + uuid_simple_text(wallet_id),
            names.lightning_node_id@ == "node_"@ + uuid_simple_text(node_id),
            names.nostr_npub@ == "npub1"@ + uuid_simple_text(npub_id),
            names.node_address@ == "lnd_node_"@ + uuid_simple_text(node_id).subrange(0, 10)
                + "@127.0.0.1:9735"@,
    {
        let wallet = write_uuid_simple(wallet_id);
        let node = write_uuid_simple(node_id);
        let npub = write_uuid_simple(npub_id);
        let head = node.as_str().substring_char(0, 10);
        let mut node_address = joined("lnd_node_", head);
        node_address.append("@127.0.0.1:9735");
        WalletNames {
            breez_wallet_id: joined("breez_", wallet.as_str()),
            lightning_node_id: joined("node_", node.as_str()),
            node_address,
            nostr_npub: joined("npub1", npub.as_str()),
        }
    }

    /// The failure that a wallet that could not be stored shows as.
    pub fn insert_failure(failure: InsertFailure) -> (e: AppError)
        ensures
            match failure {
                InsertFailure::RowNotFound => match e {
                    AppError::NotFound(m) => m@ == "User not found"@,
                    _ => false,
                },
                InsertFailure::DuplicateKey => match e {
                    AppError::Conflict(m) => m@ == "Wallet already exists for this user"@,
                    _ => false,
                },
                InsertFailure::Other(text) => match e {
                    AppError::Sqlx(m) => m@ == text@,
                    _ => false,
                },
            },
    {
        match failure {
            InsertFailure::RowNotFound => AppError::NotFound(owned("User not found")),
            InsertFailure::DuplicateKey => AppError::Conflict(
                owned("Wallet already exists for this user"),
            ),
            InsertFailure::Other(text) => AppError::Sqlx(text),
        }
    }

    /// The connection details of the wallet `wallet_id` of the user
    /// `user_id`, whose node has the identifier and address given.
    pub fn connection_details(
        wallet_id: u128,
        user_id: u128,
        lightning_node_id: String,
        node_address: String,
        synced: bool,
        initialized_at: String,
    ) -> (d: WalletConnectionDetails)
        ensures
            d.wallet_id@ == uuid_text(wallet_id),
            d.user_id@ == uuid_text(user_id),
            d.lightning_node_id@ == lightning_node_id@,
            d.node_address@ == node_address@,
            d.synced == synced,
            d.initialized_at@ == initialized_at@,
    {
        WalletConnectionDetails {
            wallet_id: write_uuid(wallet_id),
            user_id: write_uuid(user_id),
            lightning_node_id,
            node_address,
            synced,
            initialized_at,
        }
    }
}

} // verus!
