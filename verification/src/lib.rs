//! The verified core of the Sabi wallet backend.
//!
//! The heart of it is `recovery`: a wallet's signing key is split into
//! threshold shares for trusted helpers and put together again once enough
//! of them hand their shares back. Around it stand the rules of the other
//! endpoints: what requests must look like, what the USSD menu answers,
//! who may log in, and how failures show to a caller.

pub mod api;
pub mod bitcoin;
pub mod cli;
pub mod config;
pub mod domain;
pub mod error;
pub mod identifiers;
pub mod nostr;
pub mod recovery;
pub mod request_id;
pub mod services;
pub mod text;
pub mod utils;
