//! Threshold social recovery.
//!
//! `codec` splits a secret into shares and reconstructs it, over the field
//! of `field` with the polynomials of `polynomial`; `laws` and `secrecy`
//! say what holds between the two. `channel` seals and opens envelopes,
//! `wire` says how shares and payloads are written down. `collector`
//! accumulates what the helpers hand in, `session` is the life of one
//! recovery, and `coordinator` keeps the sessions of all wallets.

pub mod bytes;
pub mod channel;
pub mod checksum;
pub mod codec;
pub mod collector;
pub mod coordinator;
pub mod entropy;
pub mod error;
pub mod field;
pub mod laws;
pub mod polynomial;
pub mod secrecy;
pub mod secret;
pub mod session;
pub mod session_laws;
pub mod wire;
